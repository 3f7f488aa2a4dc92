//! The task classifier: maps a `PromptContext` to exactly one `Task` by a
//! fixed priority order — Comparison > Description > Document > Object >
//! Chat. Classification is total: with no domain keyword it yields `Chat`.

use vstd::prelude::*;

use crate::context::{ParserError, Period, PromptContext, PromptKey};

verus! {

/// The parameter bundle every handler receives, derived from the full
/// `PromptContext` regardless of which task wins.
#[derive(Clone, Copy, Debug, PartialEq)]
pub struct TaskParameters {
    pub last: bool,
    pub all: bool,
    pub period: Option<Period>,
    pub amount: Option<usize>,
}

/// The closed set of tasks a request can be routed to.
#[derive(Clone, Copy, Debug, PartialEq)]
pub enum Task {
    Object { parameters: TaskParameters },
    Document { parameters: TaskParameters },
    Description { parameters: TaskParameters },
    Comparison { parameters: TaskParameters },
    Chat,
}

/// The parameters a context yields.
pub open spec fn params_of(ctx: PromptContext) -> TaskParameters {
    TaskParameters {
        last: ctx.keys@.contains(PromptKey::Last),
        all: ctx.keys@.contains(PromptKey::All),
        period: ctx.period,
        amount: ctx.amount,
    }
}

/// The task a context classifies to, by the fixed priority order.
pub open spec fn task_of(ctx: PromptContext) -> Task {
    if ctx.keys@.contains(PromptKey::Comparison) {
        Task::Comparison { parameters: params_of(ctx) }
    } else if ctx.keys@.contains(PromptKey::Description) {
        Task::Description { parameters: params_of(ctx) }
    } else if ctx.keys@.contains(PromptKey::Document) {
        Task::Document { parameters: params_of(ctx) }
    } else if ctx.keys@.contains(PromptKey::Object) {
        Task::Object { parameters: params_of(ctx) }
    } else {
        Task::Chat
    }
}

/// The classifier. Stateless; a struct so callers can hold one instance.
pub struct TaskDetector {
    _private: (),
}

impl TaskDetector {
    /// A detector.
    pub fn new() -> Self {
        TaskDetector { _private: () }
    }

    /// Classifies a parsed context. Total: always returns `Ok`, defaulting
    /// to `Chat` when no domain keyword was recognized.
    pub fn detect_task(&self, prompt_context: &PromptContext, _prompt: &str) -> (r: Result<
        Task,
        ParserError,
    >)
        ensures
            r == Ok::<Task, ParserError>(task_of(*prompt_context)),
    {
        let parameters = self.build_parameters(prompt_context);

        if keys_contain(&prompt_context.keys, PromptKey::Comparison) {
            return Ok(Task::Comparison { parameters });
        }
        if keys_contain(&prompt_context.keys, PromptKey::Description) {
            return Ok(Task::Description { parameters });
        }
        if keys_contain(&prompt_context.keys, PromptKey::Document) {
            return Ok(Task::Document { parameters });
        }
        if keys_contain(&prompt_context.keys, PromptKey::Object) {
            return Ok(Task::Object { parameters });
        }
        Ok(Task::Chat)
    }

    /// Builds the parameter bundle from the full context.
    fn build_parameters(&self, context: &PromptContext) -> (r: TaskParameters)
        ensures
            r == params_of(*context),
    {
        TaskParameters {
            last: keys_contain(&context.keys, PromptKey::Last),
            all: keys_contain(&context.keys, PromptKey::All),
            period: context.period,
            amount: context.amount,
        }
    }
}

impl Default for TaskDetector {
    /// Same as `new`.
    fn default() -> Self {
        TaskDetector::new()
    }
}

/// Membership test on a key list.
fn keys_contain(keys: &Vec<PromptKey>, k: PromptKey) -> (r: bool)
    ensures
        r == keys@.contains(k),
{
    let n = keys.len();
    let mut i: usize = 0;
    while i < n
        invariant
            n == keys@.len(),
            i <= n,
            forall|j: int| 0 <= j < i ==> keys@[j] != k,
        decreases n - i,
    {
        if keys[i] == k {
            return true;
        }
        i = i + 1;
    }
    false
}

/// The classifier's priority law: a context that names Comparison — even
/// together with Document, Object or any other key — always classifies as
/// Comparison, never as Document.
pub proof fn lemma_comparison_wins(ctx: PromptContext)
    requires
        ctx.keys@.contains(PromptKey::Comparison),
    ensures
        task_of(ctx) is Comparison,
        !(task_of(ctx) is Document),
{
}

/// The classifier's fallback law: with no domain keyword at all, the task
/// is Chat, whatever the quantifiers, period or amount say.
pub proof fn lemma_chat_fallback(ctx: PromptContext)
    requires
        !ctx.keys@.contains(PromptKey::Comparison),
        !ctx.keys@.contains(PromptKey::Description),
        !ctx.keys@.contains(PromptKey::Document),
        !ctx.keys@.contains(PromptKey::Object),
    ensures
        task_of(ctx) is Chat,
{
}

} // verus!
