//! The orchestrator: one run of the request lifecycle. It registers the
//! request, announces the stream, consults the cancellation latch at the
//! two checkpoints, parses and classifies the message, dispatches to the
//! matching handler, and closes the stream with exactly one terminal event
//! before the request is unregistered.
//!
//! The inference backend call sits between `plan` and the handler's event
//! emission; a driver performs it and hands the completion back, so every
//! decision here is verified for every completion the backend may produce.
//! Cancellation is cooperative: a latch set after a checkpoint was passed
//! stops nothing until the next checkpoint, and work already handed to the
//! backend runs to completion.

use vstd::prelude::*;

use crate::agents::{
    kind_events, ChatAgent, ComparisonAgent, DescriptionAgent, DocumentAgent, HandlerKind,
    ObjectAgent, handler_events_chat, completion_view,
};
use crate::cancel::RequestManager;
use crate::context::{
    has_key_from, parse_spec_tokens, scan_amount, scan_period, ContextParser, PromptKey,
};
use crate::events::{event_request_id, event_views, is_terminal, EventSink, EventView, StreamEvent};
use crate::error::{AppError, ErrorCode, ValidationError, ValidationErrors};
use crate::ext::{empty_json_object, fresh_request_id};
use crate::task::{params_of, Task, TaskDetector, TaskParameters};
use crate::types::Language;

verus! {

/// The status line the orchestrator reports before classifying.
pub open spec fn think_message() -> Seq<char> {
    "Analyzing request and determining task type..."@
}

/// The reason a cancelled request reports.
pub open spec fn cancel_reason() -> Seq<char> {
    "User cancelled"@
}

/// The error a message with no tokens reports.
pub open spec fn empty_input_message() -> Seq<char> {
    "Empty input"@
}

/// The caller's input. Immutable once received; only `message` is required.
#[derive(Clone, Debug)]
pub struct AgentRequest {
    pub message: String,
    pub user_id: Option<String>,
    pub chat_id: Option<String>,
    pub object_id: Option<String>,
    pub language: Option<String>,
    pub session_id: Option<String>,
    pub metadata: Option<serde_json::Value>,
}

impl AgentRequest {
    /// A request carrying only a message.
    pub fn new(message: String) -> (r: Self)
        ensures
            r.message@ == message@,
            r.user_id is None && r.chat_id is None && r.object_id is None,
            r.language is None && r.session_id is None && r.metadata is None,
    {
        AgentRequest {
            message,
            user_id: None,
            chat_id: None,
            object_id: None,
            language: None,
            session_id: None,
            metadata: None,
        }
    }
}

/// The per-request context: a fresh time-ordered request id, the request's
/// optional identifiers, and the defaulted language and metadata. Created
/// once at dispatch, never mutated.
///
/// The request's cancellation latch is not carried here: the registry is
/// its single owner, and `request_id` is the handle through which both the
/// orchestrator's checkpoints and the external cancel endpoint reach the
/// one shared latch.
#[derive(Debug)]
pub struct AgentContext {
    pub request_id: String,
    pub user_id: Option<String>,
    pub chat_id: Option<String>,
    pub object_id: Option<String>,
    pub language: String,
    pub metadata: serde_json::Value,
}

impl AgentContext {
    /// Derives a context from a request: a fresh 36-character request id,
    /// the identifiers copied over, language defaulted to "en", metadata
    /// defaulted to the empty structured value.
    pub fn from_request(req: AgentRequest) -> (r: Self)
        ensures
            r.request_id@.len() == 36,
            r.user_id == req.user_id,
            r.chat_id == req.chat_id,
            r.object_id == req.object_id,
            r.language@ == (match req.language {
                Some(l) => l@,
                None => "en"@,
            }),
            req.metadata is Some ==> r.metadata == req.metadata->0,
    {
        AgentContext {
            request_id: fresh_request_id(),
            user_id: req.user_id,
            chat_id: req.chat_id,
            object_id: req.object_id,
            language: match req.language {
                Some(l) => l,
                None => String::from_str("en"),
            },
            metadata: match req.metadata {
                Some(m) => m,
                None => empty_json_object(),
            },
        }
    }
}

/// Whether a request is acceptable at the boundary: the message is not
/// blank, it is at most ten thousand characters, and a user id, when given,
/// has UUID syntax.
pub open spec fn request_acceptable(req: AgentRequest) -> bool {
    &&& !(forall|k: int|
        0 <= k < req.message@.len() ==> crate::text::is_space(#[trigger] req.message@[k]))
    &&& req.message@.len() <= 10000
    &&& (match req.user_id {
        Some(u) => crate::types::uuid_syntax_ok(u@),
        None => true,
    })
}

/// Checks a request before it is dispatched: accepts exactly the requests
/// `request_acceptable` allows, and rejects the rest with one collected
/// validation error.
pub fn validate_agent_request(request: &AgentRequest) -> (r: Result<(), AppError>)
    ensures
        r is Ok <==> request_acceptable(*request),
        r is Err ==> r->Err_0.code == ErrorCode::ValidationError && r->Err_0.message@
            == "Validation failed"@,
{
    let mut errors = ValidationErrors::new();

    if crate::text::str_is_blank(request.message.as_str()) {
        errors.add(
            ValidationError::new(
                String::from_str("message"),
                String::from_str("Message cannot be empty"),
            ),
        );
    }
    if request.message.as_str().unicode_len() > 10000 {
        errors.add(
            ValidationError::new(
                String::from_str("message"),
                String::from_str("Message too long (max 10000 chars)"),
            ).with_code(String::from_str("TOO_LONG")),
        );
    }
    match &request.user_id {
        Some(u) => {
            if !crate::types::validate_uuid(u.as_str()) {
                errors.add(
                    ValidationError::new(
                        String::from_str("user_id"),
                        String::from_str("Invalid user ID"),
                    ),
                );
            }
        },
        None => {},
    }

    if errors.is_empty() {
        Ok(())
    } else {
        Err(errors.into_app_error())
    }
}

/// What the orchestrator decided to do after its checkpoints, parse and
/// classification.
#[derive(Debug)]
pub enum Plan {
    /// A checkpoint saw the latch set: the request halts as cancelled.
    Halted { reason: String },
    /// The message could not be parsed: the request fails, not retried.
    Rejected { error: String },
    /// The request proceeds to the named task's handler.
    Dispatch { task: Task },
}

/// The events every run opens with.
pub open spec fn opening_events(rid: Seq<char>, started_at: i64) -> Seq<EventView> {
    seq![
        EventView::Started { request_id: rid, timestamp: started_at },
        EventView::CoordinatorThinking { request_id: rid, message: think_message() },
    ]
}

/// The events the dispatched handler emits for a completion.
pub open spec fn task_events(
    rid: Seq<char>,
    task: Task,
    completion: Result<Seq<char>, Seq<char>>,
) -> Seq<EventView> {
    match task {
        Task::Chat => handler_events_chat(rid, completion),
        Task::Object { parameters } => kind_events(HandlerKind::Object, rid, parameters, completion),
        Task::Document { parameters } => kind_events(
            HandlerKind::Document,
            rid,
            parameters,
            completion,
        ),
        Task::Description { parameters } => kind_events(
            HandlerKind::Description,
            rid,
            parameters,
            completion,
        ),
        Task::Comparison { parameters } => kind_events(
            HandlerKind::Comparison,
            rid,
            parameters,
            completion,
        ),
    }
}

/// The terminal event a dispatched run closes with: success carries the
/// completion text; a backend failure is reported recoverable, since a new
/// request may well succeed.
pub open spec fn dispatch_terminal(
    rid: Seq<char>,
    completion: Result<Seq<char>, Seq<char>>,
    finished_at: i64,
) -> EventView {
    match completion {
        Ok(t) => EventView::Completed { request_id: rid, final_result: t, timestamp: finished_at },
        Err(e) => EventView::Error { request_id: rid, error: e, recoverable: true },
    }
}

/// The whole event stream of one request, as a function of the request id,
/// the language code and message, the two checkpoint observations, the
/// backend completion, and the two timestamps.
pub open spec fn trace(
    rid: Seq<char>,
    lang_code: Seq<char>,
    message: Seq<char>,
    first_cancelled: bool,
    second_cancelled: bool,
    completion: Result<Seq<char>, Seq<char>>,
    started_at: i64,
    finished_at: i64,
) -> Seq<EventView> {
    let pre = opening_events(rid, started_at);
    if first_cancelled {
        pre + seq![EventView::Cancelled { request_id: rid, reason: cancel_reason() }]
    } else {
        let toks = parse_spec_tokens(lang_code, message);
        if toks.len() == 0 {
            pre + seq![
                EventView::Error { request_id: rid, error: empty_input_message(), recoverable: false },
            ]
        } else if second_cancelled {
            pre + seq![EventView::Cancelled { request_id: rid, reason: cancel_reason() }]
        } else {
            let task = spec_task(Language::spec_from_code(lang_code), toks);
            pre + task_events(rid, task, completion) + seq![
                dispatch_terminal(rid, completion, finished_at),
            ]
        }
    }
}

/// The parameter bundle a message yields, straight from the parsing model.
pub open spec fn spec_task_params(lang: Language, toks: Seq<Seq<char>>) -> TaskParameters {
    TaskParameters {
        last: has_key_from(lang, toks, PromptKey::Last, 0),
        all: has_key_from(lang, toks, PromptKey::All, 0),
        period: scan_period(lang, toks, 0),
        amount: scan_amount(toks, 0),
    }
}

/// The task a message classifies to, straight from the parsing model.
pub open spec fn spec_task(lang: Language, toks: Seq<Seq<char>>) -> Task {
    let parameters = spec_task_params(lang, toks);
    if has_key_from(lang, toks, PromptKey::Comparison, 0) {
        Task::Comparison { parameters }
    } else if has_key_from(lang, toks, PromptKey::Description, 0) {
        Task::Description { parameters }
    } else if has_key_from(lang, toks, PromptKey::Document, 0) {
        Task::Document { parameters }
    } else if has_key_from(lang, toks, PromptKey::Object, 0) {
        Task::Object { parameters }
    } else {
        Task::Chat
    }
}

/// The master agent: the top-level coordinator holding the registry of
/// in-flight requests. The inference client and the transport live with the
/// driver; this core owns every decision.
pub struct MasterAgent {
    request_manager: RequestManager,
}

impl MasterAgent {
    /// The registry's contents: each in-flight request id and whether its
    /// latch is set.
    pub closed spec fn registry(&self) -> Map<Seq<char>, bool> {
        self.request_manager@
    }

    /// A master agent with an empty registry.
    pub fn new() -> (r: Self)
        ensures
            r.registry() == Map::<Seq<char>, bool>::empty(),
    {
        MasterAgent { request_manager: RequestManager::new() }
    }

    /// Step one of a run: registers a fresh request id and derives the
    /// per-request context from the caller's request.
    pub fn begin_request(&mut self, request: AgentRequest) -> (ctx: AgentContext)
        ensures
            final(self).registry() == old(self).registry().insert(ctx.request_id@, false),
            ctx.request_id@.len() == 36,
            ctx.user_id == request.user_id,
            ctx.chat_id == request.chat_id,
            ctx.object_id == request.object_id,
            ctx.language@ == (match request.language {
                Some(l) => l@,
                None => "en"@,
            }),
    {
        let request_id = fresh_request_id();
        self.request_manager.register(request_id.clone());
        AgentContext {
            request_id,
            user_id: request.user_id,
            chat_id: request.chat_id,
            object_id: request.object_id,
            language: match request.language {
                Some(l) => l,
                None => String::from_str("en"),
            },
            metadata: match request.metadata {
                Some(m) => m,
                None => empty_json_object(),
            },
        }
    }

    /// Requests cancellation of an in-flight request; reports whether
    /// anything was found to cancel. An id that already finished is gone
    /// from the registry, and the call is a harmless no-op returning false.
    pub fn cancel_request(&mut self, request_id: &str) -> (r: bool)
        ensures
            r == old(self).registry().contains_key(request_id@),
            r ==> final(self).registry() == old(self).registry().insert(request_id@, true),
            !r ==> final(self).registry() == old(self).registry(),
    {
        self.request_manager.cancel(request_id)
    }

    /// Whether a registered request has been cancelled; false for ids not
    /// in the registry.
    pub fn is_cancelled(&self, request_id: &str) -> (r: bool)
        ensures
            r == (self.registry().contains_key(request_id@) && self.registry()[request_id@]),
    {
        self.request_manager.is_cancelled(request_id)
    }

    /// Step eight's closing duty: removes the request from the registry.
    /// Called exactly once per run, after the terminal event.
    pub fn end_request(&mut self, request_id: &str)
        ensures
            final(self).registry() == old(self).registry().remove(request_id@),
    {
        self.request_manager.unregister(request_id)
    }

    /// The two events every run announces itself with.
    pub fn start_events(context: &AgentContext, started_at: i64) -> (evs: Vec<StreamEvent>)
        ensures
            event_views(evs@) == opening_events(context.request_id@, started_at),
    {
        let mut evs: Vec<StreamEvent> = Vec::new();
        evs.push(
            StreamEvent::Started {
                request_id: context.request_id.clone(),
                timestamp: started_at,
            },
        );
        evs.push(
            StreamEvent::CoordinatorThinking {
                request_id: context.request_id.clone(),
                message: String::from_str("Analyzing request and determining task type..."),
            },
        );
        proof {
            assert(event_views(evs@) =~= opening_events(context.request_id@, started_at));
        }
        evs
    }

    /// Steps four to seven: checkpoint, parse, classify, checkpoint. The
    /// two flags are the latch as observed at each checkpoint.
    pub fn plan(
        request: &AgentRequest,
        context: &AgentContext,
        first_cancelled: bool,
        second_cancelled: bool,
    ) -> (p: Plan)
        ensures
            ({
                let toks = parse_spec_tokens(context.language@, request.message@);
                let lang = Language::spec_from_code(context.language@);
                &&& first_cancelled ==> p is Halted
                &&& (!first_cancelled && toks.len() == 0) ==> (p matches Plan::Rejected { error }
                    && error@ == empty_input_message())
                &&& (!first_cancelled && toks.len() > 0 && second_cancelled) ==> p is Halted
                &&& (!first_cancelled && toks.len() > 0 && !second_cancelled) ==> (p matches
                    Plan::Dispatch { task } && task == spec_task(lang, toks))
                &&& (p matches Plan::Halted { reason } ==> reason@ == cancel_reason())
            }),
    {
        if first_cancelled {
            return Plan::Halted { reason: String::from_str("User cancelled") };
        }
        let mut parser = ContextParser::new();
        match parser.parse(context.language.as_str(), request.message.as_str()) {
            Err(e) => Plan::Rejected { error: String::from_str(e.message()) },
            Ok(prompt_context) => {
                let detector = TaskDetector::new();
                match detector.detect_task(&prompt_context, request.message.as_str()) {
                    Err(e) => Plan::Rejected { error: String::from_str(e.message()) },
                    Ok(task) => {
                        if second_cancelled {
                            Plan::Halted { reason: String::from_str("User cancelled") }
                        } else {
                            proof {
                                let toks = parse_spec_tokens(
                                    context.language@,
                                    request.message@,
                                );
                                let lang = Language::spec_from_code(context.language@);
                                assert(params_of(prompt_context) == spec_task_params(
                                    lang,
                                    toks,
                                ));
                            }
                            Plan::Dispatch { task }
                        }
                    },
                }
            },
        }
    }

    /// The terminal event of a halted run.
    pub fn cancelled_event(request_id: &String, reason: String) -> (e: StreamEvent)
        ensures
            e@ == (EventView::Cancelled { request_id: request_id@, reason: reason@ }),
    {
        StreamEvent::Cancelled { request_id: request_id.clone(), reason }
    }

    /// The terminal event of a rejected run: a parse failure is final for
    /// this request, so it is not recoverable.
    pub fn rejected_event(request_id: &String, error: String) -> (e: StreamEvent)
        ensures
            e@ == (EventView::Error { request_id: request_id@, error: error@, recoverable: false }),
    {
        StreamEvent::Error { request_id: request_id.clone(), error, recoverable: false }
    }

    /// The terminal event of a dispatched run, from the handler's result.
    pub fn dispatch_terminal_event(
        request_id: &String,
        outcome: Result<String, String>,
        finished_at: i64,
    ) -> (e: StreamEvent)
        ensures
            e@ == dispatch_terminal(request_id@, completion_view(outcome), finished_at),
    {
        match outcome {
            Ok(final_result) => StreamEvent::Completed {
                request_id: request_id.clone(),
                final_result,
                timestamp: finished_at,
            },
            Err(error) => StreamEvent::Error {
                request_id: request_id.clone(),
                error,
                recoverable: true,
            },
        }
    }

    /// One whole run, as a pure function of its inputs: emits into the sink
    /// exactly the trace of the request. A driver that must interleave the
    /// backend call performs the same steps one at a time; this function is
    /// the specification they follow, and the one the laws below speak of.
    pub fn orchestrate(
        request: &AgentRequest,
        context: &AgentContext,
        first_cancelled: bool,
        second_cancelled: bool,
        completion: Result<String, String>,
        started_at: i64,
        finished_at: i64,
        sink: &mut EventSink,
    )
        ensures
            event_views(final(sink).events@) == event_views(old(sink).events@) + trace(
                context.request_id@,
                context.language@,
                request.message@,
                first_cancelled,
                second_cancelled,
                completion_view(completion),
                started_at,
                finished_at,
            ),
    {
        let ghost evs0 = sink.events@;
        let ghost rid = context.request_id@;
        let ghost pre = opening_events(rid, started_at);
        sink.send(
            StreamEvent::Started {
                request_id: context.request_id.clone(),
                timestamp: started_at,
            },
        );
        sink.send(
            StreamEvent::CoordinatorThinking {
                request_id: context.request_id.clone(),
                message: String::from_str("Analyzing request and determining task type..."),
            },
        );
        proof {
            assert(event_views(sink.events@) =~= event_views(evs0) + pre);
        }
        let ghost evs_pre = sink.events@;
        match Self::plan(request, context, first_cancelled, second_cancelled) {
            Plan::Halted { reason } => {
                sink.send(Self::cancelled_event(&context.request_id, reason));
                proof {
                    assert(event_views(sink.events@) =~= event_views(evs0) + (pre + seq![
                        EventView::Cancelled { request_id: rid, reason: cancel_reason() },
                    ]));
                }
            },
            Plan::Rejected { error } => {
                sink.send(Self::rejected_event(&context.request_id, error));
                proof {
                    assert(event_views(sink.events@) =~= event_views(evs0) + (pre + seq![
                        EventView::Error {
                            request_id: rid,
                            error: empty_input_message(),
                            recoverable: false,
                        },
                    ]));
                }
            },
            Plan::Dispatch { task } => {
                let ghost cv = completion_view(completion);
                let outcome: Result<String, String> = match &task {
                    Task::Chat => {
                        let agent = ChatAgent::new(context.request_id.clone());
                        agent.execute(
                            request.message.as_str(),
                            context.language.as_str(),
                            sink,
                            completion,
                        )
                    },
                    Task::Object { parameters } => {
                        let agent = ObjectAgent::new(context.request_id.clone());
                        agent.execute(request.message.as_str(), parameters, sink, completion)
                    },
                    Task::Document { parameters } => {
                        let agent = DocumentAgent::new(context.request_id.clone());
                        agent.execute(request.message.as_str(), parameters, sink, completion)
                    },
                    Task::Description { parameters } => {
                        let agent = DescriptionAgent::new(context.request_id.clone());
                        agent.execute(request.message.as_str(), parameters, sink, completion)
                    },
                    Task::Comparison { parameters } => {
                        let agent = ComparisonAgent::new(context.request_id.clone());
                        agent.execute(request.message.as_str(), parameters, sink, completion)
                    },
                };
                proof {
                    assert(completion_view(outcome) == cv);
                    assert(event_views(sink.events@) =~= event_views(evs_pre) + task_events(
                        rid,
                        task,
                        cv,
                    ));
                }
                let ghost evs_task = sink.events@;
                let term_ev = Self::dispatch_terminal_event(
                    &context.request_id,
                    outcome,
                    finished_at,
                );
                proof {
                    assert(term_ev@ == dispatch_terminal(rid, cv, finished_at));
                }
                sink.send(term_ev);
                proof {
                    assert(event_views(sink.events@) =~= event_views(evs_task).push(
                        dispatch_terminal(rid, cv, finished_at),
                    ));
                    assert(event_views(sink.events@) =~= event_views(evs0) + (pre + task_events(
                        rid,
                        task,
                        cv,
                    ) + seq![dispatch_terminal(rid, cv, finished_at)]));
                }
            },
        }
    }
}

/// No event a handler emits is terminal: terminals are the orchestrator's
/// alone.
proof fn lemma_task_events_not_terminal(
    rid: Seq<char>,
    task: Task,
    completion: Result<Seq<char>, Seq<char>>,
)
    ensures
        forall|i: int|
            0 <= i < task_events(rid, task, completion).len() ==> !is_terminal(
                #[trigger] task_events(rid, task, completion)[i],
            ),
{
    let te = task_events(rid, task, completion);
    match task {
        Task::Chat => {
            match completion {
                Ok(t) => {
                    assert forall|i: int| 0 <= i < te.len() implies !is_terminal(te[i]) by {
                        assert(te[i] == (EventView::TextChunk {
                            request_id: rid,
                            chunk: crate::agents::chunk_texts(t)[i],
                        }));
                    }
                },
                Err(_) => {},
            }
        },
        _ => {
            assert forall|i: int| 0 <= i < te.len() implies !is_terminal(te[i]) by {
                if i == 2 {
                    assert(!is_terminal(te[2]));
                }
            }
        },
    }
}

/// Every event a handler emits names the request it serves.
proof fn lemma_task_events_request_id(
    rid: Seq<char>,
    task: Task,
    completion: Result<Seq<char>, Seq<char>>,
)
    ensures
        forall|i: int|
            0 <= i < task_events(rid, task, completion).len() ==> event_request_id(
                #[trigger] task_events(rid, task, completion)[i],
            ) == rid,
{
    let te = task_events(rid, task, completion);
    match task {
        Task::Chat => {
            match completion {
                Ok(t) => {
                    assert forall|i: int| 0 <= i < te.len() implies event_request_id(te[i])
                        == rid by {
                        assert(te[i] == (EventView::TextChunk {
                            request_id: rid,
                            chunk: crate::agents::chunk_texts(t)[i],
                        }));
                    }
                },
                Err(_) => {},
            }
        },
        _ => {
            assert forall|i: int| 0 <= i < te.len() implies event_request_id(te[i]) == rid by {
                if i == 2 {
                    assert(event_request_id(te[2]) == rid);
                }
            }
        },
    }
}

/// The per-request stream law: each request's events are its own — every
/// event of a trace carries that trace's request id, so streams of
/// independent requests never mix.
pub proof fn lemma_trace_single_request(
    rid: Seq<char>,
    lang_code: Seq<char>,
    message: Seq<char>,
    first_cancelled: bool,
    second_cancelled: bool,
    completion: Result<Seq<char>, Seq<char>>,
    started_at: i64,
    finished_at: i64,
)
    ensures
        ({
            let tr = trace(
                rid,
                lang_code,
                message,
                first_cancelled,
                second_cancelled,
                completion,
                started_at,
                finished_at,
            );
            forall|i: int| 0 <= i < tr.len() ==> event_request_id(#[trigger] tr[i]) == rid
        }),
{
    let pre = opening_events(rid, started_at);
    let tr = trace(
        rid,
        lang_code,
        message,
        first_cancelled,
        second_cancelled,
        completion,
        started_at,
        finished_at,
    );
    let toks = parse_spec_tokens(lang_code, message);
    if first_cancelled || toks.len() == 0 || second_cancelled {
        assert forall|i: int| 0 <= i < tr.len() implies event_request_id(tr[i]) == rid by {
            if i < 2 {
                assert(tr[i] == pre[i]);
            }
        }
    } else {
        let task = spec_task(Language::spec_from_code(lang_code), toks);
        let te = task_events(rid, task, completion);
        let term = dispatch_terminal(rid, completion, finished_at);
        lemma_task_events_request_id(rid, task, completion);
        assert(tr =~= pre + te + seq![term]);
        assert forall|i: int| 0 <= i < tr.len() implies event_request_id(tr[i]) == rid by {
            if i < 2 {
                assert(tr[i] == pre[i]);
            } else if i < 2 + te.len() {
                assert(tr[i] == te[i - 2]);
            } else {
                assert(tr[i] == term);
            }
        }
    }
}

/// The stream law: for every request — whatever the checkpoints saw and
/// whatever the backend answered — the trace ends with exactly one terminal
/// event, and nothing after it.
pub proof fn lemma_exactly_one_terminal(
    rid: Seq<char>,
    lang_code: Seq<char>,
    message: Seq<char>,
    first_cancelled: bool,
    second_cancelled: bool,
    completion: Result<Seq<char>, Seq<char>>,
    started_at: i64,
    finished_at: i64,
)
    ensures
        ({
            let tr = trace(
                rid,
                lang_code,
                message,
                first_cancelled,
                second_cancelled,
                completion,
                started_at,
                finished_at,
            );
            &&& tr.len() >= 3
            &&& is_terminal(tr[tr.len() - 1])
            &&& forall|i: int| 0 <= i < tr.len() - 1 ==> !is_terminal(#[trigger] tr[i])
        }),
{
    let pre = opening_events(rid, started_at);
    let tr = trace(
        rid,
        lang_code,
        message,
        first_cancelled,
        second_cancelled,
        completion,
        started_at,
        finished_at,
    );
    let toks = parse_spec_tokens(lang_code, message);
    if first_cancelled || toks.len() == 0 || second_cancelled {
        assert(tr.len() == 3);
        assert(is_terminal(tr[2]));
        assert forall|i: int| 0 <= i < tr.len() - 1 implies !is_terminal(tr[i]) by {
            assert(tr[i] == pre[i]);
        }
    } else {
        let task = spec_task(Language::spec_from_code(lang_code), toks);
        let te = task_events(rid, task, completion);
        let term = dispatch_terminal(rid, completion, finished_at);
        lemma_task_events_not_terminal(rid, task, completion);
        assert(tr =~= pre + te + seq![term]);
        assert(tr.len() == 3 + te.len());
        assert(tr[tr.len() - 1] == term);
        assert(is_terminal(term));
        assert forall|i: int| 0 <= i < tr.len() - 1 implies !is_terminal(tr[i]) by {
            if i < 2 {
                assert(tr[i] == pre[i]);
            } else {
                assert(tr[i] == te[i - 2]);
            }
        }
    }
}

/// The early-cancellation law: a latch already set at the first checkpoint
/// ends the stream as Cancelled — Completed can never appear.
pub proof fn lemma_cancel_before_first_checkpoint(
    rid: Seq<char>,
    lang_code: Seq<char>,
    message: Seq<char>,
    second_cancelled: bool,
    completion: Result<Seq<char>, Seq<char>>,
    started_at: i64,
    finished_at: i64,
)
    ensures
        ({
            let tr = trace(
                rid,
                lang_code,
                message,
                true,
                second_cancelled,
                completion,
                started_at,
                finished_at,
            );
            &&& tr[tr.len() - 1] is Cancelled
            &&& forall|i: int| 0 <= i < tr.len() ==> !(#[trigger] tr[i] is Completed)
        }),
{
    let tr = trace(
        rid,
        lang_code,
        message,
        true,
        second_cancelled,
        completion,
        started_at,
        finished_at,
    );
    let pre = opening_events(rid, started_at);
    assert forall|i: int| 0 <= i < tr.len() implies !(tr[i] is Completed) by {
        if i < 2 {
            assert(tr[i] == pre[i]);
        }
    }
}

} // verus!
