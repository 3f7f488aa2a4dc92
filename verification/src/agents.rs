//! The specialized handlers. All five share one execution shape: announce
//! the operation with a leading text chunk (chat skips this), build an
//! instruction for the inference backend from the prompt and the parameter
//! bundle, then — given the backend's completion — emit the result as text,
//! emit one structured payload event (chat skips this too), and hand the
//! completion text back as the handler's result.
//!
//! The backend call itself is the caller's: a handler states exactly which
//! events it emits for every possible completion, so the whole decision
//! logic is verified while the inference service stays an external
//! collaborator.

use vstd::prelude::*;

use crate::context::Period;
use crate::events::{event_views, EventSink, EventView, PayloadView, StreamEvent, StructuredPayload};
use crate::task::TaskParameters;
use crate::text::{dec_str, u64_to_dec};

verus! {

/// "true" or "false".
pub open spec fn bool_str(b: bool) -> Seq<char> {
    if b {
        "true"@
    } else {
        "false"@
    }
}

/// The debug-style rendering of an optional period.
pub open spec fn period_str(p: Option<Period>) -> Seq<char> {
    match p {
        None => "None"@,
        Some(Period::Day) => "Some(Day)"@,
        Some(Period::Week) => "Some(Week)"@,
        Some(Period::Month) => "Some(Month)"@,
        Some(Period::Year) => "Some(Year)"@,
    }
}

/// The debug-style rendering of an optional amount.
pub open spec fn amount_str(a: Option<usize>) -> Seq<char> {
    match a {
        None => "None"@,
        Some(v) => "Some("@ + dec_str(v as u64) + ")"@,
    }
}

/// The parameter clause appended to every non-chat instruction.
pub open spec fn params_str(p: TaskParameters) -> Seq<char> {
    "\nParameters: last="@ + bool_str(p.last) + ", all="@ + bool_str(p.all) + ", period="@
        + period_str(p.period) + ", amount="@ + amount_str(p.amount)
}

/// Appends the parameter clause.
#[verifier::rlimit(50)]
fn push_params_str(out: &mut String, p: &TaskParameters)
    ensures
        final(out)@ == old(out)@ + params_str(*p),
{
    out.append("\nParameters: last=");
    out.append(if p.last { "true" } else { "false" });
    out.append(", all=");
    out.append(if p.all { "true" } else { "false" });
    out.append(", period=");
    match p.period {
        None => out.append("None"),
        Some(Period::Day) => out.append("Some(Day)"),
        Some(Period::Week) => out.append("Some(Week)"),
        Some(Period::Month) => out.append("Some(Month)"),
        Some(Period::Year) => out.append("Some(Year)"),
    }
    out.append(", amount=");
    match p.amount {
        None => out.append("None"),
        Some(v) => {
            out.append("Some(");
            let digits = u64_to_dec(v as u64);
            out.append(digits.as_str());
            out.append(")");
        },
    }
    proof {
        assert(out@ =~= old(out)@ + params_str(*p));
    }
}

/// The non-chat handler families.
#[derive(Clone, Copy, Debug, PartialEq, Eq, Structural)]
pub enum HandlerKind {
    Object,
    Document,
    Description,
    Comparison,
}

/// The leading text chunk each non-chat handler announces itself with.
pub open spec fn announce_object() -> Seq<char> {
    "Processing object request...\n"@
}

pub open spec fn announce_document() -> Seq<char> {
    "Retrieving documents...\n"@
}

pub open spec fn announce_description() -> Seq<char> {
    "Generating description...\n"@
}

pub open spec fn announce_comparison() -> Seq<char> {
    "Performing comparison analysis...\n"@
}

pub open spec fn announce_of(kind: HandlerKind) -> Seq<char> {
    match kind {
        HandlerKind::Object => announce_object(),
        HandlerKind::Document => announce_document(),
        HandlerKind::Description => announce_description(),
        HandlerKind::Comparison => announce_comparison(),
    }
}

/// The instruction each non-chat handler hands the backend.
pub open spec fn instruction_object(prompt: Seq<char>, p: TaskParameters) -> Seq<char> {
    "You are an object retrieval assistant. User request: "@ + prompt + params_str(p)
}

pub open spec fn instruction_document(prompt: Seq<char>, p: TaskParameters) -> Seq<char> {
    "You are a document retrieval assistant. User request: "@ + prompt + params_str(p)
}

pub open spec fn instruction_description(prompt: Seq<char>, p: TaskParameters) -> Seq<char> {
    "You are a description generator. Provide detailed description for: "@ + prompt + params_str(p)
}

pub open spec fn instruction_comparison(prompt: Seq<char>, p: TaskParameters) -> Seq<char> {
    "You are a comparison analyst. Compare items based on: "@ + prompt + params_str(p)
}

pub open spec fn instruction_of(kind: HandlerKind, prompt: Seq<char>, p: TaskParameters) -> Seq<char> {
    match kind {
        HandlerKind::Object => instruction_object(prompt, p),
        HandlerKind::Document => instruction_document(prompt, p),
        HandlerKind::Description => instruction_description(prompt, p),
        HandlerKind::Comparison => instruction_comparison(prompt, p),
    }
}

/// The text chunk each non-chat handler wraps the completion in.
pub open spec fn wrap_object(text: Seq<char>) -> Seq<char> {
    "Found objects:\n"@ + text + "\n"@
}

pub open spec fn wrap_document(text: Seq<char>) -> Seq<char> {
    "Document results:\n"@ + text + "\n"@
}

pub open spec fn wrap_description(text: Seq<char>) -> Seq<char> {
    "Description:\n"@ + text + "\n"@
}

pub open spec fn wrap_comparison(text: Seq<char>) -> Seq<char> {
    "Comparison results:\n"@ + text + "\n"@
}

pub open spec fn wrap_of(kind: HandlerKind, text: Seq<char>) -> Seq<char> {
    match kind {
        HandlerKind::Object => wrap_object(text),
        HandlerKind::Document => wrap_document(text),
        HandlerKind::Description => wrap_description(text),
        HandlerKind::Comparison => wrap_comparison(text),
    }
}

/// The structured-payload event each non-chat handler emits.
pub open spec fn payload_event_of(kind: HandlerKind, rid: Seq<char>, data: PayloadView) -> EventView {
    match kind {
        HandlerKind::Object => EventView::ObjectChunk { request_id: rid, data },
        HandlerKind::Document => EventView::DocumentChunk { request_id: rid, data },
        HandlerKind::Description => EventView::DescriptionChunk { request_id: rid, data },
        HandlerKind::Comparison => EventView::ComparisonChunk { request_id: rid, data },
    }
}

/// The events a non-chat handler of the given kind emits for a completion:
/// the announcement, then — on success — the wrapped text and the payload.
pub open spec fn handler_events_object(
    rid: Seq<char>,
    p: TaskParameters,
    completion: Result<Seq<char>, Seq<char>>,
) -> Seq<EventView> {
    kind_events(HandlerKind::Object, rid, p, completion)
}

pub open spec fn handler_events_document(
    rid: Seq<char>,
    p: TaskParameters,
    completion: Result<Seq<char>, Seq<char>>,
) -> Seq<EventView> {
    kind_events(HandlerKind::Document, rid, p, completion)
}

pub open spec fn handler_events_description(
    rid: Seq<char>,
    p: TaskParameters,
    completion: Result<Seq<char>, Seq<char>>,
) -> Seq<EventView> {
    kind_events(HandlerKind::Description, rid, p, completion)
}

pub open spec fn handler_events_comparison(
    rid: Seq<char>,
    p: TaskParameters,
    completion: Result<Seq<char>, Seq<char>>,
) -> Seq<EventView> {
    kind_events(HandlerKind::Comparison, rid, p, completion)
}

pub open spec fn kind_events(
    kind: HandlerKind,
    rid: Seq<char>,
    p: TaskParameters,
    completion: Result<Seq<char>, Seq<char>>,
) -> Seq<EventView> {
    match completion {
        Ok(text) => seq![
            EventView::TextChunk { request_id: rid, chunk: announce_of(kind) },
            EventView::TextChunk { request_id: rid, chunk: wrap_of(kind, text) },
            payload_event_of(kind, rid, PayloadView { parameters: p, detail: text }),
        ],
        Err(_) => seq![EventView::TextChunk { request_id: rid, chunk: announce_of(kind) }],
    }
}

/// The completion views of an executable completion.
pub open spec fn completion_view(c: Result<String, String>) -> Result<Seq<char>, Seq<char>> {
    match c {
        Ok(t) => Ok(t@),
        Err(e) => Err(e@),
    }
}

/// The shared execution shape of the four non-chat handlers.
fn kind_execute(
    kind: HandlerKind,
    request_id: &String,
    prompt: &str,
    parameters: &TaskParameters,
    sink: &mut EventSink,
    completion: Result<String, String>,
) -> (r: Result<String, String>)
    ensures
        event_views(final(sink).events@) == event_views(old(sink).events@) + kind_events(
            kind,
            request_id@,
            *parameters,
            completion_view(completion),
        ),
        match completion_view(completion) {
            Ok(text) => r is Ok && r->Ok_0@ == text,
            Err(e) => r is Err && r->Err_0@ == e,
        },
{
    let ghost evs0 = sink.events@;
    let announce: &str = match kind {
        HandlerKind::Object => "Processing object request...\n",
        HandlerKind::Document => "Retrieving documents...\n",
        HandlerKind::Description => "Generating description...\n",
        HandlerKind::Comparison => "Performing comparison analysis...\n",
    };
    sink.send(
        StreamEvent::TextChunk {
            request_id: request_id.clone(),
            chunk: String::from_str(announce),
        },
    );
    match completion {
        Err(e) => {
            proof {
                assert(event_views(sink.events@) =~= event_views(evs0) + kind_events(
                    kind,
                    request_id@,
                    *parameters,
                    Err(e@),
                ));
            }
            Err(e)
        },
        Ok(text) => {
            let mut wrapped: String = match kind {
                HandlerKind::Object => String::from_str("Found objects:\n"),
                HandlerKind::Document => String::from_str("Document results:\n"),
                HandlerKind::Description => String::from_str("Description:\n"),
                HandlerKind::Comparison => String::from_str("Comparison results:\n"),
            };
            wrapped.append(text.as_str());
            wrapped.append("\n");
            proof {
                assert(wrapped@ =~= wrap_of(kind, text@));
            }
            sink.send(
                StreamEvent::TextChunk { request_id: request_id.clone(), chunk: wrapped },
            );
            let data = StructuredPayload { parameters: *parameters, detail: text.clone() };
            proof {
                assert(data@ == PayloadView { parameters: *parameters, detail: text@ });
            }
            let payload_event: StreamEvent = match kind {
                HandlerKind::Object => StreamEvent::ObjectChunk {
                    request_id: request_id.clone(),
                    data,
                },
                HandlerKind::Document => StreamEvent::DocumentChunk {
                    request_id: request_id.clone(),
                    data,
                },
                HandlerKind::Description => StreamEvent::DescriptionChunk {
                    request_id: request_id.clone(),
                    data,
                },
                HandlerKind::Comparison => StreamEvent::ComparisonChunk {
                    request_id: request_id.clone(),
                    data,
                },
            };
            sink.send(payload_event);
            proof {
                assert(event_views(sink.events@) =~= event_views(evs0) + kind_events(
                    kind,
                    request_id@,
                    *parameters,
                    Ok(text@),
                ));
            }
            Ok(text)
        },
    }
}

/// The shared instruction builder of the four non-chat handlers.
fn kind_instruction(kind: HandlerKind, prompt: &str, parameters: &TaskParameters) -> (r: String)
    ensures
        r@ == instruction_of(kind, prompt@, *parameters),
{
    let mut out: String = match kind {
        HandlerKind::Object => String::from_str(
            "You are an object retrieval assistant. User request: ",
        ),
        HandlerKind::Document => String::from_str(
            "You are a document retrieval assistant. User request: ",
        ),
        HandlerKind::Description => String::from_str(
            "You are a description generator. Provide detailed description for: ",
        ),
        HandlerKind::Comparison => String::from_str(
            "You are a comparison analyst. Compare items based on: ",
        ),
    };
    out.append(prompt);
    push_params_str(&mut out, parameters);
    proof {
        assert(out@ =~= instruction_of(kind, prompt@, *parameters));
    }
    out
}

/// The object-retrieval handler.
pub struct ObjectAgent {
    /// The request this handler serves.
    pub request_id: String,
}

impl ObjectAgent {
    /// A handler bound to one request.
    pub fn new(request_id: String) -> (r: Self)
        ensures
            r.request_id@ == request_id@,
    {
        ObjectAgent { request_id }
    }

    /// The instruction this handler gives the backend.
    pub fn build_instruction(&self, prompt: &str, parameters: &TaskParameters) -> (r: String)
        ensures
            r@ == instruction_object(prompt@, *parameters),
    {
        kind_instruction(HandlerKind::Object, prompt, parameters)
    }

    /// The fixed system preamble for the backend call.
    pub fn preamble(&self) -> (r: &'static str)
        ensures
            r@ == "You are an object management system. Return structured object data in JSON format."@,
    {
        "You are an object management system. Return structured object data in JSON format."
    }

    /// Emits this handler's events for the given backend completion and
    /// returns the completion text as the handler result.
    pub fn execute(
        &self,
        prompt: &str,
        parameters: &TaskParameters,
        sink: &mut EventSink,
        completion: Result<String, String>,
    ) -> (r: Result<String, String>)
        ensures
            event_views(final(sink).events@) == event_views(old(sink).events@)
                + handler_events_object(
                self.request_id@,
                *parameters,
                completion_view(completion),
            ),
            match completion_view(completion) {
                Ok(text) => r is Ok && r->Ok_0@ == text,
                Err(e) => r is Err && r->Err_0@ == e,
            },
    {
        kind_execute(HandlerKind::Object, &self.request_id, prompt, parameters, sink, completion)
    }
}

/// The document-retrieval handler.
pub struct DocumentAgent {
    /// The request this handler serves.
    pub request_id: String,
}

impl DocumentAgent {
    /// A handler bound to one request.
    pub fn new(request_id: String) -> (r: Self)
        ensures
            r.request_id@ == request_id@,
    {
        DocumentAgent { request_id }
    }

    /// The instruction this handler gives the backend.
    pub fn build_instruction(&self, prompt: &str, parameters: &TaskParameters) -> (r: String)
        ensures
            r@ == instruction_document(prompt@, *parameters),
    {
        kind_instruction(HandlerKind::Document, prompt, parameters)
    }

    /// The fixed system preamble for the backend call.
    pub fn preamble(&self) -> (r: &'static str)
        ensures
            r@ == "You are a document management system. Return structured document data in JSON format."@,
    {
        "You are a document management system. Return structured document data in JSON format."
    }

    /// Emits this handler's events for the given backend completion and
    /// returns the completion text as the handler result.
    pub fn execute(
        &self,
        prompt: &str,
        parameters: &TaskParameters,
        sink: &mut EventSink,
        completion: Result<String, String>,
    ) -> (r: Result<String, String>)
        ensures
            event_views(final(sink).events@) == event_views(old(sink).events@)
                + handler_events_document(
                self.request_id@,
                *parameters,
                completion_view(completion),
            ),
            match completion_view(completion) {
                Ok(text) => r is Ok && r->Ok_0@ == text,
                Err(e) => r is Err && r->Err_0@ == e,
            },
    {
        kind_execute(HandlerKind::Document, &self.request_id, prompt, parameters, sink, completion)
    }
}

/// The description handler.
pub struct DescriptionAgent {
    /// The request this handler serves.
    pub request_id: String,
}

impl DescriptionAgent {
    /// A handler bound to one request.
    pub fn new(request_id: String) -> (r: Self)
        ensures
            r.request_id@ == request_id@,
    {
        DescriptionAgent { request_id }
    }

    /// The instruction this handler gives the backend.
    pub fn build_instruction(&self, prompt: &str, parameters: &TaskParameters) -> (r: String)
        ensures
            r@ == instruction_description(prompt@, *parameters),
    {
        kind_instruction(HandlerKind::Description, prompt, parameters)
    }

    /// The fixed system preamble for the backend call.
    pub fn preamble(&self) -> (r: &'static str)
        ensures
            r@ == "You are a detailed description assistant. Provide comprehensive explanations in a structured format."@,
    {
        "You are a detailed description assistant. Provide comprehensive explanations in a structured format."
    }

    /// Emits this handler's events for the given backend completion and
    /// returns the completion text as the handler result.
    pub fn execute(
        &self,
        prompt: &str,
        parameters: &TaskParameters,
        sink: &mut EventSink,
        completion: Result<String, String>,
    ) -> (r: Result<String, String>)
        ensures
            event_views(final(sink).events@) == event_views(old(sink).events@)
                + handler_events_description(
                self.request_id@,
                *parameters,
                completion_view(completion),
            ),
            match completion_view(completion) {
                Ok(text) => r is Ok && r->Ok_0@ == text,
                Err(e) => r is Err && r->Err_0@ == e,
            },
    {
        kind_execute(
            HandlerKind::Description,
            &self.request_id,
            prompt,
            parameters,
            sink,
            completion,
        )
    }
}

/// The comparison handler.
pub struct ComparisonAgent {
    /// The request this handler serves.
    pub request_id: String,
}

impl ComparisonAgent {
    /// A handler bound to one request.
    pub fn new(request_id: String) -> (r: Self)
        ensures
            r.request_id@ == request_id@,
    {
        ComparisonAgent { request_id }
    }

    /// The instruction this handler gives the backend.
    pub fn build_instruction(&self, prompt: &str, parameters: &TaskParameters) -> (r: String)
        ensures
            r@ == instruction_comparison(prompt@, *parameters),
    {
        kind_instruction(HandlerKind::Comparison, prompt, parameters)
    }

    /// The fixed system preamble for the backend call.
    pub fn preamble(&self) -> (r: &'static str)
        ensures
            r@ == "You are a comparison specialist. Provide detailed comparative analysis with pros, cons, and recommendations."@,
    {
        "You are a comparison specialist. Provide detailed comparative analysis with pros, cons, and recommendations."
    }

    /// Emits this handler's events for the given backend completion and
    /// returns the completion text as the handler result.
    pub fn execute(
        &self,
        prompt: &str,
        parameters: &TaskParameters,
        sink: &mut EventSink,
        completion: Result<String, String>,
    ) -> (r: Result<String, String>)
        ensures
            event_views(final(sink).events@) == event_views(old(sink).events@)
                + handler_events_comparison(
                self.request_id@,
                *parameters,
                completion_view(completion),
            ),
            match completion_view(completion) {
                Ok(text) => r is Ok && r->Ok_0@ == text,
                Err(e) => r is Err && r->Err_0@ == e,
            },
    {
        kind_execute(
            HandlerKind::Comparison,
            &self.request_id,
            prompt,
            parameters,
            sink,
            completion,
        )
    }
}

/// The chunk size the chat handler streams its reply in.
pub open spec fn chat_chunk_len() -> int {
    20
}

/// The completion split into chunks of at most twenty characters.
pub open spec fn chunk_texts(text: Seq<char>) -> Seq<Seq<char>>
    decreases text.len(),
{
    if text.len() == 0 {
        Seq::empty()
    } else if text.len() <= chat_chunk_len() {
        seq![text]
    } else {
        seq![text.take(chat_chunk_len())] + chunk_texts(text.skip(chat_chunk_len()))
    }
}

/// The events the chat handler emits: one text chunk per piece, no
/// announcement and no structured payload.
pub open spec fn handler_events_chat(
    rid: Seq<char>,
    completion: Result<Seq<char>, Seq<char>>,
) -> Seq<EventView> {
    match completion {
        Ok(text) => chunk_texts(text).map_values(
            |c: Seq<char>| EventView::TextChunk { request_id: rid, chunk: c },
        ),
        Err(_) => Seq::empty(),
    }
}

/// The conversational handler.
pub struct ChatAgent {
    /// The request this handler serves.
    pub request_id: String,
}

impl ChatAgent {
    /// A handler bound to one request.
    pub fn new(request_id: String) -> (r: Self)
        ensures
            r.request_id@ == request_id@,
    {
        ChatAgent { request_id }
    }

    /// The language-dependent system preamble for the backend call.
    pub fn preamble(&self, language: &str) -> (r: String)
        ensures
            r@ == "You are a friendly chat assistant. Respond naturally in "@ + language@
                + " language."@,
    {
        let mut out = String::from_str("You are a friendly chat assistant. Respond naturally in ");
        out.append(language);
        out.append(" language.");
        proof {
            assert(out@ =~= "You are a friendly chat assistant. Respond naturally in "@
                + language@ + " language."@);
        }
        out
    }

    /// Emits the completion as a run of twenty-character text chunks and
    /// returns the completion text; a failed completion emits nothing.
    pub fn execute(
        &self,
        _prompt: &str,
        _language: &str,
        sink: &mut EventSink,
        completion: Result<String, String>,
    ) -> (r: Result<String, String>)
        ensures
            event_views(final(sink).events@) == event_views(old(sink).events@)
                + handler_events_chat(self.request_id@, completion_view(completion)),
            match completion_view(completion) {
                Ok(text) => r is Ok && r->Ok_0@ == text,
                Err(e) => r is Err && r->Err_0@ == e,
            },
    {
        let ghost evs0 = sink.events@;
        match completion {
            Err(e) => {
                proof {
                    assert(event_views(sink.events@) =~= event_views(evs0) + handler_events_chat(
                        self.request_id@,
                        Err(e@),
                    ));
                }
                Err(e)
            },
            Ok(text) => {
                let ghost full = text@;
                let ghost cts = chunk_texts(full);
                let ghost evs = handler_events_chat(self.request_id@, Ok(full));
                let n = text.as_str().unicode_len();
                let mut i: usize = 0;
                let ghost mut cnt: int = 0;
                proof {
                    assert(full.skip(0) =~= full);
                    assert(cts.skip(0) =~= cts);
                    assert(event_views(sink.events@) =~= event_views(evs0) + evs.take(0));
                }
                while i < n
                    invariant
                        n == text@.len(),
                        full == text@,
                        cts == chunk_texts(full),
                        evs == handler_events_chat(self.request_id@, Ok(full)),
                        i <= n,
                        0 <= cnt <= cts.len(),
                        event_views(sink.events@) == event_views(evs0) + evs.take(cnt),
                        cts.skip(cnt) == chunk_texts(full.skip(i as int)),
                    decreases n - i,
                {
                    let upper = if n - i >= 20 {
                        i + 20
                    } else {
                        n
                    };
                    let piece = text.as_str().substring_char(i, upper);
                    proof {
                        lemma_chunk_step(full, cnt, i as int);
                        assert(piece@ == full.subrange(i as int, upper as int));
                        assert(cts[cnt] == piece@);
                        assert(evs[cnt] == EventView::TextChunk {
                            request_id: self.request_id@,
                            chunk: piece@,
                        });
                        assert(evs.take(cnt + 1) =~= evs.take(cnt).push(evs[cnt]));
                    }
                    let ghost prev = sink.events@;
                    let ev = StreamEvent::TextChunk {
                        request_id: self.request_id.clone(),
                        chunk: String::from_str(piece),
                    };
                    proof {
                        assert(ev@ == evs[cnt]);
                    }
                    sink.send(ev);
                    proof {
                        assert(event_views(prev.push(ev)) =~= event_views(prev).push(ev@));
                        assert(event_views(evs0) + evs.take(cnt + 1) =~= (event_views(evs0)
                            + evs.take(cnt)).push(evs[cnt]));
                        cnt = cnt + 1;
                    }
                    i = upper;
                }
                proof {
                    assert(full.skip(n as int) =~= Seq::<char>::empty());
                    assert(chunk_texts(full.skip(n as int)).len() == 0);
                    assert(cts.skip(cnt).len() == cts.len() - cnt);
                    assert(cnt == cts.len());
                    assert(evs.take(cnt) =~= evs);
                }
                Ok(text)
            },
        }
    }
}

/// One chunking step: at position `i` with `cnt` chunks already taken, the
/// next chunk of the text is its next (at most) twenty characters.
proof fn lemma_chunk_step(full: Seq<char>, cnt: int, i: int)
    requires
        0 <= i < full.len(),
        0 <= cnt <= chunk_texts(full).len(),
        chunk_texts(full).skip(cnt) == chunk_texts(full.skip(i)),
    ensures
        ({
            let n = full.len() as int;
            let upper = if i + 20 <= n {
                i + 20
            } else {
                n
            };
            let piece = full.subrange(i, upper);
            &&& cnt < chunk_texts(full).len()
            &&& chunk_texts(full)[cnt] == piece
            &&& chunk_texts(full).skip(cnt + 1) == chunk_texts(full.skip(upper))
        }),
{
    let n = full.len() as int;
    let rest = full.skip(i);
    let cts = chunk_texts(full);
    let upper = if i + 20 <= n {
        i + 20
    } else {
        n
    };
    let piece = full.subrange(i, upper);
    assert(rest.len() == n - i);
    assert(cts.skip(cnt).len() == cts.len() - cnt);
    assert(chunk_texts(rest).len() > 0);
    assert(cnt < cts.len());
    assert(cts[cnt] == cts.skip(cnt)[0]);
    assert(cts.skip(cnt + 1) =~= cts.skip(cnt).skip(1));
    if rest.len() > 20 {
        assert(chunk_texts(rest) == seq![rest.take(20)] + chunk_texts(rest.skip(20)));
        assert(chunk_texts(rest)[0] == rest.take(20));
        assert(rest.take(20) =~= piece);
        assert(chunk_texts(rest).skip(1) =~= chunk_texts(rest.skip(20)));
        assert(rest.skip(20) =~= full.skip(upper));
    } else {
        assert(chunk_texts(rest) == seq![rest]);
        assert(rest =~= piece);
        assert(chunk_texts(rest).skip(1) =~= Seq::<Seq<char>>::empty());
        assert(full.skip(upper) =~= Seq::<char>::empty());
    }
}

} // verus!
