//! The event protocol: the closed set of events a request's stream carries,
//! their mathematical views, and the in-memory FIFO sink the orchestrator
//! and handlers write to. A transport adapter drains the sink and forwards
//! each event; within one request, order is exactly emission order.

use vstd::prelude::*;

use crate::task::TaskParameters;

verus! {

/// The structured result value the four non-chat handlers emit once. Its
/// shape is handler-defined, but it always echoes the resolved parameters.
#[derive(Clone, Debug, PartialEq)]
pub struct StructuredPayload {
    /// The parameter bundle the handler resolved for this request.
    pub parameters: TaskParameters,
    /// The handler's result text.
    pub detail: String,
}

/// The view of a structured payload.
pub struct PayloadView {
    pub parameters: TaskParameters,
    pub detail: Seq<char>,
}

impl View for StructuredPayload {
    type V = PayloadView;

    open spec fn view(&self) -> PayloadView {
        PayloadView { parameters: self.parameters, detail: self.detail@ }
    }
}

/// One event of a request's stream. Every variant names its request; the
/// stream for a request ends with exactly one terminal event — `Completed`,
/// `Error` or `Cancelled`.
#[derive(Clone, Debug, PartialEq)]
pub enum StreamEvent {
    /// The request was accepted and the stream opened.
    Started { request_id: String, timestamp: i64 },
    /// The orchestrator reports progress; purely observational.
    CoordinatorThinking { request_id: String, message: String },
    /// A piece of generated text.
    TextChunk { request_id: String, chunk: String },
    /// The object handler's structured result.
    ObjectChunk { request_id: String, data: StructuredPayload },
    /// The document handler's structured result.
    DocumentChunk { request_id: String, data: StructuredPayload },
    /// The description handler's structured result.
    DescriptionChunk { request_id: String, data: StructuredPayload },
    /// The comparison handler's structured result.
    ComparisonChunk { request_id: String, data: StructuredPayload },
    /// Terminal: the request succeeded with this final text.
    Completed { request_id: String, final_result: String, timestamp: i64 },
    /// Terminal: the request failed.
    Error { request_id: String, error: String, recoverable: bool },
    /// Terminal: the request was cancelled at a checkpoint.
    Cancelled { request_id: String, reason: String },
}

/// The view of an event, with every string read as its character sequence.
pub enum EventView {
    Started { request_id: Seq<char>, timestamp: i64 },
    CoordinatorThinking { request_id: Seq<char>, message: Seq<char> },
    TextChunk { request_id: Seq<char>, chunk: Seq<char> },
    ObjectChunk { request_id: Seq<char>, data: PayloadView },
    DocumentChunk { request_id: Seq<char>, data: PayloadView },
    DescriptionChunk { request_id: Seq<char>, data: PayloadView },
    ComparisonChunk { request_id: Seq<char>, data: PayloadView },
    Completed { request_id: Seq<char>, final_result: Seq<char>, timestamp: i64 },
    Error { request_id: Seq<char>, error: Seq<char>, recoverable: bool },
    Cancelled { request_id: Seq<char>, reason: Seq<char> },
}

impl View for StreamEvent {
    type V = EventView;

    open spec fn view(&self) -> EventView {
        match self {
            StreamEvent::Started { request_id, timestamp } => EventView::Started {
                request_id: request_id@,
                timestamp: *timestamp,
            },
            StreamEvent::CoordinatorThinking { request_id, message } => EventView::CoordinatorThinking {
                request_id: request_id@,
                message: message@,
            },
            StreamEvent::TextChunk { request_id, chunk } => EventView::TextChunk {
                request_id: request_id@,
                chunk: chunk@,
            },
            StreamEvent::ObjectChunk { request_id, data } => EventView::ObjectChunk {
                request_id: request_id@,
                data: data@,
            },
            StreamEvent::DocumentChunk { request_id, data } => EventView::DocumentChunk {
                request_id: request_id@,
                data: data@,
            },
            StreamEvent::DescriptionChunk { request_id, data } => EventView::DescriptionChunk {
                request_id: request_id@,
                data: data@,
            },
            StreamEvent::ComparisonChunk { request_id, data } => EventView::ComparisonChunk {
                request_id: request_id@,
                data: data@,
            },
            StreamEvent::Completed { request_id, final_result, timestamp } => EventView::Completed {
                request_id: request_id@,
                final_result: final_result@,
                timestamp: *timestamp,
            },
            StreamEvent::Error { request_id, error, recoverable } => EventView::Error {
                request_id: request_id@,
                error: error@,
                recoverable: *recoverable,
            },
            StreamEvent::Cancelled { request_id, reason } => EventView::Cancelled {
                request_id: request_id@,
                reason: reason@,
            },
        }
    }
}

/// A terminal event marks end-of-stream for its request.
pub open spec fn is_terminal(e: EventView) -> bool {
    e is Completed || e is Error || e is Cancelled
}

/// The request a viewed event belongs to.
pub open spec fn event_request_id(e: EventView) -> Seq<char> {
    match e {
        EventView::Started { request_id, .. } => request_id,
        EventView::CoordinatorThinking { request_id, .. } => request_id,
        EventView::TextChunk { request_id, .. } => request_id,
        EventView::ObjectChunk { request_id, .. } => request_id,
        EventView::DocumentChunk { request_id, .. } => request_id,
        EventView::DescriptionChunk { request_id, .. } => request_id,
        EventView::ComparisonChunk { request_id, .. } => request_id,
        EventView::Completed { request_id, .. } => request_id,
        EventView::Error { request_id, .. } => request_id,
        EventView::Cancelled { request_id, .. } => request_id,
    }
}

/// The views of a sequence of events.
pub open spec fn event_views(es: Seq<StreamEvent>) -> Seq<EventView> {
    es.map_values(|e: StreamEvent| e@)
}

/// The in-memory FIFO buffer events are emitted into. A transport adapter
/// drains it in order and forwards each event best-effort: when the
/// adapter's channel is full or closed the event is dropped there, never
/// blocking the producer.
#[derive(Debug)]
pub struct EventSink {
    /// The buffered events, oldest first.
    pub events: Vec<StreamEvent>,
}

impl EventSink {
    /// An empty sink.
    pub fn new() -> (r: Self)
        ensures
            r.events@.len() == 0,
    {
        EventSink { events: Vec::new() }
    }

    /// Appends one event; emission order is preserved.
    pub fn send(&mut self, e: StreamEvent)
        ensures
            final(self).events@ == old(self).events@.push(e),
    {
        self.events.push(e);
    }

    /// Hands the buffered events over, leaving the sink empty.
    pub fn drain(&mut self) -> (r: Vec<StreamEvent>)
        ensures
            r@ == old(self).events@,
            final(self).events@.len() == 0,
    {
        let mut out: Vec<StreamEvent> = Vec::new();
        core::mem::swap(&mut out, &mut self.events);
        out
    }
}

} // verus!
