//! End-to-end runs of the orchestrator over an in-memory sink, with the
//! backend completion supplied directly.

use agent_core::error::ErrorCode;
use agent_core::events::{EventSink, StreamEvent};
use agent_core::orchestrator::{validate_agent_request, AgentRequest, MasterAgent};

fn request(message: &str, user: Option<&str>, chat: Option<&str>) -> AgentRequest {
    let mut r = AgentRequest::new(message.to_string());
    r.user_id = user.map(|s| s.to_string());
    r.chat_id = chat.map(|s| s.to_string());
    r.language = Some("en".to_string());
    r
}

fn is_terminal(e: &StreamEvent) -> bool {
    matches!(
        e,
        StreamEvent::Completed { .. } | StreamEvent::Error { .. } | StreamEvent::Cancelled { .. }
    )
}

fn assert_single_trailing_terminal(events: &[StreamEvent]) {
    assert!(!events.is_empty());
    assert!(is_terminal(events.last().unwrap()));
    for e in &events[..events.len() - 1] {
        assert!(!is_terminal(e), "terminal event before the end: {:?}", e);
    }
}

#[test]
fn test_object_task() {
    let mut master = MasterAgent::new();
    let req = request("show me the last 5 objects", Some("user_123"), None);
    let ctx = master.begin_request(req);
    let req = request("show me the last 5 objects", Some("user_123"), None);

    let mut sink = EventSink::new();
    MasterAgent::orchestrate(
        &req,
        &ctx,
        false,
        false,
        Ok("two objects".to_string()),
        100,
        200,
        &mut sink,
    );
    master.end_request(&ctx.request_id);

    let events = sink.events;
    assert_single_trailing_terminal(&events);
    assert!(matches!(events[0], StreamEvent::Started { .. }));
    assert!(matches!(events[1], StreamEvent::CoordinatorThinking { .. }));
    let object_chunk = events.iter().find_map(|e| match e {
        StreamEvent::ObjectChunk { data, .. } => Some(data.clone()),
        _ => None,
    });
    let data = object_chunk.expect("an ObjectChunk must be emitted");
    assert!(data.parameters.last);
    assert_eq!(data.parameters.amount, Some(5));
    assert_eq!(data.detail, "two objects");
    match events.last().unwrap() {
        StreamEvent::Completed { final_result, timestamp, .. } => {
            assert_eq!(final_result, "two objects");
            assert_eq!(*timestamp, 200);
        }
        other => panic!("expected Completed, got {:?}", other),
    }
}

#[test]
fn test_chat_task() {
    let mut master = MasterAgent::new();
    let req = request("hello, how are you?", Some("user_456"), Some("chat_789"));
    let ctx = master.begin_request(req);
    let req = request("hello, how are you?", Some("user_456"), Some("chat_789"));

    let reply = "I am fine, thank you very much for asking!";
    let mut sink = EventSink::new();
    MasterAgent::orchestrate(&req, &ctx, false, false, Ok(reply.to_string()), 1, 2, &mut sink);
    master.end_request(&ctx.request_id);

    let events = sink.events;
    assert_single_trailing_terminal(&events);
    let mut collected = String::new();
    for e in &events {
        if let StreamEvent::TextChunk { chunk, .. } = e {
            assert!(chunk.chars().count() <= 20);
            collected.push_str(chunk);
        }
    }
    assert_eq!(collected, reply);
    assert!(matches!(events.last().unwrap(), StreamEvent::Completed { .. }));
}

#[test]
fn test_comparison_task() {
    let mut master = MasterAgent::new();
    let req = request("compare the last 2 documents", Some("user_789"), None);
    let ctx = master.begin_request(req);
    let req = request("compare the last 2 documents", Some("user_789"), None);

    let mut sink = EventSink::new();
    MasterAgent::orchestrate(&req, &ctx, false, false, Ok("A beats B".to_string()), 1, 2, &mut sink);
    master.end_request(&ctx.request_id);

    let events = sink.events;
    assert_single_trailing_terminal(&events);
    assert!(events
        .iter()
        .any(|e| matches!(e, StreamEvent::ComparisonChunk { .. })));
    assert!(matches!(events.last().unwrap(), StreamEvent::Completed { .. }));
}

#[test]
fn test_backend_failure_is_recoverable_error() {
    let mut master = MasterAgent::new();
    let req = request("describe the object", None, None);
    let ctx = master.begin_request(req);
    let req = request("describe the object", None, None);

    let mut sink = EventSink::new();
    MasterAgent::orchestrate(
        &req,
        &ctx,
        false,
        false,
        Err("connection refused".to_string()),
        1,
        2,
        &mut sink,
    );
    master.end_request(&ctx.request_id);

    let events = sink.events;
    assert_single_trailing_terminal(&events);
    match events.last().unwrap() {
        StreamEvent::Error { error, recoverable, .. } => {
            assert_eq!(error, "connection refused");
            assert!(*recoverable);
        }
        other => panic!("expected Error, got {:?}", other),
    }
}

#[test]
fn test_empty_message_is_fatal_error() {
    let mut master = MasterAgent::new();
    let req = request("  ?!  ", None, None);
    let ctx = master.begin_request(req);
    let req = request("  ?!  ", None, None);

    let mut sink = EventSink::new();
    MasterAgent::orchestrate(&req, &ctx, false, false, Ok("unused".to_string()), 1, 2, &mut sink);
    master.end_request(&ctx.request_id);

    let events = sink.events;
    assert_single_trailing_terminal(&events);
    match events.last().unwrap() {
        StreamEvent::Error { recoverable, .. } => assert!(!*recoverable),
        other => panic!("expected Error, got {:?}", other),
    }
}

#[test]
fn test_cancel_before_first_checkpoint_yields_cancelled() {
    let mut master = MasterAgent::new();
    let req = request("show me the last 5 objects", None, None);
    let ctx = master.begin_request(req);
    let req = request("show me the last 5 objects", None, None);

    assert!(master.cancel_request(&ctx.request_id));
    let first_checkpoint = master.is_cancelled(&ctx.request_id);
    assert!(first_checkpoint);

    let mut sink = EventSink::new();
    MasterAgent::orchestrate(
        &req,
        &ctx,
        first_checkpoint,
        false,
        Ok("never used".to_string()),
        1,
        2,
        &mut sink,
    );
    master.end_request(&ctx.request_id);

    let events = sink.events;
    assert_single_trailing_terminal(&events);
    assert!(matches!(events.last().unwrap(), StreamEvent::Cancelled { .. }));
    assert!(!events.iter().any(|e| matches!(e, StreamEvent::Completed { .. })));
}

#[test]
fn test_cancel_at_second_checkpoint_yields_cancelled() {
    let mut master = MasterAgent::new();
    let req = request("compare documents", None, None);
    let ctx = master.begin_request(req);
    let req = request("compare documents", None, None);

    assert!(master.cancel_request(&ctx.request_id));
    let mut sink = EventSink::new();
    MasterAgent::orchestrate(
        &req,
        &ctx,
        false,
        master.is_cancelled(&ctx.request_id),
        Ok("never used".to_string()),
        1,
        2,
        &mut sink,
    );
    master.end_request(&ctx.request_id);

    assert!(matches!(sink.events.last().unwrap(), StreamEvent::Cancelled { .. }));
}

#[test]
fn test_request_validation() {
    let ok = request("show objects", Some("67e55044-10b1-426f-9247-bb680e5fe0c8"), None);
    assert!(validate_agent_request(&ok).is_ok());

    let blank = request("   \t  ", None, None);
    let err = validate_agent_request(&blank).unwrap_err();
    assert_eq!(err.code, ErrorCode::ValidationError);
    assert_eq!(err.message, "Validation failed");

    let bad_user = request("show objects", Some("not-a-uuid"), None);
    assert!(validate_agent_request(&bad_user).is_err());

    let long = request(&"x".repeat(10001), None, None);
    assert!(validate_agent_request(&long).is_err());
    let at_limit = request(&"x".repeat(10000), None, None);
    assert!(validate_agent_request(&at_limit).is_ok());
}

#[test]
fn test_request_id_shape_and_language_default() {
    let mut master = MasterAgent::new();
    let mut req = AgentRequest::new("hello".to_string());
    req.language = None;
    let ctx = master.begin_request(req);
    assert_eq!(ctx.request_id.chars().count(), 36);
    assert_eq!(ctx.language, "en");
    master.end_request(&ctx.request_id);
}
