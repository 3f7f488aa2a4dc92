//! Round-trip tests for the event wire codec: every variant decodes back to
//! an equal value, and malformed messages are rejected.

use agent_core::codec::{decode_event, encode_event};
use agent_core::context::Period;
use agent_core::events::{StreamEvent, StructuredPayload};
use agent_core::task::TaskParameters;

fn roundtrip(e: StreamEvent) {
    let wire = encode_event(&e);
    let back = decode_event(wire.as_str());
    assert_eq!(back, Some(e));
}

fn sample_payload() -> StructuredPayload {
    StructuredPayload {
        parameters: TaskParameters {
            last: true,
            all: false,
            period: Some(Period::Month),
            amount: Some(5),
        },
        detail: "two objects".to_string(),
    }
}

#[test]
fn test_roundtrip_started() {
    roundtrip(StreamEvent::Started { request_id: "req-1".to_string(), timestamp: 1700000000 });
    roundtrip(StreamEvent::Started { request_id: "".to_string(), timestamp: -1 });
    roundtrip(StreamEvent::Started { request_id: "r".to_string(), timestamp: i64::MIN });
    roundtrip(StreamEvent::Started { request_id: "r".to_string(), timestamp: i64::MAX });
}

#[test]
fn test_roundtrip_coordinator_thinking() {
    roundtrip(StreamEvent::CoordinatorThinking {
        request_id: "req-2".to_string(),
        message: "Analyzing request and determining task type...".to_string(),
    });
}

#[test]
fn test_roundtrip_text_chunk() {
    roundtrip(StreamEvent::TextChunk {
        request_id: "req-3".to_string(),
        chunk: "hello\nworld, with ünïcödé and 数字".to_string(),
    });
}

#[test]
fn test_roundtrip_payload_chunks() {
    roundtrip(StreamEvent::ObjectChunk { request_id: "a".to_string(), data: sample_payload() });
    roundtrip(StreamEvent::DocumentChunk { request_id: "b".to_string(), data: sample_payload() });
    roundtrip(StreamEvent::DescriptionChunk {
        request_id: "c".to_string(),
        data: StructuredPayload {
            parameters: TaskParameters { last: false, all: true, period: None, amount: None },
            detail: "".to_string(),
        },
    });
    roundtrip(StreamEvent::ComparisonChunk {
        request_id: "d".to_string(),
        data: StructuredPayload {
            parameters: TaskParameters {
                last: false,
                all: false,
                period: Some(Period::Day),
                amount: Some(usize::MAX),
            },
            detail: "A beats B".to_string(),
        },
    });
}

#[test]
fn test_roundtrip_terminals() {
    roundtrip(StreamEvent::Completed {
        request_id: "req-4".to_string(),
        final_result: "done".to_string(),
        timestamp: 42,
    });
    roundtrip(StreamEvent::Error {
        request_id: "req-5".to_string(),
        error: "backend unreachable".to_string(),
        recoverable: true,
    });
    roundtrip(StreamEvent::Error {
        request_id: "req-5".to_string(),
        error: "Empty input".to_string(),
        recoverable: false,
    });
    roundtrip(StreamEvent::Cancelled {
        request_id: "req-6".to_string(),
        reason: "User cancelled".to_string(),
    });
}

#[test]
fn test_decode_rejects_malformed() {
    assert_eq!(decode_event(""), None);
    assert_eq!(decode_event("Z"), None);
    assert_eq!(decode_event("S0000000000000000001"), None);
    assert_eq!(decode_event("Sxxxxxxxxxxxxxxxxxxxxr+00000000000000000042"), None);

    let good = encode_event(&StreamEvent::Started {
        request_id: "r".to_string(),
        timestamp: 7,
    });
    let mut trailing = good.clone();
    trailing.push('x');
    assert_eq!(decode_event(trailing.as_str()), None);

    let truncated = &good[..good.len() - 1];
    assert_eq!(decode_event(truncated), None);
}

#[test]
fn test_encoding_is_deterministic() {
    let e = StreamEvent::Completed {
        request_id: "req".to_string(),
        final_result: "same".to_string(),
        timestamp: 9,
    };
    assert_eq!(encode_event(&e), encode_event(&e));
    assert_ne!(
        encode_event(&e),
        encode_event(&StreamEvent::Completed {
            request_id: "req".to_string(),
            final_result: "same".to_string(),
            timestamp: 10,
        })
    );
}
