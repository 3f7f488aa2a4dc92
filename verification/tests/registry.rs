//! Tests for the cancellation latch and the request registry.

use agent_core::cancel::{CancellationToken, RequestManager};

#[test]
fn test_token_is_a_one_way_latch() {
    let mut token = CancellationToken::new();
    assert!(!token.is_cancelled());
    assert!(token.check().is_ok());

    token.cancel();
    assert!(token.is_cancelled());
    assert!(token.check().is_err());

    token.cancel();
    assert!(token.is_cancelled());
}

#[test]
fn test_register_then_unregister_leaves_no_entry() {
    let mut rm = RequestManager::new();
    rm.register("req-1".to_string());
    assert!(rm.is_registered("req-1"));
    assert!(!rm.is_cancelled("req-1"));

    rm.unregister("req-1");
    assert!(!rm.is_registered("req-1"));
}

#[test]
fn test_cancel_unknown_id_returns_false() {
    let mut rm = RequestManager::new();
    assert!(!rm.cancel("never-registered"));

    rm.register("req-2".to_string());
    rm.unregister("req-2");
    assert!(!rm.cancel("req-2"));
}

#[test]
fn test_cancel_is_idempotent() {
    let mut rm = RequestManager::new();
    rm.register("req-3".to_string());

    assert!(rm.cancel("req-3"));
    assert!(rm.is_cancelled("req-3"));

    assert!(rm.cancel("req-3"));
    assert!(rm.is_cancelled("req-3"));
}

#[test]
fn test_cancel_latches_the_checkpoint() {
    let mut rm = RequestManager::new();
    rm.register("req-4".to_string());
    assert!(rm.check("req-4").is_ok());

    // The cancel endpoint and the checkpoint share one latch, keyed by the
    // request id: cancelling makes every later checkpoint fail.
    assert!(rm.cancel("req-4"));
    assert!(rm.check("req-4").is_err());
    assert!(rm.check("req-4").is_err());
}

#[test]
fn test_independent_requests_do_not_interfere() {
    let mut rm = RequestManager::new();
    rm.register("a".to_string());
    rm.register("b".to_string());

    assert!(rm.cancel("a"));
    assert!(rm.is_cancelled("a"));
    assert!(!rm.is_cancelled("b"));
    assert!(rm.check("b").is_ok());

    rm.unregister("a");
    assert!(rm.is_registered("b"));
    assert!(!rm.is_registered("a"));
}

#[test]
fn test_unregister_is_unconditional() {
    let mut rm = RequestManager::new();
    rm.unregister("ghostly");
    assert!(!rm.is_registered("ghostly"));
}
