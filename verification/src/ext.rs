//! The narrow interfaces to outside services the library leans on: fresh
//! request identifiers, the clock, and the opaque structured value carried
//! in request metadata and error details.

use vstd::prelude::*;

verus! {

// An opaque structured value (serde_json's value type). The library carries
// such values through without reading them.
#[verifier::external_type_specification]
#[verifier::external_body]
pub struct ExValue(serde_json::Value);

/// Relies on serde_json::Map::new / Value::Object: builds the empty
/// structured value used as the default metadata.
#[verifier::external_body]
pub fn empty_json_object() -> serde_json::Value {
    serde_json::Value::Object(serde_json::Map::new())
}

/// Relies on uuid::Uuid::now_v7 and its Display form: a fresh time-ordered
/// identifier, rendered in the 36-character hyphenated form. The value itself
/// is unpredictable; only its length is assumed. The call aborts only when
/// the operating system's entropy source fails — an environmental abort of
/// the same class as allocation failure.
#[verifier::external_body]
pub fn fresh_request_id() -> (r: String)
    ensures
        r@.len() == 36,
{
    uuid::Uuid::now_v7().to_string()
}

/// Relies on chrono::Utc::now: seconds since the Unix epoch, as the clock
/// reports them. Nothing is assumed of the value; the call aborts only when
/// the system clock is set before the Unix epoch — an environmental abort,
/// not a reachable state on a sane host.
#[verifier::external_body]
pub fn now_unix_timestamp() -> i64 {
    chrono::Utc::now().timestamp()
}

/// Relies on chrono::Utc::now / to_rfc3339: the current wall-clock time as an
/// RFC 3339 string. Nothing is assumed of the value; the same environmental
/// clock caveat as `now_unix_timestamp` applies.
#[verifier::external_body]
pub fn now_rfc3339() -> String {
    chrono::Utc::now().to_rfc3339()
}

} // verus!
