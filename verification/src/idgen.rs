//! Sources of fresh identifiers, opaque session tokens and timestamps.

use vstd::prelude::*;

verus! {

/// Relies on uuid::Uuid::new_v4: the hyphenated text of a version-4 UUID is
/// always 36 characters. The value itself is random, so nothing more is
/// promised; callers that need a fresh identifier test for themselves that
/// it is not already in use.
#[verifier::external_body]
pub fn new_id() -> (r: String)
    ensures
        r@.len() == 36,
{
    uuid::Uuid::new_v4().to_string()
}

/// Relies on chrono::Utc::now: the current wall-clock instant as RFC 3339
/// text. The clock decides the value, so nothing is promised of it.
#[verifier::external_body]
pub fn now_rfc3339() -> String {
    chrono::Utc::now().to_rfc3339()
}

} // verus!
