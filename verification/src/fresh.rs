//! Values that are new with every call: random ids and the time.

use vstd::prelude::*;

verus! {

/// Draws a random id with `uuid::Uuid::new_v4` and hands out its text.
/// Nothing is assumed of it.
#[verifier::external_body]
pub(crate) fn new_id() -> (id: String) {
    uuid::Uuid::new_v4().to_string()
}

/// Reads the clock with `chrono::Utc::now` and hands out the time in the
/// form of RFC 3339. Nothing is assumed of it.
#[verifier::external_body]
pub(crate) fn now_rfc3339() -> (now: String) {
    chrono::Utc::now().to_rfc3339()
}

} // verus!
