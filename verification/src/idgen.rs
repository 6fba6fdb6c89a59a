//! Fresh entity identifiers and timestamps, drawn from the uuid and chrono
//! crates.

use vstd::prelude::*;

verus! {

/// Relies on `uuid::Uuid::new_v4` and its `Display` impl: a random version 4
/// UUID rendered in the hyphenated form, which is always 36 characters long.
/// The value itself is random, so nothing more is promised.
#[verifier::external_body]
pub fn new_entity_id() -> (r: String)
    ensures
        r@.len() == 36,
{
    uuid::Uuid::new_v4().to_string()
}

/// Relies on `chrono::Utc::now` and `DateTime::to_rfc3339`: the current UTC
/// time as an RFC 3339 string. The result depends on the clock, so nothing is
/// promised of it.
#[verifier::external_body]
pub fn now_iso() -> String {
    chrono::Utc::now().to_rfc3339()
}

} // verus!
