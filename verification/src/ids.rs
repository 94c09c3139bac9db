//! Identifier generation, backed by the uuid crate.

use vstd::prelude::*;

verus! {

/// Relies on uuid::Uuid::new_v4, taken as a 128-bit value: the id is
/// random, so nothing is promised of it.
#[verifier::external_body]
pub fn new_session_id() -> (r: u128) {
    uuid::Uuid::new_v4().as_u128()
}

/// Relies on uuid::Uuid::new_v4 and its Display form, which renders the
/// hyphenated representation of exactly 36 ASCII characters; the value
/// itself is random.
#[verifier::external_body]
pub fn new_uuid_string() -> (r: String)
    ensures
        r@.len() == 36,
{
    uuid::Uuid::new_v4().to_string()
}

} // verus!
