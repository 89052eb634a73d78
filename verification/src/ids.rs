//! Random identifier generation for errors, events and monitors.

use vstd::prelude::*;

verus! {

/// Relies on `uuid::Uuid::new_v4` and its hyphenated `Display` form: a
/// freshly generated random UUID rendered as 36 ASCII characters. The value
/// is random, so nothing more is promised of it.
#[verifier::external_body]
pub(crate) fn fresh_id() -> (r: String)
    ensures
        r@.len() == 36,
{
    uuid::Uuid::new_v4().to_string()
}

} // verus!
