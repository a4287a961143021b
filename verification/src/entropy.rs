//! The process's sources of fresh identifiers and random draws.

use vstd::prelude::*;

verus! {

/// Relies on uuid's `Uuid::new_v4` with the simple (unhyphenated) format,
/// which its documentation fixes at 32 characters. Nothing else is assumed
/// of the fresh identifier.
#[verifier::external_body]
pub(crate) fn new_game_id() -> (id: String)
    ensures
        id@.len() == 32,
{
    uuid::Uuid::new_v4().as_simple().to_string()
}

/// Relies on rand's `Rng::gen_ratio`, a draw that is true with probability
/// one in four; it panics only for a zero denominator or a numerator above
/// the denominator. Nothing is assumed of the outcome.
#[verifier::external_body]
pub(crate) fn draw_one_in_four() -> bool {
    rand::Rng::gen_ratio(&mut rand::thread_rng(), 1, 4)
}

/// Relies on rand's `Rng::gen_range` on `0..len`: a uniformly drawn index
/// below `len`. The call panics on an empty range, so `len` must be positive.
#[verifier::external_body]
pub(crate) fn draw_index(len: usize) -> (i: usize)
    requires
        len > 0,
    ensures
        i < len,
{
    rand::Rng::gen_range(&mut rand::thread_rng(), 0..len)
}

} // verus!
