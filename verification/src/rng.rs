//! The library's one source of randomness.
//!
//! Each thread draws from its own generator, so parallel callers never share
//! mutable state and their sample streams stay independent.

use vstd::prelude::*;
use rand::Rng;

verus! {

/// Relies on `rand::thread_rng` and `rand::Rng::gen_range`: a draw from the
/// thread-local generator, uniform over the inclusive range, which always lies
/// in that range. Nothing more is assumed of the value.
#[verifier::external_body]
pub fn random_in_range(lo: i64, hi: i64) -> (r: i64)
    requires
        lo <= hi,
    ensures
        lo <= r <= hi,
{
    rand::thread_rng().gen_range(lo..=hi)
}

} // verus!
