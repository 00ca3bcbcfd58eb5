//! Randomness, drawn from rand's `StdRng` behind trusted wrappers.
//!
//! Nothing is assumed about which value a draw produces beyond its range, so
//! every caller is verified for every possible outcome.

use vstd::prelude::*;
use rand::Rng;

verus! {

#[verifier::external_type_specification]
#[verifier::external_body]
pub struct ExStdRng(rand::rngs::StdRng);

/// Relies on rand's `Rng::gen_range` over the half-open integer range
/// `lo..hi`: for a non-empty range it returns a value inside it.
#[verifier::external_body]
pub(crate) fn draw_in(rng: &mut rand::rngs::StdRng, lo: i64, hi: i64) -> (r: i64)
    requires
        lo < hi,
    ensures
        lo <= r < hi,
{
    rng.gen_range(lo..hi)
}

/// Relies on rand's `Rng::gen` with the `Standard` distribution on a tuple of
/// four bytes; nothing is assumed about the drawn value.
#[verifier::external_body]
pub(crate) fn draw_color(rng: &mut rand::rngs::StdRng) -> (c: (u8, u8, u8, u8)) {
    rng.gen()
}

} // verus!
