//! Fractions in parts per billion, made by `sp-arithmetic`'s `Perbill`.
use vstd::prelude::*;
use sp_arithmetic::{PerThing, Perbill};

verus! {

/// One whole, in parts per billion.
pub const ONE_BILLION: u32 = 1_000_000_000;

/// The parts per billion of `p / q` as `Perbill::from_rational` computes
/// them: `q` at least one and `p` at most `q`; both divided by the factor
/// that brings `q` under a billion; then `p * 10^9 / q`, rounded down.
pub open spec fn rational_parts(p: int, q: int) -> int {
    let q1 = if q < 1 { 1 } else { q };
    let p1 = if p < q1 { p } else { q1 };
    let f = q1 / 1_000_000_000 + if q1 % 1_000_000_000 > 0 { 1int } else { 0int };
    let factor = if f < 1 { 1 } else { f };
    (p1 / factor) * 1_000_000_000 / (q1 / factor)
}

/// `p / q` in parts per billion, at most one whole.
///
/// Calls `Perbill::from_rational` of `sp-arithmetic` with `u32` arguments
/// and takes the parts; the contract states the computation of its source
/// (see `rational_parts`), and that the result is at most a billion parts.
#[verifier::external_body]
pub fn perbill_from_rational(p: u32, q: u32) -> (r: u32)
    ensures
        r == rational_parts(p as int, q as int),
        r <= ONE_BILLION,
{
    Perbill::from_rational(p, q).deconstruct()
}

/// The square of a fraction of `parts` parts per billion.
///
/// Calls `Perbill::square` of `sp-arithmetic` on `Perbill::from_parts(parts)`
/// and takes the parts; its source computes `from_rational` of `parts^2` and
/// `10^18` in `u64`, which the contract states.
#[verifier::external_body]
pub fn perbill_square(parts: u32) -> (r: u32)
    requires
        parts <= ONE_BILLION,
    ensures
        r == rational_parts(parts * parts, 1_000_000_000_000_000_000),
        r <= ONE_BILLION,
{
    Perbill::from_parts(parts).square().deconstruct()
}

} // verus!
