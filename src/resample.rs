//! Conversion from the engine's native rate to the handle's sample rate by
//! linear interpolation between consecutive native frames.
use vstd::prelude::*;
use vstd::arithmetic::div_mod::{lemma_div_is_ordered, lemma_div_multiples_vanish, lemma_div_pos_is_pos};

verus! {

/// The engine's native sample rate in Hz.
pub const NATIVE_RATE: u32 = 49716;

/// One output sample period, in the resampler's fixed-point phase units.
pub const PHASE_ONE: i64 = 1024;

/// Upper bound on `rate_ratio` over every `u32` rate.
pub const MAX_RATIO: i64 = 0x800_0000;

/// Native frames per output frame, scaled by `PHASE_ONE` and rounded down.
pub open spec fn rate_ratio(sample_rate: u32) -> int {
    (sample_rate as int * PHASE_ONE) / (NATIVE_RATE as int)
}

/// A rate the resampler can run at: one whose ratio is not zero
/// (49 Hz and above).
pub open spec fn rate_supported(sample_rate: u32) -> bool {
    rate_ratio(sample_rate) >= 1
}

/// Integer division rounding toward zero.
pub open spec fn trunc_div(n: int, d: int) -> int {
    if n >= 0 {
        n / d
    } else {
        -((-n) / d)
    }
}

/// The sample `p / r` of the way from `a` to `b`.
pub open spec fn blend(a: i16, b: i16, p: int, r: int) -> int {
    trunc_div(a as int * (r - p) + b as int * p, r)
}

/// Computes `rate_ratio`.
pub fn ratio_of(sample_rate: u32) -> (r: i64)
    ensures
        r == rate_ratio(sample_rate),
        0 <= r <= MAX_RATIO,
{
    let scaled: u64 = sample_rate as u64 * 1024;
    let q: u64 = scaled / 49716;
    assert(q <= MAX_RATIO) by {
        assert(scaled <= 0xffff_ffffu64 * 1024);
        lemma_div_is_ordered(scaled as int, 0xffff_ffffu64 * 1024, 49716);
    }
    q as i64
}

proof fn lemma_trunc_div_bounds(n: int, r: int, lo: int, hi: int)
    requires
        r > 0,
        lo * r <= n <= hi * r,
    ensures
        lo <= trunc_div(n, r) <= hi,
{
    assert(lo * r == r * lo && hi * r == r * hi) by (nonlinear_arith);
    assert(r * (-lo) == -(r * lo) && r * (-hi) == -(r * hi)) by (nonlinear_arith);
    lemma_div_multiples_vanish(hi, r);
    lemma_div_multiples_vanish(lo, r);
    lemma_div_multiples_vanish(-hi, r);
    lemma_div_multiples_vanish(-lo, r);
    if n >= 0 {
        lemma_div_is_ordered(n, r * hi, r);
        lemma_div_is_ordered(r * lo, n, r);
        lemma_div_pos_is_pos(n, r);
    } else {
        let m = -n;
        lemma_div_is_ordered(m, r * (-lo), r);
        lemma_div_is_ordered(r * (-hi), m, r);
        lemma_div_pos_is_pos(m, r);
    }
}

/// Interpolates one sample: `blend(a, b, p, r)`, which lies between `a` and `b`.
pub fn blend_sample(a: i16, b: i16, p: i64, r: i64) -> (x: i16)
    requires
        0 <= p < r <= MAX_RATIO,
    ensures
        x == blend(a, b, p as int, r as int),
{
    let ai = a as i64;
    let bi = b as i64;
    assert(-0x8000 * MAX_RATIO <= ai * (r - p) <= 0x8000 * MAX_RATIO) by (nonlinear_arith)
        requires -0x8000 <= ai < 0x8000, 0 < r - p <= MAX_RATIO, MAX_RATIO == 0x800_0000i64;
    assert(-0x8000 * MAX_RATIO <= bi * p <= 0x8000 * MAX_RATIO) by (nonlinear_arith)
        requires -0x8000 <= bi < 0x8000, 0 <= p <= MAX_RATIO, MAX_RATIO == 0x800_0000i64;
    let n = ai * (r - p) + bi * p;
    let ghost lo: int = if a <= b { a as int } else { b as int };
    let ghost hi: int = if a <= b { b as int } else { a as int };
    assert(lo * r <= n <= hi * r) by (nonlinear_arith)
        requires
            n == ai * (r - p) + bi * p, 0 <= p < r, lo <= ai <= hi, lo <= bi <= hi;
    proof {
        lemma_trunc_div_bounds(n as int, r as int, lo, hi);
    }
    (n / r) as i16
}

} // verus!
