//! Exact fixed-point arithmetic used throughout the decode pipeline.
//!
//! Geometry produced by the decoder — box coordinates, extents, confidence
//! values and overlap thresholds — is carried as signed integers with 32
//! fractional bits, so a stored value `v` denotes the real number
//! `v / 2^32`.  Every function that rounds states its result exactly, as a
//! nearest-integer division (`round_rat`) clamped to the coordinate range
//! (`fp_saturate`), so callers reason about rounding with no slack.

use vstd::prelude::*;
use vstd::arithmetic::div_mod::{
    lemma_div_is_ordered_by_denominator, lemma_fundamental_div_mod,
    lemma_fundamental_div_mod_converse,
};
use vstd::arithmetic::power2::{
    lemma2_to64, lemma2_to64_rest, lemma_pow2_adds, lemma_pow2_strictly_increases,
    lemma_pow2_unfold, pow2,
};

verus! {

/// The fixed-point representation of 1.0: one with 32 fractional bits.
pub const FP_ONE: i64 = 0x1_0000_0000;

/// The fixed-point representation of 0.5.
pub const FP_HALF: i64 = 0x8000_0000;

/// Largest magnitude a stored coordinate may take (the real value 2^14).
/// Results of rounding divisions are clamped here, which keeps every later
/// product of two coordinate differences inside `i128`.
pub const FP_LIMIT: i64 = 0x4000_0000_0000;

/// Quotient `n / d` rounded to the nearest integer, ties toward positive
/// infinity, for a positive denominator `d`.
pub open spec fn round_rat(n: int, d: int) -> int
    recommends
        1 <= d,
{
    (2 * n + d) / (2 * d)
}

/// Clamp a value to the coordinate range `[-FP_LIMIT, FP_LIMIT]`.
pub open spec fn fp_saturate(v: int) -> int {
    if v < -(FP_LIMIT as int) {
        -(FP_LIMIT as int)
    } else if v > FP_LIMIT as int {
        FP_LIMIT as int
    } else {
        v
    }
}

/// The exact value of every rounding division the pipeline performs:
/// nearest integer to `n / d`, clamped to the coordinate range.
pub open spec fn fp_round(n: int, d: int) -> int
    recommends
        1 <= d,
{
    fp_saturate(round_rat(n, d))
}

/// Rounding an exact multiple of the denominator loses nothing.
pub proof fn lemma_round_rat_exact(a: int, c: int)
    requires
        1 <= c,
    ensures
        round_rat(a * c, c) == a,
{
    assert(2 * (a * c) + c == a * (2 * c) + c) by (nonlinear_arith);
    lemma_fundamental_div_mod_converse(a * (2 * c) + c, 2 * c, a, c);
}

/// Rounded division of `i128` values: the nearest integer to `n / d`, ties
/// toward positive infinity.  The denominator must be positive; the bounds
/// keep `2 * n + d` inside `i128`.
pub fn round_div(n: i128, d: i128) -> (r: i128)
    requires
        1 <= d <= 0x10_0000_0000_0000_0000_0000_0000,
        -0x2000_0000_0000_0000_0000_0000_0000_0000 <= n
            <= 0x2000_0000_0000_0000_0000_0000_0000_0000,
    ensures
        r == round_rat(n as int, d as int),
{
    let t: i128 = 2 * n + d;
    let du: u128 = (2 * d) as u128;
    let q: i128;
    if t >= 0 {
        let tu: u128 = t as u128;
        let qt: u128 = tu / du;
        proof {
            lemma_div_is_ordered_by_denominator(tu as int, 2, du as int);
        }
        q = qt as i128;
        assert(q as int == (t as int) / (2 * (d as int)));
    } else {
        let a: i128 = -t;
        let au: u128 = a as u128;
        let qt: u128 = au / du;
        let rt: u128 = au % du;
        proof {
            lemma_div_is_ordered_by_denominator(au as int, 2, du as int);
            lemma_fundamental_div_mod(au as int, du as int);
            assert(au as int == qt as int * (du as int) + rt as int) by (nonlinear_arith)
                requires
                    au as int == du as int * (au as int / du as int) + au as int % du as int,
                    qt as int == au as int / du as int,
                    rt as int == au as int % du as int,
            ;
        }
        if rt == 0 {
            q = -(qt as i128);
            proof {
                assert(t as int == q as int * (du as int) + 0) by (nonlinear_arith)
                    requires
                        a as int == qt as int * (du as int),
                        t as int == -(a as int),
                        q as int == -(qt as int),
                ;
                lemma_fundamental_div_mod_converse(t as int, du as int, q as int, 0);
            }
        } else {
            q = -(qt as i128) - 1;
            proof {
                assert(t as int == q as int * (du as int) + (du as int - rt as int))
                    by (nonlinear_arith)
                    requires
                        a as int == qt as int * (du as int) + rt as int,
                        t as int == -(a as int),
                        q as int == -(qt as int) - 1,
                ;
                lemma_fundamental_div_mod_converse(
                    t as int,
                    du as int,
                    q as int,
                    du as int - rt as int,
                );
            }
        }
        assert(q as int == (t as int) / (2 * (d as int)));
    }
    q
}

/// Rounded division with saturation to the coordinate range: the stored
/// form of every coordinate the decoder emits.
pub fn round_div_sat(n: i128, d: i128) -> (r: i64)
    requires
        1 <= d <= 0x10_0000_0000_0000_0000_0000_0000,
        -0x2000_0000_0000_0000_0000_0000_0000_0000 <= n
            <= 0x2000_0000_0000_0000_0000_0000_0000_0000,
    ensures
        r as int == fp_round(n as int, d as int),
{
    let q = round_div(n, d);
    if q > FP_LIMIT as i128 {
        FP_LIMIT
    } else if q < -(FP_LIMIT as i128) {
        -FP_LIMIT
    } else {
        q as i64
    }
}

/// Two to the power `e`, computed for the denominators the quantization
/// schemes use.
pub fn pow2_i128(e: u32) -> (r: i128)
    requires
        e <= 126,
    ensures
        r == pow2(e as nat),
{
    proof {
        lemma2_to64();
            lemma2_to64_rest();
        lemma_pow2_adds(63, 63);
    }
    let mut r: i128 = 1;
    let mut i: u32 = 0;
    while i < e
        invariant
            i <= e <= 126,
            r == pow2(i as nat),
        decreases e - i,
    {
        proof {
            lemma_pow2_unfold((i + 1) as nat);
            if (i as nat) < 126 {
                lemma_pow2_strictly_increases(i as nat, 126);
            }
            lemma2_to64();
            lemma2_to64_rest();
            lemma_pow2_adds(63, 63);
        }
        r = r * 2;
        i = i + 1;
    }
    r
}

} // verus!
