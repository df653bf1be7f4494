//! Fixed-point scalar arithmetic for weights, biases and signals.
//!
//! A signal value `v: i64` stands for the real number `v / SCALE`.  A
//! weighted sum `bias * SCALE + sum(weight * input)` is therefore scaled by
//! `SCALE * SCALE`; the activation functions below take such a sum and
//! return a value scaled by `SCALE` again, with the rounding of the final
//! division stated exactly.

use vstd::prelude::*;
use vstd::arithmetic::div_mod::{
    lemma_basic_div, lemma_multiply_divide_lt, lemma_div_is_ordered,
    lemma_fundamental_div_mod, lemma_mod_bound, lemma_div_pos_is_pos,
};

verus! {

/// Number of raw units per 1.0 of signal value.
pub const SCALE: i64 = 65536;

/// `SCALE * SCALE`: the scaling of a raw weighted sum.
pub const SCALE_SQ: i64 = 65536 * 65536;

/// Largest magnitude a weight or a bias may take (16.0 in signal terms).
pub const PARAM_MAX: i64 = 1048576;

/// Largest magnitude accepted for a network input (1024.0 in signal terms).
pub const INPUT_MAX: i64 = 67108864;

/// Largest number of neurons in a layer, and largest input count.
pub const WIDTH_MAX: usize = 65536;

/// Mutation rates range over `0 ..= RATE_ONE`; at `RATE_ONE` every gene is
/// redrawn, at `0` none is.
pub const RATE_ONE: u64 = 65536;

/// Division truncating toward zero, as the executable code computes it.
pub open spec fn div_toward_zero(a: int, d: int) -> int {
    if a >= 0 {
        a / d
    } else {
        -((-a) / d)
    }
}

/// The bounded nonlinearity applied to a raw weighted sum `s` (scaled by
/// `SCALE * SCALE`): the softsign curve `x -> x / (1 + |x|)`, returned
/// scaled by `SCALE` and truncated toward zero.
pub open spec fn softsign(s: int) -> int {
    if s >= 0 {
        (s * SCALE) / (SCALE_SQ + s)
    } else {
        -(((-s) * SCALE) / (SCALE_SQ + (-s)))
    }
}

/// The identity activation applied to a raw weighted sum `s` (scaled by
/// `SCALE * SCALE`): the sum itself, brought back to `SCALE` scaling.
pub open spec fn identity(s: int) -> int {
    div_toward_zero(s, SCALE as int)
}

/// The bounded nonlinearity stays strictly inside `(-SCALE, SCALE)` — that
/// is, strictly inside `(-1, 1)` in signal terms — for every finite weighted
/// sum, and maps a weighted sum of zero to exactly zero.
pub proof fn lemma_softsign_bounded(s: int)
    ensures
        -SCALE < softsign(s) < SCALE,
        s == 0 ==> softsign(s) == 0,
{
    if s >= 0 {
        assert(s * 65536 >= 0) by (nonlinear_arith)
            requires s >= 0;
        assert(s * 65536 < (4294967296 + s) * 65536) by (nonlinear_arith)
            requires s >= 0;
        lemma_div_is_ordered(0, s * 65536, 4294967296 + s);
        lemma_basic_div(0, 4294967296 + s);
        lemma_multiply_divide_lt(s * 65536, 4294967296 + s, 65536);
    } else {
        assert((-s) * 65536 >= 0) by (nonlinear_arith)
            requires s < 0;
        assert((-s) * 65536 < (4294967296 + (-s)) * 65536) by (nonlinear_arith)
            requires s < 0;
        lemma_div_is_ordered(0, (-s) * 65536, 4294967296 + (-s));
        lemma_basic_div(0, 4294967296 + (-s));
        lemma_multiply_divide_lt((-s) * 65536, 4294967296 + (-s), 65536);
    }
}

/// For nonnegative numerators over positive denominators, integer division
/// is monotone in the rational value: `a * d <= c * b` implies
/// `a / b <= c / d`.
proof fn lemma_div_cross_monotone(a: int, b: int, c: int, d: int)
    requires
        0 <= a,
        0 < b,
        0 <= c,
        0 < d,
        a * d <= c * b,
    ensures
        a / b <= c / d,
{
    lemma_fundamental_div_mod(a, b);
    lemma_fundamental_div_mod(c, d);
    lemma_mod_bound(a, b);
    lemma_mod_bound(c, d);
    lemma_div_pos_is_pos(a, b);
    lemma_div_pos_is_pos(c, d);
    let qa = a / b;
    let ra = a % b;
    let qc = c / d;
    let rc = c % d;
    assert(qa <= qc) by (nonlinear_arith)
        requires
            a == b * qa + ra,
            0 <= ra < b,
            c == d * qc + rc,
            0 <= rc < d,
            a * d <= c * b,
            0 < b,
            0 < d,
            0 <= qa,
            0 <= qc;
}

/// The bounded nonlinearity is monotone: a larger weighted sum never
/// produces a smaller output, so the curve climbs toward — and, by
/// `lemma_softsign_bounded`, never reaches — its bounds.
pub proof fn lemma_softsign_monotone(s1: int, s2: int)
    requires
        s1 <= s2,
    ensures
        softsign(s1) <= softsign(s2),
{
    if 0 <= s1 {
        assert((s1 * 65536) * (4294967296 + s2) <= (s2 * 65536) * (4294967296 + s1))
            by (nonlinear_arith)
            requires 0 <= s1 <= s2;
        lemma_div_cross_monotone(
            s1 * 65536,
            4294967296 + s1,
            s2 * 65536,
            4294967296 + s2,
        );
    } else if s2 < 0 {
        assert(((-s2) * 65536) * (4294967296 + (-s1)) <= ((-s1) * 65536) * (4294967296 + (-s2)))
            by (nonlinear_arith)
            requires s1 <= s2 < 0;
        lemma_div_cross_monotone(
            (-s2) * 65536,
            4294967296 + (-s2),
            (-s1) * 65536,
            4294967296 + (-s1),
        );
    } else {
        lemma_div_pos_is_pos((-s1) * 65536, 4294967296 + (-s1));
        lemma_div_pos_is_pos(s2 * 65536, 4294967296 + s2);
    }
}

/// Truncating scale-down of a raw weighted sum, used by the identity
/// activation.
pub fn scale_down(a: i64) -> (r: i64)
    requires
        -9223372036854775807 <= a,
    ensures
        r == identity(a as int),
{
    if a >= 0 {
        ((a as u64) / 65536u64) as i64
    } else {
        -((((-a) as u64) / 65536u64) as i64)
    }
}

/// Executable form of the bounded nonlinearity.
pub fn squash(a: i64) -> (r: i64)
    requires
        -9223372036854775807 <= a,
    ensures
        r == softsign(a as int),
        -SCALE < r < SCALE,
{
    proof {
        lemma_softsign_bounded(a as int);
    }
    let neg = a < 0;
    let m: u64 = if neg { (-a) as u64 } else { a as u64 };
    let num: u128 = (m as u128) * 65536u128;
    let den: u128 = 4294967296u128 + (m as u128);
    let q: u128 = num / den;
    proof {
        assert(num < den * 65536) by (nonlinear_arith)
            requires
                num == (m as int) * 65536,
                den == 4294967296 + (m as int),
                m >= 0;
        lemma_multiply_divide_lt(num as int, den as int, 65536);
    }
    let t = q as i64;
    if neg {
        -t
    } else {
        t
    }
}

} // verus!
