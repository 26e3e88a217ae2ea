//! Rounding a ratio of integers to the nearest integer.

use vstd::prelude::*;

verus! {

/// The ratio `num / den` rounded to the nearest integer, halves rounded up.
///
/// For a non-negative `num` and a positive `den` this is rounding half away
/// from zero.
pub open spec fn round_ratio(num: int, den: int) -> int {
    (2 * num + den) / (2 * den)
}

/// `round_ratio(num, den)` is the one integer `q` with
/// `q - 1/2 <= num / den < q + 1/2`.
pub proof fn lemma_round_ratio_nearest(num: int, den: int)
    requires
        den > 0,
    ensures
        2 * den * round_ratio(num, den) <= 2 * num + den,
        2 * num + den < 2 * den * (round_ratio(num, den) + 1),
{
    let q = round_ratio(num, den);
    assert(2 * den * q <= 2 * num + den && 2 * num + den < 2 * den * (q + 1))
        by (nonlinear_arith)
        requires
            den > 0,
            q == (2 * num + den) / (2 * den),
    ;
}

/// Any integer `q` with `q - 1/2 <= num / den < q + 1/2` is `round_ratio(num, den)`.
pub proof fn lemma_round_ratio_unique(num: int, den: int, q: int)
    requires
        den > 0,
        2 * den * q <= 2 * num + den,
        2 * num + den < 2 * den * (q + 1),
    ensures
        round_ratio(num, den) == q,
{
    let r = round_ratio(num, den);
    lemma_round_ratio_nearest(num, den);
    assert(r == q) by (nonlinear_arith)
        requires
            den > 0,
            2 * den * q <= 2 * num + den,
            2 * num + den < 2 * den * (q + 1),
            2 * den * r <= 2 * num + den,
            2 * num + den < 2 * den * (r + 1),
    ;
}

/// A ratio between `0` and `bound` rounds to an integer between `0` and `bound`.
pub proof fn lemma_round_ratio_bounded(num: int, den: int, bound: int)
    requires
        den > 0,
        0 <= num <= bound * den,
    ensures
        0 <= round_ratio(num, den) <= bound,
{
    let q = round_ratio(num, den);
    lemma_round_ratio_nearest(num, den);
    assert(0 <= q <= bound) by (nonlinear_arith)
        requires
            den > 0,
            0 <= num <= bound * den,
            2 * den * q <= 2 * num + den,
            2 * num + den < 2 * den * (q + 1),
    ;
}

/// Rounding keeps the order of two ratios over one denominator.
pub proof fn lemma_round_ratio_monotonic(low: int, high: int, den: int)
    requires
        den > 0,
        low <= high,
    ensures
        round_ratio(low, den) <= round_ratio(high, den),
{
    let a = round_ratio(low, den);
    let b = round_ratio(high, den);
    lemma_round_ratio_nearest(low, den);
    lemma_round_ratio_nearest(high, den);
    assert(a <= b) by (nonlinear_arith)
        requires
            den > 0,
            low <= high,
            2 * den * a <= 2 * low + den,
            2 * high + den < 2 * den * (b + 1),
    ;
}

/// A ratio less than three halves away from `target` rounds to an integer at
/// most one away from `target`.
pub proof fn lemma_round_ratio_near(num: int, den: int, target: int)
    requires
        den > 0,
        -3 * den <= 2 * (num - target * den) < 3 * den,
    ensures
        target - 1 <= round_ratio(num, den) <= target + 1,
{
    let q = round_ratio(num, den);
    lemma_round_ratio_nearest(num, den);
    assert(target - 1 <= q <= target + 1) by (nonlinear_arith)
        requires
            den > 0,
            -3 * den <= 2 * (num - target * den) < 3 * den,
            2 * den * q <= 2 * num + den,
            2 * num + den < 2 * den * (q + 1),
    ;
}

/// Computes `round_ratio(num, den)`.
pub(crate) fn rounded_ratio(num: u32, den: u32) -> (q: u32)
    requires
        den > 0,
    ensures
        q == round_ratio(num as int, den as int),
{
    let n: u64 = num as u64;
    let d: u64 = den as u64;
    proof {
        assert(num <= num * den) by (nonlinear_arith)
            requires
                den >= 1,
        ;
        lemma_round_ratio_bounded(num as int, den as int, num as int);
    }
    ((2 * n + d) / (2 * d)) as u32
}

} // verus!
