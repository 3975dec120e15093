//! Accumulator primitives: sliding-window mean, recursive exponential mean,
//! and windowed population standard deviation, with the spec functions and
//! lemmas that describe them exactly.

use vstd::prelude::*;
use vstd::arithmetic::div_mod::{
    lemma_div_basics_4, lemma_div_basics_5, lemma_div_is_ordered, lemma_div_multiples_vanish,
};
use vstd::arithmetic::mul::lemma_mul_inequality;
use crate::types::IndicatorError;

verus! {

/// Largest magnitude a series value may have when it feeds the general
/// averaging utilities; chosen so that every sum, square and product along the
/// way stays far inside its machine type at any series length.
pub const VAL_MAX: i64 = 4_000_000_000;

/// Truncating integer division (the quotient is rounded toward zero), for a
/// positive divisor. On a non-negative dividend it coincides with the
/// mathematical floor division `a / b`.
pub open spec fn div_trunc(a: int, b: int) -> int {
    if a >= 0 {
        a / b
    } else {
        -((-a) / b)
    }
}

/// Sum of `s[lo..hi)`.
pub open spec fn range_sum(s: Seq<i64>, lo: int, hi: int) -> int
    decreases hi - lo,
{
    if lo >= hi {
        0
    } else {
        range_sum(s, lo, hi - 1) + s[hi - 1]
    }
}

/// Smallest value of `s[lo..hi)`; meaningful only when `lo < hi`.
pub open spec fn range_min(s: Seq<i64>, lo: int, hi: int) -> int
    decreases hi - lo,
{
    if hi <= lo + 1 {
        s[lo] as int
    } else {
        let m = range_min(s, lo, hi - 1);
        if s[hi - 1] < m {
            s[hi - 1] as int
        } else {
            m
        }
    }
}

/// Largest value of `s[lo..hi)`; meaningful only when `lo < hi`.
pub open spec fn range_max(s: Seq<i64>, lo: int, hi: int) -> int
    decreases hi - lo,
{
    if hi <= lo + 1 {
        s[lo] as int
    } else {
        let m = range_max(s, lo, hi - 1);
        if s[hi - 1] > m {
            s[hi - 1] as int
        } else {
            m
        }
    }
}

/// The simple moving average of the window `s[i..i+p)`.
pub open spec fn sma_at(s: Seq<i64>, p: int, i: int) -> int {
    div_trunc(range_sum(s, i, i + p), p)
}

/// The exponential moving average at output index `i`: seeded with the plain
/// mean of the first `p` values, then moved toward each next value by the
/// fraction `2 / (p + 1)`.
pub open spec fn ema_at(s: Seq<i64>, p: int, i: int) -> int
    decreases i,
{
    if i <= 0 {
        div_trunc(range_sum(s, 0, p), p)
    } else {
        let prev = ema_at(s, p, i - 1);
        prev + div_trunc((s[p - 1 + i] - prev) * 2, p + 1)
    }
}

/// Sum of squared deviations of `s[lo..hi)` from `m`.
pub open spec fn sq_dev_sum(s: Seq<i64>, m: int, lo: int, hi: int) -> int
    decreases hi - lo,
{
    if lo >= hi {
        0
    } else {
        sq_dev_sum(s, m, lo, hi - 1) + (s[hi - 1] - m) * (s[hi - 1] - m)
    }
}

/// Population variance of the window `s[i..i+p)` around the mean `m`.
pub open spec fn variance_at(s: Seq<i64>, m: int, p: int, i: int) -> int {
    div_trunc(sq_dev_sum(s, m, i, i + p), p)
}

/// The integer square root: the largest `r` with `r * r <= n`.
pub open spec fn isqrt_at(n: int) -> int
    decreases n,
{
    if n <= 0 {
        0
    } else {
        let r = isqrt_at(n - 1);
        if (r + 1) * (r + 1) <= n {
            r + 1
        } else {
            r
        }
    }
}

/// Population standard deviation of the window `s[i..i+p)` around the mean
/// `m`, rounded down to an integer.
pub open spec fn stddev_at(s: Seq<i64>, m: int, p: int, i: int) -> int {
    isqrt_at(variance_at(s, m, p, i))
}

/// A range sum can be peeled from the front as well as from the back.
pub proof fn lemma_range_sum_split_first(s: Seq<i64>, lo: int, hi: int)
    requires
        lo < hi,
    ensures
        range_sum(s, lo, hi) == s[lo] + range_sum(s, lo + 1, hi),
    decreases hi - lo,
{
    if lo + 1 < hi {
        lemma_range_sum_split_first(s, lo, hi - 1);
        assert(range_sum(s, lo, hi) == range_sum(s, lo, hi - 1) + s[hi - 1]);
        assert(range_sum(s, lo + 1, hi) == range_sum(s, lo + 1, hi - 1) + s[hi - 1]);
    } else {
        assert(range_sum(s, lo, hi) == range_sum(s, lo, lo) + s[lo]);
        assert(range_sum(s, lo + 1, hi) == 0);
    }
}

/// A sum of `hi - lo` values, each within `[a, b]`, lies within
/// `[(hi - lo) * a, (hi - lo) * b]`.
pub proof fn lemma_range_sum_bounds(s: Seq<i64>, lo: int, hi: int, a: int, b: int)
    requires
        lo <= hi,
        forall|k: int| lo <= k < hi ==> a <= #[trigger] s[k] <= b,
    ensures
        (hi - lo) * a <= range_sum(s, lo, hi),
        range_sum(s, lo, hi) <= (hi - lo) * b,
    decreases hi - lo,
{
    if lo >= hi {
        assert((hi - lo) * a == 0) by (nonlinear_arith)
            requires hi == lo;
        assert((hi - lo) * b == 0) by (nonlinear_arith)
            requires hi == lo;
    } else {
        lemma_range_sum_bounds(s, lo, hi - 1, a, b);
        assert((hi - lo) * a == (hi - 1 - lo) * a + a) by (nonlinear_arith);
        assert((hi - lo) * b == (hi - 1 - lo) * b + b) by (nonlinear_arith);
    }
}

/// Every value of `s[lo..hi)` lies within `[range_min, range_max]`, and both
/// bounds are attained.
pub proof fn lemma_range_minmax(s: Seq<i64>, lo: int, hi: int)
    requires
        lo < hi,
    ensures
        forall|k: int| lo <= k < hi ==> range_min(s, lo, hi) <= #[trigger] s[k],
        forall|k: int| lo <= k < hi ==> #[trigger] s[k] <= range_max(s, lo, hi),
        exists|k: int| lo <= k < hi && s[k] == range_min(s, lo, hi),
        exists|k: int| lo <= k < hi && s[k] == range_max(s, lo, hi),
    decreases hi - lo,
{
    if lo + 1 < hi {
        lemma_range_minmax(s, lo, hi - 1);
        let kn = choose|k: int| lo <= k < hi - 1 && s[k] == range_min(s, lo, hi - 1);
        if s[hi - 1] < range_min(s, lo, hi - 1) {
            assert(lo <= hi - 1 < hi && s[hi - 1] == range_min(s, lo, hi));
        } else {
            assert(lo <= kn < hi && s[kn] == range_min(s, lo, hi));
        }
        let kx = choose|k: int| lo <= k < hi - 1 && s[k] == range_max(s, lo, hi - 1);
        if s[hi - 1] > range_max(s, lo, hi - 1) {
            assert(lo <= hi - 1 < hi && s[hi - 1] == range_max(s, lo, hi));
        } else {
            assert(lo <= kx < hi && s[kx] == range_max(s, lo, hi));
        }
    } else {
        assert(lo <= lo < hi && s[lo] == range_min(s, lo, hi));
        assert(lo <= lo < hi && s[lo] == range_max(s, lo, hi));
    }
}

/// Truncating division keeps a quotient between any integer bounds whose
/// multiples bracket the dividend.
pub proof fn lemma_div_trunc_between(a: int, b: int, lo: int, hi: int)
    requires
        b >= 1,
        lo * b <= a,
        a <= hi * b,
    ensures
        lo <= div_trunc(a, b) <= hi,
{
    if a >= 0 {
        if lo >= 0 {
            lemma_div_multiples_vanish(lo, b);
            assert(lo * b == b * lo) by (nonlinear_arith);
            lemma_div_is_ordered(lo * b, a, b);
        } else {
            lemma_div_basics_4(a, b);
        }
        if hi < 0 {
            assert(hi * b < 0) by (nonlinear_arith)
                requires hi < 0 && b >= 1;
        }
        lemma_div_multiples_vanish(hi, b);
        assert(hi * b == b * hi) by (nonlinear_arith);
        lemma_div_is_ordered(a, hi * b, b);
    } else {
        let na = -a;
        if hi >= 0 {
            lemma_div_basics_4(na, b);
        } else {
            assert((-hi) * b == -(hi * b)) by (nonlinear_arith);
            lemma_div_multiples_vanish(-hi, b);
            assert((-hi) * b == b * (-hi)) by (nonlinear_arith);
            lemma_div_is_ordered((-hi) * b, na, b);
        }
        if lo >= 0 {
            assert(lo * b >= 0) by (nonlinear_arith)
                requires lo >= 0 && b >= 1;
        }
        assert((-lo) * b == -(lo * b)) by (nonlinear_arith);
        lemma_div_multiples_vanish(-lo, b);
        assert((-lo) * b == b * (-lo)) by (nonlinear_arith);
        lemma_div_is_ordered(na, (-lo) * b, b);
    }
}

/// A truncated quotient never exceeds its dividend in magnitude and keeps
/// its sign.
pub proof fn lemma_div_trunc_magnitude(a: int, b: int)
    requires
        b >= 1,
    ensures
        a >= 0 ==> 0 <= div_trunc(a, b) <= a,
        a < 0 ==> a <= div_trunc(a, b) <= 0,
{
    if a >= 0 {
        lemma_div_basics_4(a, b);
        lemma_div_basics_5(a, b);
    } else {
        lemma_div_basics_4(-a, b);
        lemma_div_basics_5(-a, b);
    }
}

/// The sliding mean of a window lies within the window's own value range:
/// for every window `s[i..i+p)`, its simple moving average is at least the
/// window's minimum and at most the window's maximum.
pub proof fn lemma_sma_within_window(s: Seq<i64>, p: int, i: int)
    requires
        p >= 1,
        0 <= i,
        i + p <= s.len(),
    ensures
        range_min(s, i, i + p) <= sma_at(s, p, i),
        sma_at(s, p, i) <= range_max(s, i, i + p),
{
    let lo = range_min(s, i, i + p);
    let hi = range_max(s, i, i + p);
    lemma_range_minmax(s, i, i + p);
    lemma_range_sum_bounds(s, i, i + p, lo, hi);
    assert(p * lo == lo * p) by (nonlinear_arith);
    assert(p * hi == hi * p) by (nonlinear_arith);
    lemma_div_trunc_between(range_sum(s, i, i + p), p, lo, hi);
}

/// The exponential moving average never leaves the interval that contains
/// every input value: each step moves the running value toward the next
/// input without overshooting it.
pub proof fn lemma_ema_at_bounds(s: Seq<i64>, p: int, lo: int, hi: int, i: int)
    requires
        1 <= p,
        p <= s.len(),
        0 <= i,
        p - 1 + i < s.len(),
        forall|k: int| 0 <= k < s.len() ==> lo <= #[trigger] s[k] <= hi,
    ensures
        lo <= ema_at(s, p, i) <= hi,
    decreases i,
{
    if i <= 0 {
        lemma_range_sum_bounds(s, 0, p, lo, hi);
        assert(p * lo == lo * p) by (nonlinear_arith);
        assert(p * hi == hi * p) by (nonlinear_arith);
        lemma_div_trunc_between(range_sum(s, 0, p), p, lo, hi);
    } else {
        lemma_ema_at_bounds(s, p, lo, hi, i - 1);
        let prev = ema_at(s, p, i - 1);
        let x = s[p - 1 + i] as int;
        let d = x - prev;
        if d >= 0 {
            assert(0 * (p + 1) <= d * 2 <= d * (p + 1)) by (nonlinear_arith)
                requires d >= 0 && p >= 1;
            lemma_div_trunc_between(d * 2, p + 1, 0, d);
        } else {
            assert(d * (p + 1) <= d * 2 <= 0 * (p + 1)) by (nonlinear_arith)
                requires d < 0 && p >= 1;
            lemma_div_trunc_between(d * 2, p + 1, d, 0);
        }
    }
}

/// The recursive integer square root is the largest root: it is
/// non-negative, its square is at most `n`, and the next square is above `n`.
pub proof fn lemma_isqrt_at_props(n: int)
    requires
        n >= 0,
    ensures
        isqrt_at(n) >= 0,
        isqrt_at(n) * isqrt_at(n) <= n,
        n < (isqrt_at(n) + 1) * (isqrt_at(n) + 1),
    decreases n,
{
    if n > 0 {
        lemma_isqrt_at_props(n - 1);
        let r = isqrt_at(n - 1);
        if (r + 1) * (r + 1) <= n {
            assert(n < (r + 2) * (r + 2)) by (nonlinear_arith)
                requires r >= 0 && n - 1 < (r + 1) * (r + 1) && (r + 1) * (r + 1) <= n;
        }
    }
}

/// Any non-negative `r` whose square brackets `n` is the integer square root.
pub proof fn lemma_isqrt_unique(n: int, r: int)
    requires
        n >= 0,
        r >= 0,
        r * r <= n,
        n < (r + 1) * (r + 1),
    ensures
        r == isqrt_at(n),
{
    lemma_isqrt_at_props(n);
    let q = isqrt_at(n);
    if r < q {
        assert((r + 1) * (r + 1) <= q * q) by (nonlinear_arith)
            requires 0 <= r + 1 <= q;
        assert(false);
    }
    if q < r {
        assert((q + 1) * (q + 1) <= r * r) by (nonlinear_arith)
            requires 0 <= q + 1 <= r;
        assert(false);
    }
}

/// Truncating division in machine arithmetic, matching [`div_trunc`].
pub(crate) fn div_trunc_i128(a: i128, b: i128) -> (q: i128)
    requires
        1 <= b,
        -0x7fffffffffffffffffffffffffffffff <= a,
    ensures
        q as int == div_trunc(a as int, b as int),
{
    if a >= 0 {
        let qa: u128 = (a as u128) / (b as u128);
        proof {
            lemma_div_basics_5(a as int, b as int);
        }
        qa as i128
    } else {
        let na: i128 = -a;
        let qa: u128 = (na as u128) / (b as u128);
        proof {
            lemma_div_basics_5(na as int, b as int);
        }
        -(qa as i128)
    }
}

/// `(j + 1) * m` grows from `j * m` by `m`, and stays non-negative.
pub(crate) proof fn lemma_mul_step(j: int, m: int)
    requires
        0 <= j,
        0 <= m,
    ensures
        (j + 1) * m == j * m + m,
        0 <= j * m,
{
    assert((j + 1) * m == j * m + m) by (nonlinear_arith);
    assert(0 <= j * m) by (nonlinear_arith)
        requires 0 <= j && 0 <= m;
}

/// What `calculate_sma` promises: the parameter and length checks decide the
/// error exactly, and on success each output value is the truncated mean of
/// its window, so the output is `s.len() - period + 1` long.
pub open spec fn sma_post(s: Seq<i64>, period: int, r: Result<Vec<i64>, IndicatorError>) -> bool {
    &&& (r == Err::<Vec<i64>, IndicatorError>(IndicatorError::InvalidParameter) <==> period == 0)
    &&& (r == Err::<Vec<i64>, IndicatorError>(IndicatorError::InsufficientData) <==> period >= 1
        && s.len() < period)
    &&& (r is Ok <==> period >= 1 && s.len() >= period)
    &&& (r is Ok ==> r->Ok_0@.len() == s.len() - period + 1)
    &&& (r is Ok ==> forall|i: int|
        0 <= i < r->Ok_0@.len() ==> #[trigger] r->Ok_0@[i] as int == sma_at(s, period, i))
}

/// Simple moving average over a sliding window: a running sum adds the value
/// entering the window and drops the one leaving it, and each output is that
/// sum divided by the period. Fails with `InvalidParameter` on a zero period
/// and with `InsufficientData` when the series is shorter than the period.
pub fn calculate_sma(data: &Vec<i64>, period: usize) -> (r: Result<Vec<i64>, IndicatorError>)
    requires
        forall|i: int| 0 <= i < data@.len() ==> -VAL_MAX <= #[trigger] data@[i] <= VAL_MAX,
    ensures
        sma_post(data@, period as int, r),
        r is Ok ==> forall|i: int|
            0 <= i < r->Ok_0@.len() ==> -VAL_MAX <= #[trigger] r->Ok_0@[i] <= VAL_MAX,
{
    if period == 0 {
        return Err(IndicatorError::InvalidParameter);
    }
    let n: usize = data.len();
    if n < period {
        return Err(IndicatorError::InsufficientData);
    }
    let mut sum: i128 = 0;
    let mut j: usize = 0;
    while j < period
        invariant
            0 <= j <= period <= n,
            n == data@.len(),
            forall|i: int| 0 <= i < data@.len() ==> -VAL_MAX <= #[trigger] data@[i] <= VAL_MAX,
            sum as int == range_sum(data@, 0, j as int),
            -((j as int) * (VAL_MAX as int)) <= sum as int <= (j as int) * (VAL_MAX as int),
        decreases period - j,
    {
        proof {
            lemma_mul_step(j as int, VAL_MAX as int);
            lemma_mul_inequality((j + 1) as int, n as int, VAL_MAX as int);
            lemma_mul_inequality(n as int, usize::MAX as int, VAL_MAX as int);
        }
        sum = sum + (data[j] as i128);
        j = j + 1;
    }
    let p128: i128 = period as i128;
    let mut out: Vec<i64> = Vec::new();
    proof {
        lemma_range_sum_bounds(data@, 0, period as int, -(VAL_MAX as int), VAL_MAX as int);
        assert((period as int) * (-(VAL_MAX as int)) == -((VAL_MAX as int) * (period as int)))
            by (nonlinear_arith);
        assert((period as int) * (VAL_MAX as int) == (VAL_MAX as int) * (period as int))
            by (nonlinear_arith);
        lemma_div_trunc_between(sum as int, period as int, -(VAL_MAX as int), VAL_MAX as int);
    }
    let q0: i128 = div_trunc_i128(sum, p128);
    out.push(q0 as i64);
    let mut i: usize = period;
    while i < n
        invariant
            period >= 1,
            period <= i <= n,
            n == data@.len(),
            p128 == period as i128,
            forall|k: int| 0 <= k < data@.len() ==> -VAL_MAX <= #[trigger] data@[k] <= VAL_MAX,
            sum as int == range_sum(data@, i - period, i as int),
            -((period as int) * (VAL_MAX as int)) <= sum as int
                <= (period as int) * (VAL_MAX as int),
            out@.len() == i - period + 1,
            forall|k: int| 0 <= k < out@.len() ==> #[trigger] out@[k] as int
                == sma_at(data@, period as int, k),
            forall|k: int| 0 <= k < out@.len() ==> -VAL_MAX <= #[trigger] out@[k] <= VAL_MAX,
        decreases n - i,
    {
        proof {
            lemma_range_sum_split_first(data@, i - period, (i + 1) as int);
            lemma_mul_step(period as int, VAL_MAX as int);
        }
        sum = sum - (data[i - period] as i128) + (data[i] as i128);
        proof {
            lemma_range_sum_bounds(
                data@,
                (i + 1 - period) as int,
                (i + 1) as int,
                -(VAL_MAX as int),
                VAL_MAX as int,
            );
            assert((period as int) * (-(VAL_MAX as int)) == -((period as int) * (VAL_MAX as int)))
                by (nonlinear_arith);
            assert((period as int) * (-(VAL_MAX as int)) == -((VAL_MAX as int) * (period as int)))
                by (nonlinear_arith);
            assert((period as int) * (VAL_MAX as int) == (VAL_MAX as int) * (period as int))
                by (nonlinear_arith);
            lemma_div_trunc_between(sum as int, period as int, -(VAL_MAX as int), VAL_MAX as int);
        }
        let q: i128 = div_trunc_i128(sum, p128);
        out.push(q as i64);
        i = i + 1;
    }
    Ok(out)
}

/// What `calculate_ema` promises: the parameter and length checks decide the
/// error exactly, and on success each output value follows the seeded
/// exponential recurrence, starting at input position `period - 1`.
pub open spec fn ema_post(s: Seq<i64>, period: int, r: Result<Vec<i64>, IndicatorError>) -> bool {
    &&& (r == Err::<Vec<i64>, IndicatorError>(IndicatorError::InvalidParameter) <==> period == 0)
    &&& (r == Err::<Vec<i64>, IndicatorError>(IndicatorError::InsufficientData) <==> period >= 1
        && s.len() < period)
    &&& (r is Ok <==> period >= 1 && s.len() >= period)
    &&& (r is Ok ==> r->Ok_0@.len() == s.len() - period + 1)
    &&& (r is Ok ==> forall|i: int|
        0 <= i < r->Ok_0@.len() ==> #[trigger] r->Ok_0@[i] as int == ema_at(s, period, i))
}

/// Exponential moving average: seeded with the plain mean of the first
/// `period` values, then `ema = ema + (x - ema) * 2 / (period + 1)` for each
/// later value. The first output value is exactly that plain mean. Fails with
/// `InvalidParameter` on a zero period and with `InsufficientData` when the
/// series is shorter than the period.
pub fn calculate_ema(data: &Vec<i64>, period: usize) -> (r: Result<Vec<i64>, IndicatorError>)
    requires
        forall|i: int| 0 <= i < data@.len() ==> -VAL_MAX <= #[trigger] data@[i] <= VAL_MAX,
    ensures
        ema_post(data@, period as int, r),
        r is Ok ==> r->Ok_0@[0] as int == div_trunc(range_sum(data@, 0, period as int),
            period as int),
        r is Ok ==> forall|i: int|
            0 <= i < r->Ok_0@.len() ==> -VAL_MAX <= #[trigger] r->Ok_0@[i] <= VAL_MAX,
{
    if period == 0 {
        return Err(IndicatorError::InvalidParameter);
    }
    let n: usize = data.len();
    if n < period {
        return Err(IndicatorError::InsufficientData);
    }
    let mut sum: i128 = 0;
    let mut j: usize = 0;
    while j < period
        invariant
            0 <= j <= period <= n,
            n == data@.len(),
            forall|i: int| 0 <= i < data@.len() ==> -VAL_MAX <= #[trigger] data@[i] <= VAL_MAX,
            sum as int == range_sum(data@, 0, j as int),
            -((j as int) * (VAL_MAX as int)) <= sum as int <= (j as int) * (VAL_MAX as int),
        decreases period - j,
    {
        proof {
            lemma_mul_step(j as int, VAL_MAX as int);
            lemma_mul_inequality((j + 1) as int, n as int, VAL_MAX as int);
            lemma_mul_inequality(n as int, usize::MAX as int, VAL_MAX as int);
        }
        sum = sum + (data[j] as i128);
        j = j + 1;
    }
    proof {
        assert((period as int) * (-(VAL_MAX as int)) == -((VAL_MAX as int) * (period as int)))
            by (nonlinear_arith);
        assert((period as int) * (VAL_MAX as int) == (VAL_MAX as int) * (period as int))
            by (nonlinear_arith);
        lemma_div_trunc_between(sum as int, period as int, -(VAL_MAX as int), VAL_MAX as int);
    }
    let seed: i128 = div_trunc_i128(sum, period as i128);
    let mut out: Vec<i64> = Vec::new();
    out.push(seed as i64);
    let mut prev: i64 = seed as i64;
    let p1: i128 = (period as i128) + 1;
    let mut i: usize = period;
    while i < n
        invariant
            period >= 1,
            period <= i <= n,
            n == data@.len(),
            p1 == (period as int) + 1,
            forall|k: int| 0 <= k < data@.len() ==> -VAL_MAX <= #[trigger] data@[k] <= VAL_MAX,
            out@.len() == i - period + 1,
            forall|k: int| 0 <= k < out@.len() ==> #[trigger] out@[k] as int
                == ema_at(data@, period as int, k),
            forall|k: int| 0 <= k < out@.len() ==> -VAL_MAX <= #[trigger] out@[k] <= VAL_MAX,
            prev == out@[out@.len() - 1],
        decreases n - i,
    {
        let d: i128 = (data[i] as i128) - (prev as i128);
        let step: i128 = div_trunc_i128(d * 2, p1);
        proof {
            let dd = d as int;
            if dd >= 0 {
                assert(0 * ((period as int) + 1) <= dd * 2 <= dd * ((period as int) + 1))
                    by (nonlinear_arith)
                    requires dd >= 0 && period >= 1;
                lemma_div_trunc_between(dd * 2, (period as int) + 1, 0, dd);
            } else {
                assert(dd * ((period as int) + 1) <= dd * 2 <= 0 * ((period as int) + 1))
                    by (nonlinear_arith)
                    requires dd < 0 && period >= 1;
                lemma_div_trunc_between(dd * 2, (period as int) + 1, dd, 0);
            }
        }
        let next: i128 = (prev as i128) + step;
        out.push(next as i64);
        prev = next as i64;
        i = i + 1;
    }
    Ok(out)
}

/// Largest admissible price for the standard-deviation window, squared.
pub const DEV_SQ_MAX: i128 = 1_000_000_000_000_000_000;

/// Windowed population standard deviation: for each mean `sma[i]`, the square
/// root of the mean squared deviation of the window `data[i..i+period)`
/// (dividing by `period`, not `period - 1`), rounded down.
pub fn calculate_std_dev(data: &Vec<i64>, period: usize, sma: &Vec<i64>) -> (r: Vec<i64>)
    requires
        1 <= period,
        sma@.len() + period <= data@.len() + 1,
        forall|i: int| 0 <= i < data@.len() ==> 0 <= #[trigger] data@[i]
            <= crate::PRICE_MAX,
        forall|i: int| 0 <= i < sma@.len() ==> 0 <= #[trigger] sma@[i] <= crate::PRICE_MAX,
    ensures
        r@.len() == sma@.len(),
        forall|i: int| 0 <= i < r@.len() ==> #[trigger] r@[i] as int
            == stddev_at(data@, sma@[i] as int, period as int, i),
        forall|i: int| 0 <= i < r@.len() ==> 0 <= #[trigger] r@[i] <= crate::PRICE_MAX,
{
    let nd: usize = data.len();
    let mut out: Vec<i64> = Vec::new();
    let mut i: usize = 0;
    while i < sma.len()
        invariant
            1 <= period,
            0 <= i <= sma@.len(),
            nd == data@.len(),
            sma@.len() + period <= data@.len() + 1,
            forall|k: int| 0 <= k < data@.len() ==> 0 <= #[trigger] data@[k]
                <= crate::PRICE_MAX,
            forall|k: int| 0 <= k < sma@.len() ==> 0 <= #[trigger] sma@[k] <= crate::PRICE_MAX,
            out@.len() == i,
            forall|k: int| 0 <= k < out@.len() ==> #[trigger] out@[k] as int
                == stddev_at(data@, sma@[k] as int, period as int, k),
            forall|k: int| 0 <= k < out@.len() ==> 0 <= #[trigger] out@[k] <= crate::PRICE_MAX,
        decreases sma@.len() - i,
    {
        let m: i64 = sma[i];
        let mut ssum: i128 = 0;
        let mut j: usize = 0;
        while j < period
            invariant
                1 <= period,
                0 <= j <= period,
                0 <= i < sma@.len(),
                nd == data@.len(),
                sma@.len() + period <= data@.len() + 1,
                m == sma@[i as int],
                0 <= m <= crate::PRICE_MAX,
                forall|k: int| 0 <= k < data@.len() ==> 0 <= #[trigger] data@[k]
                    <= crate::PRICE_MAX,
                ssum as int == sq_dev_sum(data@, m as int, i as int, i + j),
                0 <= ssum as int <= (j as int) * (DEV_SQ_MAX as int),
            decreases period - j,
        {
            proof {
                lemma_mul_step(j as int, DEV_SQ_MAX as int);
                lemma_mul_inequality((j + 1) as int, period as int, DEV_SQ_MAX as int);
                lemma_mul_inequality(period as int, usize::MAX as int, DEV_SQ_MAX as int);
            }
            assert(i + j < data@.len());
            let diff: i64 = data[i + j] - m;
            proof {
                assert(0 <= (diff as int) * (diff as int) <= DEV_SQ_MAX as int)
                    by (nonlinear_arith)
                    requires -(crate::PRICE_MAX as int) <= diff as int <= crate::PRICE_MAX as int
                        && DEV_SQ_MAX as int == (crate::PRICE_MAX as int) * (crate::PRICE_MAX
                        as int);
            }
            let sq: i128 = (diff as i128) * (diff as i128);
            ssum = ssum + sq;
            j = j + 1;
        }
        proof {
            lemma_mul_inequality(period as int, usize::MAX as int, DEV_SQ_MAX as int);
            assert((period as int) * 0 == 0) by (nonlinear_arith);
            assert((period as int) * (DEV_SQ_MAX as int) == (DEV_SQ_MAX as int) * (period as int))
                by (nonlinear_arith);
            lemma_div_trunc_between(ssum as int, period as int, 0, DEV_SQ_MAX as int);
        }
        let var: i128 = div_trunc_i128(ssum, period as i128);
        let std: u64 = isqrt_u64(var as u64);
        proof {
            lemma_isqrt_at_props(var as int);
            let rt = isqrt_at(var as int);
            assert(rt <= crate::PRICE_MAX as int) by (nonlinear_arith)
                requires rt >= 0 && rt * rt <= var as int
                    && var as int <= DEV_SQ_MAX as int
                    && DEV_SQ_MAX as int == (crate::PRICE_MAX as int) * (crate::PRICE_MAX as int);
        }
        out.push(std as i64);
        i = i + 1;
    }
    out
}

/// The largest `r` with `r * r <= v`, found by bisection on the invariant
/// `lo * lo <= v < hi * hi`.
pub fn isqrt_u64(v: u64) -> (r: u64)
    ensures
        r as int == isqrt_at(v as int),
{
    let mut lo: u64 = 0;
    let mut hi: u64 = 4_294_967_296;
    proof {
        assert((4_294_967_296 as int) * (4_294_967_296 as int) > u64::MAX as int)
            by (nonlinear_arith);
    }
    while lo + 1 < hi
        invariant
            lo < hi,
            hi <= 4_294_967_296,
            (lo as int) * (lo as int) <= v as int,
            (v as int) < (hi as int) * (hi as int),
        decreases hi - lo,
    {
        let mid: u64 = lo + (hi - lo) / 2;
        proof {
            assert((mid as int) * (mid as int) <= u128::MAX as int) by (nonlinear_arith)
                requires 0 <= mid as int <= 4_294_967_296;
        }
        if (mid as u128) * (mid as u128) <= (v as u128) {
            lo = mid;
        } else {
            hi = mid;
        }
    }
    proof {
        lemma_isqrt_unique(v as int, lo as int);
    }
    lo
}

} // verus!
