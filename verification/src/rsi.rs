//! Momentum engine: the Relative Strength Index, a bounded oscillator built
//! from Wilder-smoothed averages of the per-step gains and losses.
//!
//! The smoothed averages are kept at a finer fixed-point scale
//! ([`RSI_SCALE`] steps per price unit) so that small losses or gains do not
//! vanish in integer division, and the pure-gain and pure-loss regimes are
//! decided on the exact totals, never on a truncated average.

use vstd::prelude::*;
use vstd::arithmetic::div_mod::{lemma_div_basics_4, lemma_div_is_ordered, lemma_div_multiples_vanish};
use vstd::arithmetic::mul::lemma_mul_inequality;
use crate::math::{div_trunc_i128, lemma_div_trunc_between, lemma_mul_step};
use crate::types::IndicatorError;
use crate::PRICE_MAX;

verus! {

/// Fixed-point scale of the smoothed averages: price units are carried with
/// this many extra steps of precision through the smoothing recurrence.
pub const RSI_SCALE: i64 = 10_000;

/// Largest value a scaled smoothed average can take.
pub const AVG_MAX: i64 = 10_000_000_000_000;

/// The price change from step `k` to step `k + 1`.
pub open spec fn delta_at(s: Seq<i64>, k: int) -> int {
    s[k + 1] - s[k]
}

/// The gain at step `k`: the positive part of the delta.
pub open spec fn gain_at(s: Seq<i64>, k: int) -> int {
    if delta_at(s, k) >= 0 {
        delta_at(s, k)
    } else {
        0
    }
}

/// The loss at step `k`: the positive part of the negated delta.
pub open spec fn loss_at(s: Seq<i64>, k: int) -> int {
    if delta_at(s, k) >= 0 {
        0
    } else {
        -delta_at(s, k)
    }
}

/// Sum of the gains at steps `[lo, hi)`.
pub open spec fn gain_sum(s: Seq<i64>, lo: int, hi: int) -> int
    decreases hi - lo,
{
    if lo >= hi {
        0
    } else {
        gain_sum(s, lo, hi - 1) + gain_at(s, hi - 1)
    }
}

/// Sum of the losses at steps `[lo, hi)`.
pub open spec fn loss_sum(s: Seq<i64>, lo: int, hi: int) -> int
    decreases hi - lo,
{
    if lo >= hi {
        0
    } else {
        loss_sum(s, lo, hi - 1) + loss_at(s, hi - 1)
    }
}

/// Wilder-smoothed average gain at output index `j`, at [`RSI_SCALE`]
/// precision: the scaled plain mean of the first `p` gains, then
/// `avg = (avg * (p - 1) + gain * RSI_SCALE) / p` for each later step.
pub open spec fn avg_gain_at(s: Seq<i64>, p: int, j: int) -> int
    decreases j,
{
    if j <= 0 {
        gain_sum(s, 0, p) * RSI_SCALE / p
    } else {
        (avg_gain_at(s, p, j - 1) * (p - 1) + gain_at(s, p - 1 + j) * RSI_SCALE) / p
    }
}

/// Wilder-smoothed average loss at output index `j`, at [`RSI_SCALE`]
/// precision.
pub open spec fn avg_loss_at(s: Seq<i64>, p: int, j: int) -> int
    decreases j,
{
    if j <= 0 {
        loss_sum(s, 0, p) * RSI_SCALE / p
    } else {
        (avg_loss_at(s, p, j - 1) * (p - 1) + loss_at(s, p - 1 + j) * RSI_SCALE) / p
    }
}

/// The index value at output index `j`. The regimes are decided on the exact
/// totals over the steps `[0, p + j)` that have fed the averages: no loss at
/// all is the pure-gain regime (exact average loss zero, value 100), no gain
/// at all is the pure-loss regime (value 0). Otherwise the value is
/// `100 * g / (g + l)` — the integer form of `100 - 100 / (1 + g / l)` —
/// over the scaled smoothed averages, falling back to the same ratio over
/// the exact totals in the corner where both scaled averages truncate to
/// zero.
pub open spec fn rsi_at(s: Seq<i64>, p: int, j: int) -> int {
    let g = avg_gain_at(s, p, j);
    let l = avg_loss_at(s, p, j);
    let gt = gain_sum(s, 0, p + j);
    let lt = loss_sum(s, 0, p + j);
    if lt == 0 {
        100
    } else if gt == 0 {
        0
    } else if g + l >= 1 {
        (100 * g) / (g + l)
    } else {
        (100 * gt) / (gt + lt)
    }
}

/// Each gain and loss lies in `[0, PRICE_MAX]` when the prices do.
proof fn lemma_step_bounds(s: Seq<i64>, k: int)
    requires
        0 <= k,
        k + 1 < s.len(),
        forall|i: int| 0 <= i < s.len() ==> 0 <= #[trigger] s[i] <= PRICE_MAX,
    ensures
        0 <= gain_at(s, k) <= PRICE_MAX,
        0 <= loss_at(s, k) <= PRICE_MAX,
{
}

/// A sum of `hi - lo` gains lies in `[0, (hi - lo) * PRICE_MAX]`, and the
/// same for losses.
proof fn lemma_step_sum_bounds(s: Seq<i64>, lo: int, hi: int)
    requires
        0 <= lo <= hi,
        hi + 1 <= s.len(),
        forall|i: int| 0 <= i < s.len() ==> 0 <= #[trigger] s[i] <= PRICE_MAX,
    ensures
        0 <= gain_sum(s, lo, hi) <= (hi - lo) * (PRICE_MAX as int),
        0 <= loss_sum(s, lo, hi) <= (hi - lo) * (PRICE_MAX as int),
    decreases hi - lo,
{
    if lo >= hi {
        assert((hi - lo) * (PRICE_MAX as int) == 0) by (nonlinear_arith)
            requires hi == lo;
    } else {
        lemma_step_sum_bounds(s, lo, hi - 1);
        lemma_step_bounds(s, hi - 1);
        assert((hi - lo) * (PRICE_MAX as int) == (hi - 1 - lo) * (PRICE_MAX as int)
            + PRICE_MAX as int) by (nonlinear_arith);
    }
}

/// The scaled smoothed averages stay within `[0, AVG_MAX]`.
proof fn lemma_avg_bounds(s: Seq<i64>, p: int, j: int)
    requires
        1 <= p,
        0 <= j,
        p + j + 1 <= s.len(),
        forall|i: int| 0 <= i < s.len() ==> 0 <= #[trigger] s[i] <= PRICE_MAX,
    ensures
        0 <= avg_gain_at(s, p, j) <= AVG_MAX,
        0 <= avg_loss_at(s, p, j) <= AVG_MAX,
    decreases j,
{
    if j <= 0 {
        lemma_step_sum_bounds(s, 0, p);
        assert(0 <= gain_sum(s, 0, p) * (RSI_SCALE as int) <= (AVG_MAX as int) * p)
            by (nonlinear_arith)
            requires 0 <= gain_sum(s, 0, p) <= p * (PRICE_MAX as int)
                && AVG_MAX as int == (PRICE_MAX as int) * (RSI_SCALE as int);
        assert(0 <= loss_sum(s, 0, p) * (RSI_SCALE as int) <= (AVG_MAX as int) * p)
            by (nonlinear_arith)
            requires 0 <= loss_sum(s, 0, p) <= p * (PRICE_MAX as int)
                && AVG_MAX as int == (PRICE_MAX as int) * (RSI_SCALE as int);
        assert(p * 0 == 0) by (nonlinear_arith);
        assert(p * (AVG_MAX as int) == (AVG_MAX as int) * p) by (nonlinear_arith);
        lemma_div_trunc_between(gain_sum(s, 0, p) * RSI_SCALE, p, 0, AVG_MAX as int);
        lemma_div_trunc_between(loss_sum(s, 0, p) * RSI_SCALE, p, 0, AVG_MAX as int);
    } else {
        lemma_avg_bounds(s, p, j - 1);
        lemma_step_bounds(s, p - 1 + j);
        let gn = avg_gain_at(s, p, j - 1) * (p - 1) + gain_at(s, p - 1 + j) * RSI_SCALE;
        let ln = avg_loss_at(s, p, j - 1) * (p - 1) + loss_at(s, p - 1 + j) * RSI_SCALE;
        assert(0 <= gn <= (AVG_MAX as int) * p) by (nonlinear_arith)
            requires 0 <= avg_gain_at(s, p, j - 1) <= AVG_MAX as int
                && 0 <= gain_at(s, p - 1 + j) <= PRICE_MAX as int && p >= 1
                && AVG_MAX as int == (PRICE_MAX as int) * (RSI_SCALE as int)
                && gn == avg_gain_at(s, p, j - 1) * (p - 1) + gain_at(s, p - 1 + j) * RSI_SCALE;
        assert(0 <= ln <= (AVG_MAX as int) * p) by (nonlinear_arith)
            requires 0 <= avg_loss_at(s, p, j - 1) <= AVG_MAX as int
                && 0 <= loss_at(s, p - 1 + j) <= PRICE_MAX as int && p >= 1
                && AVG_MAX as int == (PRICE_MAX as int) * (RSI_SCALE as int)
                && ln == avg_loss_at(s, p, j - 1) * (p - 1) + loss_at(s, p - 1 + j) * RSI_SCALE;
        assert(p * 0 == 0) by (nonlinear_arith);
        assert(p * (AVG_MAX as int) == (AVG_MAX as int) * p) by (nonlinear_arith);
        lemma_div_trunc_between(gn, p, 0, AVG_MAX as int);
        lemma_div_trunc_between(ln, p, 0, AVG_MAX as int);
    }
}

/// `100 * g / den` lies in `[0, 100]` whenever `0 <= g <= den` and the
/// divisor is positive.
proof fn lemma_ratio_range(g: int, den: int)
    requires
        0 <= g <= den,
        1 <= den,
    ensures
        0 <= (100 * g) / den <= 100,
{
    lemma_div_basics_4(100 * g, den);
    lemma_div_is_ordered(100 * g, 100 * den, den);
    lemma_div_multiples_vanish(100, den);
    assert(100 * den == den * 100) by (nonlinear_arith);
}

/// A prefix of steps with non-negative deltas sums to zero loss.
proof fn lemma_loss_sum_zero(s: Seq<i64>, hi: int)
    requires
        0 <= hi,
        forall|k: int| 0 <= k < hi ==> #[trigger] delta_at(s, k) >= 0,
    ensures
        loss_sum(s, 0, hi) == 0,
    decreases hi,
{
    if hi > 0 {
        lemma_loss_sum_zero(s, hi - 1);
    }
}

/// A prefix of steps with non-positive deltas sums to zero gain.
proof fn lemma_gain_sum_zero(s: Seq<i64>, hi: int)
    requires
        0 <= hi,
        forall|k: int| 0 <= k < hi ==> #[trigger] delta_at(s, k) <= 0,
    ensures
        gain_sum(s, 0, hi) == 0,
    decreases hi,
{
    if hi > 0 {
        lemma_gain_sum_zero(s, hi - 1);
    }
}

/// Loss sums are sums of non-negative terms.
proof fn lemma_loss_sum_nonneg(s: Seq<i64>, hi: int)
    requires
        0 <= hi,
    ensures
        loss_sum(s, 0, hi) >= 0,
    decreases hi,
{
    if hi > 0 {
        lemma_loss_sum_nonneg(s, hi - 1);
    }
}

/// One falling step anywhere in the prefix makes the loss sum positive.
proof fn lemma_loss_sum_pos(s: Seq<i64>, k: int, hi: int)
    requires
        0 <= k < hi,
        delta_at(s, k) < 0,
    ensures
        loss_sum(s, 0, hi) >= 1,
    decreases hi,
{
    if k == hi - 1 {
        lemma_loss_sum_nonneg(s, hi - 1);
    } else {
        lemma_loss_sum_pos(s, k, hi - 1);
    }
}

/// What `calculate_rsi` promises: the parameter and length checks decide the
/// error exactly; on success there is one output per delta beyond the seed
/// window, each equal to the smoothed index value, each within `[0, 100]`,
/// exactly 100 wherever no loss has fed the averages, and exactly 0 wherever
/// some loss but no gain has.
pub open spec fn rsi_post(s: Seq<i64>, period: int, r: Result<Vec<i64>, IndicatorError>) -> bool {
    &&& (r == Err::<Vec<i64>, IndicatorError>(IndicatorError::InvalidParameter) <==> period == 0)
    &&& (r == Err::<Vec<i64>, IndicatorError>(IndicatorError::InsufficientData) <==> period >= 1
        && s.len() <= period)
    &&& (r is Ok <==> period >= 1 && s.len() > period)
    &&& (r is Ok ==> r->Ok_0@.len() == s.len() - period)
    &&& (r is Ok ==> forall|j: int|
        0 <= j < r->Ok_0@.len() ==> #[trigger] r->Ok_0@[j] as int == rsi_at(s, period, j))
    &&& (r is Ok ==> forall|j: int|
        0 <= j < r->Ok_0@.len() ==> 0 <= #[trigger] r->Ok_0@[j] <= 100)
    &&& (r is Ok ==> forall|j: int|
        0 <= j < r->Ok_0@.len() && (forall|k: int|
            0 <= k < period + j ==> #[trigger] delta_at(s, k) >= 0) ==> #[trigger] r->Ok_0@[j]
            == 100)
    &&& (r is Ok ==> forall|j: int|
        0 <= j < r->Ok_0@.len() && (forall|k: int|
            0 <= k < period + j ==> #[trigger] delta_at(s, k) <= 0) && (exists|k: int|
            0 <= k < period + j && #[trigger] delta_at(s, k) < 0) ==> #[trigger] r->Ok_0@[j]
            == 0)
}

/// Relative Strength Index over the price series. Per-step gains and losses
/// are averaged over the first `period` steps and then Wilder-smoothed at
/// [`RSI_SCALE`] precision; each output is `100 * gain / (gain + loss)` in
/// integer arithmetic, with the pure-gain regime defined as exactly 100 and
/// the pure-loss regime as exactly 0, both decided on the exact totals.
/// Fails with `InvalidParameter` on a zero period and with
/// `InsufficientData` when the series has no step beyond the seed window.
pub fn calculate_rsi(data: &Vec<i64>, period: usize) -> (r: Result<Vec<i64>, IndicatorError>)
    requires
        forall|i: int| 0 <= i < data@.len() ==> 0 <= #[trigger] data@[i] <= PRICE_MAX,
    ensures
        rsi_post(data@, period as int, r),
{
    if period == 0 {
        return Err(IndicatorError::InvalidParameter);
    }
    let n: usize = data.len();
    if n <= period {
        return Err(IndicatorError::InsufficientData);
    }
    let mut gains: Vec<i64> = Vec::new();
    let mut losses: Vec<i64> = Vec::new();
    let mut k: usize = 1;
    while k < n
        invariant
            1 <= k <= n,
            n == data@.len(),
            forall|i: int| 0 <= i < data@.len() ==> 0 <= #[trigger] data@[i] <= PRICE_MAX,
            gains@.len() == k - 1,
            losses@.len() == k - 1,
            forall|t: int| 0 <= t < k - 1 ==> #[trigger] gains@[t] as int == gain_at(data@, t),
            forall|t: int| 0 <= t < k - 1 ==> #[trigger] losses@[t] as int == loss_at(data@, t),
            forall|t: int| 0 <= t < k - 1 ==> 0 <= #[trigger] gains@[t] <= PRICE_MAX,
            forall|t: int| 0 <= t < k - 1 ==> 0 <= #[trigger] losses@[t] <= PRICE_MAX,
        decreases n - k,
    {
        let d: i64 = data[k] - data[k - 1];
        if d >= 0 {
            gains.push(d);
            losses.push(0);
        } else {
            gains.push(0);
            losses.push(-d);
        }
        k = k + 1;
    }
    let mut gtot: i128 = 0;
    let mut ltot: i128 = 0;
    let mut j: usize = 0;
    while j < period
        invariant
            0 <= j <= period,
            period < n == data@.len(),
            gains@.len() == n - 1,
            losses@.len() == n - 1,
            forall|t: int| 0 <= t < n - 1 ==> #[trigger] gains@[t] as int == gain_at(data@, t),
            forall|t: int| 0 <= t < n - 1 ==> #[trigger] losses@[t] as int == loss_at(data@, t),
            forall|t: int| 0 <= t < n - 1 ==> 0 <= #[trigger] gains@[t] <= PRICE_MAX,
            forall|t: int| 0 <= t < n - 1 ==> 0 <= #[trigger] losses@[t] <= PRICE_MAX,
            gtot as int == gain_sum(data@, 0, j as int),
            ltot as int == loss_sum(data@, 0, j as int),
            0 <= gtot as int <= (j as int) * (PRICE_MAX as int),
            0 <= ltot as int <= (j as int) * (PRICE_MAX as int),
        decreases period - j,
    {
        proof {
            lemma_mul_step(j as int, PRICE_MAX as int);
            lemma_mul_inequality((j + 1) as int, n as int, PRICE_MAX as int);
            lemma_mul_inequality(n as int, usize::MAX as int, PRICE_MAX as int);
        }
        gtot = gtot + (gains[j] as i128);
        ltot = ltot + (losses[j] as i128);
        j = j + 1;
    }
    proof {
        lemma_mul_inequality(period as int, usize::MAX as int, PRICE_MAX as int);
        assert(0 <= (gtot as int) * (RSI_SCALE as int)
            <= 200_000_000_000_000_000_000_000_000_000_000) by (nonlinear_arith)
            requires 0 <= gtot as int <= 20_000_000_000_000_000_000_000_000_000;
        assert(0 <= (ltot as int) * (RSI_SCALE as int)
            <= 200_000_000_000_000_000_000_000_000_000_000) by (nonlinear_arith)
            requires 0 <= ltot as int <= 20_000_000_000_000_000_000_000_000_000;
        assert((gtot as int) * (RSI_SCALE as int) <= (AVG_MAX as int) * (period as int))
            by (nonlinear_arith)
            requires 0 <= gtot as int <= (period as int) * (PRICE_MAX as int)
                && AVG_MAX as int == (PRICE_MAX as int) * (RSI_SCALE as int);
        assert((ltot as int) * (RSI_SCALE as int) <= (AVG_MAX as int) * (period as int))
            by (nonlinear_arith)
            requires 0 <= ltot as int <= (period as int) * (PRICE_MAX as int)
                && AVG_MAX as int == (PRICE_MAX as int) * (RSI_SCALE as int);
        assert((period as int) * 0 == 0) by (nonlinear_arith);
        assert((period as int) * (AVG_MAX as int) == (AVG_MAX as int) * (period as int))
            by (nonlinear_arith);
        lemma_div_trunc_between((gtot as int) * (RSI_SCALE as int), period as int, 0,
            AVG_MAX as int);
        lemma_div_trunc_between((ltot as int) * (RSI_SCALE as int), period as int, 0,
            AVG_MAX as int);
    }
    let mut avg_gain: i64 = div_trunc_i128(gtot * (RSI_SCALE as i128), period as i128) as i64;
    let mut avg_loss: i64 = div_trunc_i128(ltot * (RSI_SCALE as i128), period as i128) as i64;
    let mut out: Vec<i64> = Vec::new();
    let first: i64 = rsi_value(avg_gain, avg_loss, gtot, ltot);
    out.push(first);
    let mut idx: usize = period;
    while idx < n - 1
        invariant
            1 <= period <= idx <= n - 1,
            period < n == data@.len(),
            forall|i: int| 0 <= i < data@.len() ==> 0 <= #[trigger] data@[i] <= PRICE_MAX,
            gains@.len() == n - 1,
            losses@.len() == n - 1,
            forall|t: int| 0 <= t < n - 1 ==> #[trigger] gains@[t] as int == gain_at(data@, t),
            forall|t: int| 0 <= t < n - 1 ==> #[trigger] losses@[t] as int == loss_at(data@, t),
            forall|t: int| 0 <= t < n - 1 ==> 0 <= #[trigger] gains@[t] <= PRICE_MAX,
            forall|t: int| 0 <= t < n - 1 ==> 0 <= #[trigger] losses@[t] <= PRICE_MAX,
            avg_gain as int == avg_gain_at(data@, period as int, idx - period),
            avg_loss as int == avg_loss_at(data@, period as int, idx - period),
            0 <= avg_gain <= AVG_MAX,
            0 <= avg_loss <= AVG_MAX,
            gtot as int == gain_sum(data@, 0, idx as int),
            ltot as int == loss_sum(data@, 0, idx as int),
            0 <= gtot as int <= (idx as int) * (PRICE_MAX as int),
            0 <= ltot as int <= (idx as int) * (PRICE_MAX as int),
            out@.len() == idx - period + 1,
            forall|t: int| 0 <= t < out@.len() ==> #[trigger] out@[t] as int
                == rsi_at(data@, period as int, t),
            forall|t: int| 0 <= t < out@.len() ==> 0 <= #[trigger] out@[t] <= 100,
        decreases n - idx,
    {
        let pm1: i128 = (period - 1) as i128;
        proof {
            lemma_mul_inequality(avg_gain as int, AVG_MAX as int, (period - 1) as int);
            lemma_mul_inequality(avg_loss as int, AVG_MAX as int, (period - 1) as int);
            lemma_mul_inequality((period - 1) as int, usize::MAX as int, AVG_MAX as int);
            assert((AVG_MAX as int) * ((period - 1) as int) == ((period - 1) as int)
                * (AVG_MAX as int)) by (nonlinear_arith);
            assert(0 <= (avg_gain as int) * ((period - 1) as int)) by (nonlinear_arith)
                requires 0 <= avg_gain as int && 0 <= (period - 1) as int;
            assert(0 <= (avg_loss as int) * ((period - 1) as int)) by (nonlinear_arith)
                requires 0 <= avg_loss as int && 0 <= (period - 1) as int;
        }
        let gnum: i128 = (avg_gain as i128) * pm1 + (gains[idx] as i128) * (RSI_SCALE as i128);
        let lnum: i128 = (avg_loss as i128) * pm1 + (losses[idx] as i128) * (RSI_SCALE as i128);
        proof {
            assert((period as int) * 0 == 0) by (nonlinear_arith);
            assert((period as int) * (AVG_MAX as int) == (AVG_MAX as int) * (period as int))
                by (nonlinear_arith);
            assert(gnum as int <= (AVG_MAX as int) * (period as int)) by (nonlinear_arith)
                requires gnum as int == (avg_gain as int) * ((period as int) - 1)
                    + (gains@[idx as int] as int) * (RSI_SCALE as int)
                    && 0 <= avg_gain as int <= AVG_MAX as int
                    && 0 <= gains@[idx as int] as int <= PRICE_MAX as int && period >= 1
                    && AVG_MAX as int == (PRICE_MAX as int) * (RSI_SCALE as int);
            assert(lnum as int <= (AVG_MAX as int) * (period as int)) by (nonlinear_arith)
                requires lnum as int == (avg_loss as int) * ((period as int) - 1)
                    + (losses@[idx as int] as int) * (RSI_SCALE as int)
                    && 0 <= avg_loss as int <= AVG_MAX as int
                    && 0 <= losses@[idx as int] as int <= PRICE_MAX as int && period >= 1
                    && AVG_MAX as int == (PRICE_MAX as int) * (RSI_SCALE as int);
            lemma_div_trunc_between(gnum as int, period as int, 0, AVG_MAX as int);
            lemma_div_trunc_between(lnum as int, period as int, 0, AVG_MAX as int);
            lemma_mul_step(idx as int, PRICE_MAX as int);
            lemma_mul_inequality((idx + 1) as int, n as int, PRICE_MAX as int);
            lemma_mul_inequality(n as int, usize::MAX as int, PRICE_MAX as int);
        }
        avg_gain = div_trunc_i128(gnum, period as i128) as i64;
        avg_loss = div_trunc_i128(lnum, period as i128) as i64;
        gtot = gtot + (gains[idx] as i128);
        ltot = ltot + (losses[idx] as i128);
        let v: i64 = rsi_value(avg_gain, avg_loss, gtot, ltot);
        out.push(v);
        idx = idx + 1;
    }
    proof {
        assert forall|t: int|
            0 <= t < out@.len() && (forall|k2: int|
                0 <= k2 < period + t ==> #[trigger] delta_at(data@, k2) >= 0)
            implies #[trigger] out@[t] == 100 by {
            lemma_loss_sum_zero(data@, period + t);
        }
        assert forall|t: int|
            0 <= t < out@.len() && (forall|k2: int|
                0 <= k2 < period + t ==> #[trigger] delta_at(data@, k2) <= 0) && (exists|k2: int|
                0 <= k2 < period + t && #[trigger] delta_at(data@, k2) < 0)
            implies #[trigger] out@[t] == 0 by {
            let kw = choose|k2: int| 0 <= k2 < period + t && #[trigger] delta_at(data@, k2) < 0;
            lemma_loss_sum_pos(data@, kw, period + t);
            lemma_gain_sum_zero(data@, period + t);
        }
    }
    Ok(out)
}

/// The bounded index value for one pair of scaled smoothed averages and the
/// exact totals that fed them.
fn rsi_value(avg_gain: i64, avg_loss: i64, gtot: i128, ltot: i128) -> (v: i64)
    requires
        0 <= avg_gain <= AVG_MAX,
        0 <= avg_loss <= AVG_MAX,
        0 <= gtot <= 20_000_000_000_000_000_000_000_000_000,
        0 <= ltot <= 20_000_000_000_000_000_000_000_000_000,
    ensures
        ltot == 0 ==> v == 100,
        ltot >= 1 && gtot == 0 ==> v == 0,
        ltot >= 1 && gtot >= 1 && avg_gain + avg_loss >= 1 ==> v as int == (100 * (avg_gain
            as int)) / (avg_gain as int + avg_loss as int),
        ltot >= 1 && gtot >= 1 && avg_gain + avg_loss == 0 ==> v as int == (100 * (gtot as int))
            / (gtot as int + ltot as int),
        0 <= v <= 100,
{
    if ltot == 0 {
        100
    } else if gtot == 0 {
        0
    } else if avg_gain + avg_loss >= 1 {
        proof {
            lemma_ratio_range(avg_gain as int, avg_gain as int + avg_loss as int);
        }
        let num: i128 = 100 * (avg_gain as i128);
        let den: i128 = (avg_gain as i128) + (avg_loss as i128);
        let q: i128 = div_trunc_i128(num, den);
        q as i64
    } else {
        proof {
            lemma_ratio_range(gtot as int, gtot as int + ltot as int);
        }
        let num: i128 = 100 * gtot;
        let den: i128 = gtot + ltot;
        let q: i128 = div_trunc_i128(num, den);
        q as i64
    }
}

} // verus!
