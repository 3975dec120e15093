//! Trend engine: Moving Average Convergence/Divergence. The MACD line is the
//! difference of a fast and a slow exponential mean, aligned at the later of
//! their start offsets; the signal line is an exponential mean of the MACD
//! line, and the histogram is their aligned difference.

use vstd::prelude::*;
use crate::math::{calculate_ema, ema_at, ema_post, lemma_ema_at_bounds, VAL_MAX};
use crate::types::{IndicatorError, MacdResult};
use crate::PRICE_MAX;

verus! {

/// The larger of the two periods.
pub open spec fn max_period(fast: int, slow: int) -> int {
    if fast >= slow {
        fast
    } else {
        slow
    }
}

/// First input position carrying a MACD value.
pub open spec fn macd_start(fast: int, slow: int) -> int {
    max_period(fast, slow) - 1
}

/// The MACD line at output index `j`: the fast minus the slow exponential
/// mean, each read at its own offset from the shared start position.
pub open spec fn macd_at(s: Seq<i64>, fast: int, slow: int, j: int) -> int {
    ema_at(s, fast, macd_start(fast, slow) + j - (fast - 1)) - ema_at(
        s,
        slow,
        macd_start(fast, slow) + j - (slow - 1),
    )
}

/// What `calculate_macd` promises: the parameter and length checks decide
/// the error exactly; on success the three series have their documented
/// lengths, the MACD line follows `macd_at`, the signal line is the
/// exponential mean of the MACD line, and each histogram entry is the MACD
/// value at `j + signal - 1` minus the signal value at `j`.
pub open spec fn macd_post(
    s: Seq<i64>,
    fast: int,
    slow: int,
    signal: int,
    r: Result<MacdResult, IndicatorError>,
) -> bool {
    let maxp = max_period(fast, slow);
    &&& (r == Err::<MacdResult, IndicatorError>(IndicatorError::InvalidParameter) <==> fast == 0
        || slow == 0 || signal == 0)
    &&& (r == Err::<MacdResult, IndicatorError>(IndicatorError::InsufficientData) <==> fast >= 1
        && slow >= 1 && signal >= 1 && s.len() < maxp + signal - 1)
    &&& (r is Ok <==> fast >= 1 && slow >= 1 && signal >= 1 && s.len() >= maxp + signal - 1)
    &&& (r is Ok ==> {
        let m = r->Ok_0;
        &&& m.macd_line@.len() == s.len() - maxp + 1
        &&& (forall|j: int|
            0 <= j < m.macd_line@.len() ==> #[trigger] m.macd_line@[j] as int == macd_at(
                s,
                fast,
                slow,
                j,
            ))
        &&& m.signal_line@.len() == m.macd_line@.len() - signal + 1
        &&& (forall|j: int|
            0 <= j < m.signal_line@.len() ==> #[trigger] m.signal_line@[j] as int == ema_at(
                m.macd_line@,
                signal,
                j,
            ))
        &&& m.histogram@.len() == m.signal_line@.len()
        &&& (forall|j: int|
            0 <= j < m.histogram@.len() ==> #[trigger] m.histogram@[j] as int
                == m.macd_line@[j + signal - 1] - m.signal_line@[j])
    })
}

/// MACD of the price series: fast and slow exponential means, their aligned
/// difference, an exponential signal line over that difference, and the
/// histogram of the two. Fails with `InvalidParameter` when any period is
/// zero and with `InsufficientData` when the series is too short to carry at
/// least one histogram value.
pub fn calculate_macd(
    data: &Vec<i64>,
    fast_length: usize,
    slow_length: usize,
    signal_length: usize,
) -> (r: Result<MacdResult, IndicatorError>)
    requires
        forall|i: int| 0 <= i < data@.len() ==> 0 <= #[trigger] data@[i] <= PRICE_MAX,
    ensures
        macd_post(data@, fast_length as int, slow_length as int, signal_length as int, r),
{
    if fast_length == 0 || slow_length == 0 || signal_length == 0 {
        return Err(IndicatorError::InvalidParameter);
    }
    let n: usize = data.len();
    let maxp: usize = if fast_length >= slow_length {
        fast_length
    } else {
        slow_length
    };
    if n < maxp {
        return Err(IndicatorError::InsufficientData);
    }
    if n - maxp + 1 < signal_length {
        return Err(IndicatorError::InsufficientData);
    }
    let fast_ema: Vec<i64> = match calculate_ema(data, fast_length) {
        Ok(v) => v,
        Err(_) => {
            proof {
                assert(false);
            }
            return Err(IndicatorError::InsufficientData);
        },
    };
    let slow_ema: Vec<i64> = match calculate_ema(data, slow_length) {
        Ok(v) => v,
        Err(_) => {
            proof {
                assert(false);
            }
            return Err(IndicatorError::InsufficientData);
        },
    };
    proof {
        assert forall|k: int| 0 <= k < fast_ema@.len() implies 0 <= #[trigger] ema_at(
            data@,
            fast_length as int,
            k,
        ) <= PRICE_MAX by {
            lemma_ema_at_bounds(data@, fast_length as int, 0, PRICE_MAX as int, k);
        }
        assert forall|k: int| 0 <= k < slow_ema@.len() implies 0 <= #[trigger] ema_at(
            data@,
            slow_length as int,
            k,
        ) <= PRICE_MAX by {
            lemma_ema_at_bounds(data@, slow_length as int, 0, PRICE_MAX as int, k);
        }
    }
    let mlen: usize = n - maxp + 1;
    let mut macd_line: Vec<i64> = Vec::new();
    let mut j: usize = 0;
    while j < mlen
        invariant
            0 <= j <= mlen,
            1 <= fast_length <= maxp,
            1 <= slow_length <= maxp,
            maxp == max_period(fast_length as int, slow_length as int),
            maxp <= n == data@.len(),
            mlen == n - maxp + 1,
            fast_ema@.len() == n - fast_length + 1,
            slow_ema@.len() == n - slow_length + 1,
            forall|k: int| 0 <= k < fast_ema@.len() ==> #[trigger] fast_ema@[k] as int == ema_at(
                data@,
                fast_length as int,
                k,
            ),
            forall|k: int| 0 <= k < slow_ema@.len() ==> #[trigger] slow_ema@[k] as int == ema_at(
                data@,
                slow_length as int,
                k,
            ),
            forall|k: int| 0 <= k < fast_ema@.len() ==> 0 <= #[trigger] fast_ema@[k] <= PRICE_MAX,
            forall|k: int| 0 <= k < slow_ema@.len() ==> 0 <= #[trigger] slow_ema@[k] <= PRICE_MAX,
            macd_line@.len() == j,
            forall|k: int| 0 <= k < j ==> #[trigger] macd_line@[k] as int == macd_at(
                data@,
                fast_length as int,
                slow_length as int,
                k,
            ),
            forall|k: int| 0 <= k < j ==> -PRICE_MAX <= #[trigger] macd_line@[k] <= PRICE_MAX,
        decreases mlen - j,
    {
        let fe: i64 = fast_ema[j + (maxp - fast_length)];
        let se: i64 = slow_ema[j + (maxp - slow_length)];
        macd_line.push(fe - se);
        j = j + 1;
    }
    let signal_line: Vec<i64> = match calculate_ema(&macd_line, signal_length) {
        Ok(v) => v,
        Err(_) => {
            proof {
                assert(false);
            }
            return Err(IndicatorError::InsufficientData);
        },
    };
    let slen: usize = mlen - signal_length + 1;
    let mut histogram: Vec<i64> = Vec::new();
    let mut h: usize = 0;
    while h < slen
        invariant
            0 <= h <= slen,
            1 <= signal_length,
            slen == mlen - signal_length + 1,
            macd_line@.len() == mlen,
            signal_line@.len() == slen,
            forall|k: int| 0 <= k < mlen ==> -PRICE_MAX <= #[trigger] macd_line@[k] <= PRICE_MAX,
            forall|k: int| 0 <= k < slen ==> -VAL_MAX <= #[trigger] signal_line@[k] <= VAL_MAX,
            histogram@.len() == h,
            forall|k: int| 0 <= k < h ==> #[trigger] histogram@[k] as int
                == macd_line@[k + signal_length - 1] - signal_line@[k],
        decreases slen - h,
    {
        let v: i64 = macd_line[h + signal_length - 1] - signal_line[h];
        histogram.push(v);
        h = h + 1;
    }
    Ok(MacdResult { macd_line, signal_line, histogram })
}

} // verus!
