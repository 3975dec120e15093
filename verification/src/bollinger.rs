//! Volatility engine: Bollinger bands around the sliding mean, with the
//! derived bandwidth and %B position, and the volatility classification.

use vstd::prelude::*;
use vstd::arithmetic::mul::lemma_mul_inequality;
use crate::math::{
    calculate_sma, calculate_std_dev, div_trunc, div_trunc_i128, lemma_div_trunc_between,
    lemma_div_trunc_magnitude, lemma_range_sum_bounds, range_sum, sma_at, stddev_at,
};
use crate::types::{BollingerBands, IndicatorError, Volatility};
use crate::PRICE_MAX;

verus! {

/// Bandwidth above which the regime is read as high volatility, in percent.
pub const BOLLINGER_HIGH_VOLATILITY: i64 = 30;

/// Bandwidth below which the regime is read as low volatility, in percent.
pub const BOLLINGER_LOW_VOLATILITY: i64 = 10;

/// Largest admissible deviation multiplier, so that the band offset stays in
/// range.
pub const DEVIATIONS_MAX: i64 = 10_000_000;

/// The standard deviation of window `i`, taken around that window's own
/// sliding mean.
pub open spec fn boll_dev(s: Seq<i64>, p: int, i: int) -> int {
    stddev_at(s, sma_at(s, p, i), p, i)
}

/// Upper band: mean plus `k` standard deviations.
pub open spec fn boll_upper(s: Seq<i64>, p: int, k: int, i: int) -> int {
    sma_at(s, p, i) + k * boll_dev(s, p, i)
}

/// Lower band: mean minus `k` standard deviations.
pub open spec fn boll_lower(s: Seq<i64>, p: int, k: int, i: int) -> int {
    sma_at(s, p, i) - k * boll_dev(s, p, i)
}

/// Band width relative to the mean, in percent.
pub open spec fn boll_bandwidth(s: Seq<i64>, p: int, k: int, i: int) -> int {
    div_trunc((boll_upper(s, p, k, i) - boll_lower(s, p, k, i)) * 100, sma_at(s, p, i))
}

/// Position of the window's last price inside the band, in percent.
pub open spec fn boll_percent_b(s: Seq<i64>, p: int, k: int, i: int) -> int {
    div_trunc(
        (s[i + p - 1] - boll_lower(s, p, k, i)) * 100,
        boll_upper(s, p, k, i) - boll_lower(s, p, k, i),
    )
}

/// What `calculate_bollinger` promises: the parameter and length checks
/// decide the error exactly, a window whose mean is zero is refused as an
/// undefined ratio, and on success every array has one entry per window, the
/// bands follow the mean and deviation formulas, the bands are ordered with
/// a non-negative bandwidth, and %B is present exactly where the band has
/// width.
pub open spec fn bollinger_post(
    s: Seq<i64>,
    period: int,
    k: int,
    r: Result<BollingerBands, IndicatorError>,
) -> bool {
    let len = s.len() - period + 1;
    &&& (r == Err::<BollingerBands, IndicatorError>(IndicatorError::InvalidParameter) <==> period
        == 0 || k <= 0)
    &&& (r == Err::<BollingerBands, IndicatorError>(IndicatorError::InsufficientData) <==> period
        >= 1 && k >= 1 && s.len() < period)
    &&& (r == Err::<BollingerBands, IndicatorError>(IndicatorError::UndefinedRatio) <==> period
        >= 1 && k >= 1 && s.len() >= period && exists|i: int|
        0 <= i < len && #[trigger] sma_at(s, period, i) == 0)
    &&& (r is Ok <==> period >= 1 && k >= 1 && s.len() >= period && forall|i: int|
        0 <= i < len ==> #[trigger] sma_at(s, period, i) >= 1)
    &&& (r is Ok ==> {
        let b = r->Ok_0;
        &&& b.middle_band@.len() == len
        &&& b.upper_band@.len() == len
        &&& b.lower_band@.len() == len
        &&& b.bandwidth@.len() == len
        &&& b.percent_b@.len() == len
        &&& (forall|i: int|
            0 <= i < len ==> #[trigger] b.middle_band@[i] as int == sma_at(s, period, i))
        &&& (forall|i: int|
            0 <= i < len ==> #[trigger] b.upper_band@[i] as int == boll_upper(s, period, k, i))
        &&& (forall|i: int|
            0 <= i < len ==> #[trigger] b.lower_band@[i] as int == boll_lower(s, period, k, i))
        &&& (forall|i: int|
            0 <= i < len ==> #[trigger] b.bandwidth@[i] as int == boll_bandwidth(s, period, k, i))
        &&& (forall|i: int|
            0 <= i < len ==> (#[trigger] b.percent_b@[i] is Some <==> boll_upper(s, period, k, i)
                != boll_lower(s, period, k, i)))
        &&& (forall|i: int|
            0 <= i < len ==> (#[trigger] b.percent_b@[i] matches Some(v) ==> v as int
                == boll_percent_b(s, period, k, i)))
        &&& (forall|i: int|
            0 <= i < len ==> #[trigger] b.upper_band@[i] >= b.middle_band@[i]
                >= b.lower_band@[i])
        &&& (forall|i: int| 0 <= i < len ==> #[trigger] b.bandwidth@[i] >= 0)
    })
}

/// Bollinger bands of the price series: for each window, the sliding mean,
/// the mean plus and minus `num_std_dev` population standard deviations, the
/// band width as a percentage of the mean, and the position of the window's
/// last price inside the band as a percentage. Fails with `InvalidParameter`
/// on a zero period or a non-positive multiplier, with `InsufficientData`
/// when the series is shorter than the period, and with `UndefinedRatio`
/// when some window's mean is zero; a zero-width band makes only that
/// window's %B undefined (`None`), not the whole call.
pub fn calculate_bollinger(data: &Vec<i64>, period: usize, num_std_dev: i64) -> (r: Result<
    BollingerBands,
    IndicatorError,
>)
    requires
        forall|i: int| 0 <= i < data@.len() ==> 0 <= #[trigger] data@[i] <= PRICE_MAX,
        num_std_dev <= DEVIATIONS_MAX,
    ensures
        bollinger_post(data@, period as int, num_std_dev as int, r),
{
    if period == 0 || num_std_dev <= 0 {
        return Err(IndicatorError::InvalidParameter);
    }
    let n: usize = data.len();
    if n < period {
        return Err(IndicatorError::InsufficientData);
    }
    let sma: Vec<i64> = match calculate_sma(data, period) {
        Ok(v) => v,
        Err(_) => {
            proof {
                assert(false);
            }
            return Err(IndicatorError::InsufficientData);
        },
    };
    proof {
        assert forall|i: int| 0 <= i < sma@.len() implies 0 <= #[trigger] sma_at(
            data@,
            period as int,
            i,
        ) <= PRICE_MAX by {
            lemma_range_sum_bounds(data@, i, i + period, 0, PRICE_MAX as int);
            assert((period as int) * 0 == 0) by (nonlinear_arith);
            assert((period as int) * (PRICE_MAX as int) == (PRICE_MAX as int) * (period as int))
                by (nonlinear_arith);
            lemma_div_trunc_between(
                range_sum(data@, i, i + period),
                period as int,
                0,
                PRICE_MAX as int,
            );
        }
    }
    let mut z: usize = 0;
    while z < sma.len()
        invariant
            0 <= z <= sma@.len(),
            sma@.len() == data@.len() - period + 1,
            1 <= period <= data@.len(),
            1 <= num_std_dev,
            forall|i: int| 0 <= i < sma@.len() ==> #[trigger] sma@[i] as int == sma_at(
                data@,
                period as int,
                i,
            ),
            forall|i: int| 0 <= i < sma@.len() ==> 0 <= #[trigger] sma_at(
                data@,
                period as int,
                i,
            ) <= PRICE_MAX,
            forall|i: int| 0 <= i < z ==> #[trigger] sma_at(data@, period as int, i) >= 1,
        decreases sma@.len() - z,
    {
        if sma[z] == 0 {
            proof {
                assert(sma_at(data@, period as int, z as int) == 0);
            }
            return Err(IndicatorError::UndefinedRatio);
        }
        z = z + 1;
    }
    let std_dev: Vec<i64> = calculate_std_dev(data, period, &sma);
    let mut upper_band: Vec<i64> = Vec::new();
    let mut lower_band: Vec<i64> = Vec::new();
    let mut bandwidth: Vec<i64> = Vec::new();
    let mut percent_b: Vec<Option<i64>> = Vec::new();
    let mut i: usize = 0;
    while i < sma.len()
        invariant
            0 <= i <= sma@.len(),
            n == data@.len(),
            sma@.len() == data@.len() - period + 1,
            1 <= period <= data@.len(),
            1 <= num_std_dev <= DEVIATIONS_MAX,
            std_dev@.len() == sma@.len(),
            forall|t: int| 0 <= t < data@.len() ==> 0 <= #[trigger] data@[t] <= PRICE_MAX,
            forall|t: int| 0 <= t < sma@.len() ==> #[trigger] sma@[t] as int == sma_at(
                data@,
                period as int,
                t,
            ),
            forall|t: int| 0 <= t < sma@.len() ==> 1 <= #[trigger] sma_at(
                data@,
                period as int,
                t,
            ) <= PRICE_MAX,
            forall|t: int| 0 <= t < std_dev@.len() ==> #[trigger] std_dev@[t] as int == stddev_at(
                data@,
                sma@[t] as int,
                period as int,
                t,
            ),
            forall|t: int| 0 <= t < std_dev@.len() ==> 0 <= #[trigger] std_dev@[t] <= PRICE_MAX,
            upper_band@.len() == i,
            lower_band@.len() == i,
            bandwidth@.len() == i,
            percent_b@.len() == i,
            forall|t: int| 0 <= t < i ==> #[trigger] upper_band@[t] as int == boll_upper(
                data@,
                period as int,
                num_std_dev as int,
                t,
            ),
            forall|t: int| 0 <= t < i ==> #[trigger] lower_band@[t] as int == boll_lower(
                data@,
                period as int,
                num_std_dev as int,
                t,
            ),
            forall|t: int| 0 <= t < i ==> #[trigger] bandwidth@[t] as int == boll_bandwidth(
                data@,
                period as int,
                num_std_dev as int,
                t,
            ),
            forall|t: int| 0 <= t < i ==> (#[trigger] percent_b@[t] is Some <==> boll_upper(
                data@,
                period as int,
                num_std_dev as int,
                t,
            ) != boll_lower(data@, period as int, num_std_dev as int, t)),
            forall|t: int| 0 <= t < i ==> (#[trigger] percent_b@[t] matches Some(v) ==> v as int
                == boll_percent_b(data@, period as int, num_std_dev as int, t)),
            forall|t: int| 0 <= t < i ==> #[trigger] upper_band@[t] >= sma@[t] >= lower_band@[t],
            forall|t: int| 0 <= t < i ==> #[trigger] bandwidth@[t] >= 0,
        decreases sma@.len() - i,
    {
        let m: i64 = sma[i];
        let sd: i64 = std_dev[i];
        proof {
            assert(0 <= (num_std_dev as int) * (sd as int) <= (DEVIATIONS_MAX as int) * (PRICE_MAX
                as int)) by (nonlinear_arith)
                requires 1 <= num_std_dev as int <= DEVIATIONS_MAX as int && 0 <= sd as int
                    <= PRICE_MAX as int;
        }
        let ksd: i64 = num_std_dev * sd;
        let upper: i64 = m + ksd;
        let lower: i64 = m - ksd;
        let num_bw: i128 = ((upper - lower) as i128) * 100;
        proof {
            lemma_div_trunc_magnitude(num_bw as int, m as int);
        }
        let bw: i64 = div_trunc_i128(num_bw, m as i128) as i64;
        upper_band.push(upper);
        lower_band.push(lower);
        bandwidth.push(bw);
        if upper == lower {
            percent_b.push(None);
        } else {
            let price: i64 = data[i + period - 1];
            let num_pb: i128 = ((price - lower) as i128) * 100;
            proof {
                lemma_div_trunc_magnitude(num_pb as int, (upper - lower) as int);
            }
            let pb: i64 = div_trunc_i128(num_pb, (upper - lower) as i128) as i64;
            percent_b.push(Some(pb));
        }
        i = i + 1;
    }
    Ok(
        BollingerBands {
            upper_band,
            middle_band: sma,
            lower_band,
            bandwidth,
            percent_b,
        },
    )
}

/// Reads a bandwidth percentage as a volatility regime against the two
/// configured thresholds.
pub fn interpret_volatility(bandwidth: i64) -> (v: Volatility)
    ensures
        v == Volatility::High <==> bandwidth > BOLLINGER_HIGH_VOLATILITY,
        v == Volatility::Low <==> bandwidth < BOLLINGER_LOW_VOLATILITY,
        v == Volatility::Normal <==> BOLLINGER_LOW_VOLATILITY <= bandwidth
            <= BOLLINGER_HIGH_VOLATILITY,
{
    if bandwidth > BOLLINGER_HIGH_VOLATILITY {
        Volatility::High
    } else if bandwidth < BOLLINGER_LOW_VOLATILITY {
        Volatility::Low
    } else {
        Volatility::Normal
    }
}

} // verus!
