//! Retracement engine: window-local swing detection over the series, trend
//! classification against the swing midpoint, and the fixed table of
//! Fibonacci levels with their type and strength classifications.

use vstd::prelude::*;
use vstd::arithmetic::div_mod::{lemma_div_basics_1, lemma_div_multiples_vanish};
use crate::math::{div_trunc, lemma_range_minmax, range_max, range_min};
use crate::types::{
    fibonacci_ratios, ratio_table, FibRatio, FibonacciLevel, FibonacciLevels, IndicatorError,
    LevelStrength, LevelType, Trend,
};
use crate::PRICE_MAX;

verus! {

/// A point is a swing-high candidate when it exceeds every one of the `w`
/// points directly before it.
pub open spec fn is_high_cand(s: Seq<i64>, w: int, i: int) -> bool {
    &&& w <= i < s.len()
    &&& forall|k: int| i - w <= k < i ==> #[trigger] s[k] < s[i]
}

/// A point is a swing-low candidate when it is below every one of the `w`
/// points directly before it.
pub open spec fn is_low_cand(s: Seq<i64>, w: int, i: int) -> bool {
    &&& w <= i < s.len()
    &&& forall|k: int| i - w <= k < i ==> #[trigger] s[k] > s[i]
}

/// The largest swing-high candidate value at indices below `n`, if any.
pub open spec fn swing_high_upto(s: Seq<i64>, w: int, n: int) -> Option<int>
    decreases n,
{
    if n <= w || w <= 0 {
        None
    } else {
        let rest = swing_high_upto(s, w, n - 1);
        if is_high_cand(s, w, n - 1) {
            match rest {
                Option::None => Option::Some(s[n - 1] as int),
                Option::Some(h) => if s[n - 1] > h {
                    Option::Some(s[n - 1] as int)
                } else {
                    Option::Some(h)
                },
            }
        } else {
            rest
        }
    }
}

/// The smallest swing-low candidate value at indices below `n`, if any.
pub open spec fn swing_low_upto(s: Seq<i64>, w: int, n: int) -> Option<int>
    decreases n,
{
    if n <= w || w <= 0 {
        Option::None
    } else {
        let rest = swing_low_upto(s, w, n - 1);
        if is_low_cand(s, w, n - 1) {
            match rest {
                Option::None => Option::Some(s[n - 1] as int),
                Option::Some(l) => if s[n - 1] < l {
                    Option::Some(s[n - 1] as int)
                } else {
                    Option::Some(l)
                },
            }
        } else {
            rest
        }
    }
}

/// The swing pair: the largest high candidate and the smallest low
/// candidate. The pair is the explicit degenerate `(0, 0)` when the series
/// is shorter than the window, when either candidate set is empty, or when
/// the pair would be inverted.
pub open spec fn pivot_pair(s: Seq<i64>, w: int) -> (int, int) {
    match (swing_high_upto(s, w, s.len() as int), swing_low_upto(s, w, s.len() as int)) {
        (Option::Some(h), Option::Some(l)) => if h >= l {
            (h, l)
        } else {
            (0, 0)
        },
        _ => (0, 0),
    }
}

/// The trend read from the last price against the midpoint of the swing
/// range.
pub open spec fn trend_of(s: Seq<i64>, h: int, l: int) -> Trend {
    if s[s.len() - 1] > (h + l) / 2 {
        Trend::Bullish
    } else {
        Trend::Bearish
    }
}

/// The price of the level with ratio `r`: the retracement of the swing range
/// from the high in a bullish trend and from the low in a bearish one.
pub open spec fn fib_price(h: int, l: int, trend: Trend, r: FibRatio) -> int {
    if trend == Trend::Bullish {
        h - div_trunc((h - l) * r.spec_thousandths(), 1000)
    } else {
        l + div_trunc((h - l) * r.spec_thousandths(), 1000)
    }
}

/// Levels at or below the 0.382 ratio act as support, at or above 0.618 as
/// resistance, and in between as pivot.
pub open spec fn level_type_of(r: FibRatio) -> LevelType {
    if r.spec_thousandths() <= 382 {
        LevelType::Support
    } else if r.spec_thousandths() >= 618 {
        LevelType::Resistance
    } else {
        LevelType::Pivot
    }
}

/// The 0.382 and 0.618 ratios are strong levels, 0.5 and 0.786 medium ones,
/// the rest normal; dispatch is on ratio identity.
pub open spec fn level_strength_of(r: FibRatio) -> LevelStrength {
    match r {
        FibRatio::R382 => LevelStrength::Strong,
        FibRatio::R618 => LevelStrength::Strong,
        FibRatio::R500 => LevelStrength::Medium,
        FibRatio::R786 => LevelStrength::Medium,
        _ => LevelStrength::Normal,
    }
}

/// Classifies a ratio as support, resistance, or pivot.
pub fn determine_level_type(ratio: FibRatio) -> (t: LevelType)
    ensures
        t == level_type_of(ratio),
{
    if ratio.thousandths() <= 382 {
        LevelType::Support
    } else if ratio.thousandths() >= 618 {
        LevelType::Resistance
    } else {
        LevelType::Pivot
    }
}

/// Classifies a ratio's strength by its identity in the table.
pub fn determine_level_strength(ratio: FibRatio) -> (t: LevelStrength)
    ensures
        t == level_strength_of(ratio),
{
    match ratio {
        FibRatio::R382 => LevelStrength::Strong,
        FibRatio::R618 => LevelStrength::Strong,
        FibRatio::R500 => LevelStrength::Medium,
        FibRatio::R786 => LevelStrength::Medium,
        _ => LevelStrength::Normal,
    }
}

/// Slides a window across the series and keeps the best swing candidates:
/// a candidate must beat every one of the `window_size` points before it.
/// Returns the explicit degenerate pair `(0, 0)` when the series is shorter
/// than the window, when a side has no candidate, or when the pair would be
/// inverted.
pub fn find_pivot_points(data: &Vec<i64>, window_size: usize) -> (r: (i64, i64))
    requires
        1 <= window_size,
        forall|i: int| 0 <= i < data@.len() ==> 0 <= #[trigger] data@[i] <= PRICE_MAX,
    ensures
        r.0 as int == pivot_pair(data@, window_size as int).0,
        r.1 as int == pivot_pair(data@, window_size as int).1,
        0 <= r.1 <= r.0 <= PRICE_MAX,
{
    let n: usize = data.len();
    if n < window_size {
        return (0, 0);
    }
    let mut has_high: bool = false;
    let mut high: i64 = 0;
    let mut has_low: bool = false;
    let mut low: i64 = 0;
    let mut i: usize = window_size;
    while i < n
        invariant
            1 <= window_size <= i <= n,
            n == data@.len(),
            forall|t: int| 0 <= t < data@.len() ==> 0 <= #[trigger] data@[t] <= PRICE_MAX,
            match swing_high_upto(data@, window_size as int, i as int) {
                Option::None => !has_high,
                Option::Some(h) => has_high && high as int == h,
            },
            match swing_low_upto(data@, window_size as int, i as int) {
                Option::None => !has_low,
                Option::Some(l) => has_low && low as int == l,
            },
            0 <= high <= PRICE_MAX,
            0 <= low <= PRICE_MAX,
        decreases n - i,
    {
        let mut wmax: i64 = data[i - window_size];
        let mut wmin: i64 = data[i - window_size];
        let mut k: usize = i - window_size + 1;
        while k < i
            invariant
                1 <= window_size <= i < n,
                n == data@.len(),
                i - window_size < k <= i,
                forall|t: int| 0 <= t < data@.len() ==> 0 <= #[trigger] data@[t] <= PRICE_MAX,
                wmax as int == range_max(data@, i - window_size, k as int),
                wmin as int == range_min(data@, i - window_size, k as int),
            decreases i - k,
        {
            if data[k] > wmax {
                wmax = data[k];
            }
            if data[k] < wmin {
                wmin = data[k];
            }
            k = k + 1;
        }
        let cur: i64 = data[i];
        proof {
            lemma_range_minmax(data@, i - window_size, i as int);
        }
        if cur > wmax {
            if !has_high || cur > high {
                high = cur;
            }
            has_high = true;
            proof {
                assert(is_high_cand(data@, window_size as int, i as int));
            }
        } else {
            proof {
                let kx = choose|t: int|
                    i - window_size <= t < i && data@[t] == range_max(
                        data@,
                        i - window_size,
                        i as int,
                    );
                assert(!(data@[kx] < data@[i as int]));
                assert(!is_high_cand(data@, window_size as int, i as int));
            }
        }
        if cur < wmin {
            if !has_low || cur < low {
                low = cur;
            }
            has_low = true;
            proof {
                assert(is_low_cand(data@, window_size as int, i as int));
            }
        } else {
            proof {
                let kn = choose|t: int|
                    i - window_size <= t < i && data@[t] == range_min(
                        data@,
                        i - window_size,
                        i as int,
                    );
                assert(!(data@[kn] > data@[i as int]));
                assert(!is_low_cand(data@, window_size as int, i as int));
            }
        }
        i = i + 1;
    }
    if has_high && has_low && high >= low {
        (high, low)
    } else {
        (0, 0)
    }
}

/// What `calculate_fibonacci` promises: the parameter and length checks
/// decide the error exactly; on success the swing pair is the detected one
/// (never inverted), the trend follows the midpoint rule, and the nine
/// levels carry the table's ratios with their exact prices and
/// classifications. The ratio-zero level sits at the swing high in a bullish
/// trend and at the swing low in a bearish one; the ratio-one level sits at
/// the opposite end.
pub open spec fn fibonacci_post(
    s: Seq<i64>,
    w: int,
    r: Result<FibonacciLevels, IndicatorError>,
) -> bool {
    let h = pivot_pair(s, w).0;
    let l = pivot_pair(s, w).1;
    &&& (r == Err::<FibonacciLevels, IndicatorError>(IndicatorError::InvalidParameter) <==> w
        == 0)
    &&& (r == Err::<FibonacciLevels, IndicatorError>(IndicatorError::InsufficientData) <==> w >= 1
        && s.len() == 0)
    &&& (r is Ok <==> w >= 1 && s.len() >= 1)
    &&& (r is Ok ==> {
        let f = r->Ok_0;
        &&& f.swing_high as int == h
        &&& f.swing_low as int == l
        &&& f.swing_high >= f.swing_low
        &&& f.trend == trend_of(s, h, l)
        &&& f.levels@.len() == 9
        &&& (forall|i: int| 0 <= i < 9 ==> #[trigger] f.levels@[i].ratio == ratio_table(i))
        &&& (forall|i: int|
            0 <= i < 9 ==> #[trigger] f.levels@[i].price as int == fib_price(
                h,
                l,
                f.trend,
                ratio_table(i),
            ))
        &&& (forall|i: int|
            0 <= i < 9 ==> #[trigger] f.levels@[i].type_level == level_type_of(ratio_table(i)))
        &&& (forall|i: int|
            0 <= i < 9 ==> #[trigger] f.levels@[i].strength == level_strength_of(ratio_table(i)))
        &&& f.levels@[0].price == (if f.trend == Trend::Bullish {
            f.swing_high
        } else {
            f.swing_low
        })
        &&& f.levels@[6].price == (if f.trend == Trend::Bullish {
            f.swing_low
        } else {
            f.swing_high
        })
    })
}

/// Fibonacci retracement of the price series: swing detection over a sliding
/// window, the trend read from the last price against the swing midpoint,
/// and one level per table ratio, priced from the swing range and classified
/// by ratio. Fails with `InvalidParameter` on a zero window and with
/// `InsufficientData` on an empty series.
pub fn calculate_fibonacci(data: &Vec<i64>, window_size: usize) -> (r: Result<
    FibonacciLevels,
    IndicatorError,
>)
    requires
        forall|i: int| 0 <= i < data@.len() ==> 0 <= #[trigger] data@[i] <= PRICE_MAX,
    ensures
        fibonacci_post(data@, window_size as int, r),
{
    if window_size == 0 {
        return Err(IndicatorError::InvalidParameter);
    }
    if data.len() == 0 {
        return Err(IndicatorError::InsufficientData);
    }
    let pivots: (i64, i64) = find_pivot_points(data, window_size);
    let swing_high: i64 = pivots.0;
    let swing_low: i64 = pivots.1;
    let price_range: i64 = swing_high - swing_low;
    let current_price: i64 = data[data.len() - 1];
    let mid: i64 = (((swing_high as u64) + (swing_low as u64)) / 2) as i64;
    let trend: Trend = if current_price > mid {
        Trend::Bullish
    } else {
        Trend::Bearish
    };
    let ghost hh: int = pivot_pair(data@, window_size as int).0;
    let ghost ll: int = pivot_pair(data@, window_size as int).1;
    let ratios: Vec<FibRatio> = fibonacci_ratios();
    let mut levels: Vec<FibonacciLevel> = Vec::new();
    let mut i: usize = 0;
    while i < 9
        invariant
            0 <= i <= 9,
            ratios@.len() == 9,
            forall|t: int| 0 <= t < 9 ==> #[trigger] ratios@[t] == ratio_table(t),
            swing_high as int == hh,
            swing_low as int == ll,
            0 <= swing_low <= swing_high <= PRICE_MAX,
            price_range == swing_high - swing_low,
            (trend == Trend::Bullish <==> current_price > mid),
            levels@.len() == i,
            forall|t: int| 0 <= t < i ==> #[trigger] levels@[t].ratio == ratio_table(t),
            forall|t: int| 0 <= t < i ==> #[trigger] levels@[t].price as int == fib_price(
                hh,
                ll,
                trend,
                ratio_table(t),
            ),
            forall|t: int| 0 <= t < i ==> #[trigger] levels@[t].type_level == level_type_of(
                ratio_table(t),
            ),
            forall|t: int| 0 <= t < i ==> #[trigger] levels@[t].strength == level_strength_of(
                ratio_table(t),
            ),
        decreases 9 - i,
    {
        let ratio: FibRatio = ratios[i];
        let th: i64 = ratio.thousandths();
        proof {
            assert(0 <= (price_range as int) * (th as int) <= 2_618_000_000_000)
                by (nonlinear_arith)
                requires 0 <= price_range as int <= 1_000_000_000 && 0 <= th as int <= 2618;
        }
        let offs_num: i64 = price_range * th;
        let offs: i64 = ((offs_num as u64) / 1000) as i64;
        let price: i64 = if current_price > mid {
            swing_high - offs
        } else {
            swing_low + offs
        };
        let type_level: LevelType = determine_level_type(ratio);
        let strength: LevelStrength = determine_level_strength(ratio);
        levels.push(FibonacciLevel { ratio, price, type_level, strength });
        i = i + 1;
    }
    proof {
        lemma_div_basics_1(1000);
        assert(((swing_high as int) - (swing_low as int)) * 0 == 0) by (nonlinear_arith);
        let rng = (swing_high as int) - (swing_low as int);
        lemma_div_multiples_vanish(rng, 1000);
        assert(rng * 1000 == 1000 * rng) by (nonlinear_arith);
    }
    Ok(FibonacciLevels { levels, trend, swing_high, swing_low })
}

} // verus!
