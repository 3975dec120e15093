//! Technical-analysis indicators over a chronological price series.
//!
//! Prices are fixed-point integers: the caller picks a scale (for example
//! hundredths of a currency unit) and every derived value is reported at that
//! same scale, or in whole percent where a field is a percentage. All
//! arithmetic is exact integer arithmetic with truncating division.

use vstd::prelude::*;

pub mod bollinger;
pub mod fibonacci;
pub mod macd;
pub mod math;
pub mod rsi;
pub mod types;
pub mod utils;

use crate::bollinger::{bollinger_post, calculate_bollinger, DEVIATIONS_MAX};
use crate::fibonacci::{calculate_fibonacci, fibonacci_post};
use crate::macd::{calculate_macd, macd_post, max_period};
use crate::math::sma_at;
use crate::rsi::{calculate_rsi, rsi_post};
use crate::types::{AllIndicators, IndicatorError, IndicatorSettings};

verus! {

/// Largest admissible price, so that every internal sum and product stays in
/// range at any series length.
pub const PRICE_MAX: i64 = 1_000_000_000;

/// Inputs on which the momentum engine succeeds.
pub open spec fn rsi_accepts(s: Seq<i64>, period: int) -> bool {
    period >= 1 && s.len() > period
}

/// Inputs on which the trend engine succeeds.
pub open spec fn macd_accepts(s: Seq<i64>, fast: int, slow: int, signal: int) -> bool {
    fast >= 1 && slow >= 1 && signal >= 1 && s.len() >= max_period(fast, slow) + signal - 1
}

/// Inputs on which the volatility engine succeeds.
pub open spec fn bollinger_accepts(s: Seq<i64>, period: int, k: int) -> bool {
    period >= 1 && k >= 1 && s.len() >= period && forall|i: int|
        0 <= i < s.len() - period + 1 ==> #[trigger] sma_at(s, period, i) >= 1
}

/// Inputs on which the retracement engine succeeds.
pub open spec fn fibonacci_accepts(s: Seq<i64>, w: int) -> bool {
    w >= 1 && s.len() >= 1
}

/// What `calculate_all_indicators` promises: on success every engine's own
/// promise holds of its field; on failure the error is the first failing
/// engine's, in the fixed order momentum, trend, volatility, retracement,
/// and no partial result is returned.
pub open spec fn all_indicators_post(
    s: Seq<i64>,
    c: IndicatorSettings,
    r: Result<AllIndicators, IndicatorError>,
) -> bool {
    &&& (r is Ok <==> rsi_accepts(s, c.rsi_period as int) && macd_accepts(
        s,
        c.macd_fast as int,
        c.macd_slow as int,
        c.macd_signal as int,
    ) && bollinger_accepts(s, c.bollinger_period as int, c.bollinger_deviations as int)
        && fibonacci_accepts(s, c.fibonacci_window as int))
    &&& (r is Ok ==> {
        let a = r->Ok_0;
        &&& rsi_post(s, c.rsi_period as int, Ok(a.rsi))
        &&& macd_post(s, c.macd_fast as int, c.macd_slow as int, c.macd_signal as int, Ok(a.macd))
        &&& bollinger_post(
            s,
            c.bollinger_period as int,
            c.bollinger_deviations as int,
            Ok(a.bollinger),
        )
        &&& fibonacci_post(s, c.fibonacci_window as int, Ok(a.fibonacci))
    })
    &&& (r is Err ==> {
        let e = r->Err_0;
        ||| rsi_post(s, c.rsi_period as int, Err(e))
        ||| (rsi_accepts(s, c.rsi_period as int) && macd_post(
            s,
            c.macd_fast as int,
            c.macd_slow as int,
            c.macd_signal as int,
            Err(e),
        ))
        ||| (rsi_accepts(s, c.rsi_period as int) && macd_accepts(
            s,
            c.macd_fast as int,
            c.macd_slow as int,
            c.macd_signal as int,
        ) && bollinger_post(
            s,
            c.bollinger_period as int,
            c.bollinger_deviations as int,
            Err(e),
        ))
        ||| (rsi_accepts(s, c.rsi_period as int) && macd_accepts(
            s,
            c.macd_fast as int,
            c.macd_slow as int,
            c.macd_signal as int,
        ) && bollinger_accepts(s, c.bollinger_period as int, c.bollinger_deviations as int)
            && fibonacci_post(s, c.fibonacci_window as int, Err(e)))
    })
}

/// One price series and the four engines over it.
pub struct TechnicalAnalysis {
    pub data: Vec<i64>,
}

impl TechnicalAnalysis {
    /// All stored prices are admissible.
    pub open spec fn wf(self) -> bool {
        forall|i: int| 0 <= i < self.data@.len() ==> 0 <= #[trigger] self.data@[i] <= PRICE_MAX
    }

    /// Wraps a price series for analysis. Host-side diagnostics are the
    /// caller's own one-time initialization, not this constructor's.
    pub fn new(prices: Vec<i64>) -> (t: TechnicalAnalysis)
        requires
            forall|i: int| 0 <= i < prices@.len() ==> 0 <= #[trigger] prices@[i] <= PRICE_MAX,
        ensures
            t.data@ == prices@,
            t.wf(),
    {
        TechnicalAnalysis { data: prices }
    }

    /// Runs every engine over the stored series with the given settings and
    /// returns either all results or the first failing engine's error.
    pub fn calculate_all_indicators(&self, settings: &IndicatorSettings) -> (r: Result<
        AllIndicators,
        IndicatorError,
    >)
        requires
            self.wf(),
            settings.bollinger_deviations <= DEVIATIONS_MAX,
        ensures
            all_indicators_post(self.data@, *settings, r),
    {
        let rsi = match self.calculate_rsi(settings.rsi_period) {
            Ok(v) => v,
            Err(e) => {
                return Err(e);
            },
        };
        let macd = match self.calculate_macd(
            settings.macd_fast,
            settings.macd_slow,
            settings.macd_signal,
        ) {
            Ok(v) => v,
            Err(e) => {
                return Err(e);
            },
        };
        let bollinger = match self.calculate_bollinger_bands(
            settings.bollinger_period,
            settings.bollinger_deviations,
        ) {
            Ok(v) => v,
            Err(e) => {
                return Err(e);
            },
        };
        let fibonacci = match self.calculate_fibonacci(settings.fibonacci_window) {
            Ok(v) => v,
            Err(e) => {
                return Err(e);
            },
        };
        Ok(AllIndicators { rsi, macd, bollinger, fibonacci })
    }

    /// The momentum engine over the stored series.
    pub fn calculate_rsi(&self, period: usize) -> (r: Result<Vec<i64>, IndicatorError>)
        requires
            self.wf(),
        ensures
            rsi_post(self.data@, period as int, r),
    {
        calculate_rsi(&self.data, period)
    }

    /// The trend engine over the stored series.
    pub fn calculate_macd(&self, fast: usize, slow: usize, signal: usize) -> (r: Result<
        crate::types::MacdResult,
        IndicatorError,
    >)
        requires
            self.wf(),
        ensures
            macd_post(self.data@, fast as int, slow as int, signal as int, r),
    {
        calculate_macd(&self.data, fast, slow, signal)
    }

    /// The volatility engine over the stored series.
    pub fn calculate_bollinger_bands(&self, period: usize, deviations: i64) -> (r: Result<
        crate::types::BollingerBands,
        IndicatorError,
    >)
        requires
            self.wf(),
            deviations <= DEVIATIONS_MAX,
        ensures
            bollinger_post(self.data@, period as int, deviations as int, r),
    {
        calculate_bollinger(&self.data, period, deviations)
    }

    /// The retracement engine over the stored series.
    pub fn calculate_fibonacci(&self, window: usize) -> (r: Result<
        crate::types::FibonacciLevels,
        IndicatorError,
    >)
        requires
            self.wf(),
        ensures
            fibonacci_post(self.data@, window as int, r),
    {
        calculate_fibonacci(&self.data, window)
    }
}

} // verus!
