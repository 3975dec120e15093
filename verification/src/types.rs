use vstd::prelude::*;

verus! {

/// Why an indicator computation could not be carried out.
///
/// - `InsufficientData`: the price series is shorter than the minimum the
///   requested period or window needs; checked before any computation starts.
/// - `InvalidParameter`: a period, window, or deviation multiplier is not a
///   positive number.
/// - `UndefinedRatio`: a ratio computation whose denominator is exactly zero
///   (for example a Bollinger bandwidth over a window whose mean is zero).
#[derive(Clone, Copy, Debug, PartialEq, Eq, Structural)]
pub enum IndicatorError {
    InsufficientData,
    InvalidParameter,
    UndefinedRatio,
}

/// Direction of the prevailing trend, judged from the last price against the
/// midpoint of the detected swing range.
#[derive(Clone, Copy, Debug, PartialEq, Eq, Structural)]
pub enum Trend {
    Bullish,
    Bearish,
}

/// Role of a Fibonacci retracement level relative to the current price zone.
#[derive(Clone, Copy, Debug, PartialEq, Eq, Structural)]
pub enum LevelType {
    Support,
    Resistance,
    Pivot,
}

/// How strongly traders are assumed to react at a Fibonacci level.
#[derive(Clone, Copy, Debug, PartialEq, Eq, Structural)]
pub enum LevelStrength {
    Strong,
    Medium,
    Normal,
}

/// Volatility regime derived from the Bollinger bandwidth.
#[derive(Clone, Copy, Debug, PartialEq, Eq, Structural)]
pub enum Volatility {
    High,
    Low,
    Normal,
}

/// The fixed table of Fibonacci retracement ratios, as a closed enum so that
/// classification dispatches on identity rather than on numeric comparison.
/// Each variant carries its ratio in thousandths via [`FibRatio::thousandths`].
#[derive(Clone, Copy, Debug, PartialEq, Eq, Structural)]
pub enum FibRatio {
    R000,
    R236,
    R382,
    R500,
    R618,
    R786,
    R1000,
    R1618,
    R2618,
}

impl FibRatio {
    /// The ratio scaled by 1000 (0.382 is 382).
    pub open spec fn spec_thousandths(self) -> i64 {
        match self {
            FibRatio::R000 => 0,
            FibRatio::R236 => 236,
            FibRatio::R382 => 382,
            FibRatio::R500 => 500,
            FibRatio::R618 => 618,
            FibRatio::R786 => 786,
            FibRatio::R1000 => 1000,
            FibRatio::R1618 => 1618,
            FibRatio::R2618 => 2618,
        }
    }

    /// The ratio scaled by 1000 (0.382 is 382).
    #[verifier::when_used_as_spec(spec_thousandths)]
    pub fn thousandths(self) -> (t: i64)
        ensures
            t == self.spec_thousandths(),
    {
        match self {
            FibRatio::R000 => 0,
            FibRatio::R236 => 236,
            FibRatio::R382 => 382,
            FibRatio::R500 => 500,
            FibRatio::R618 => 618,
            FibRatio::R786 => 786,
            FibRatio::R1000 => 1000,
            FibRatio::R1618 => 1618,
            FibRatio::R2618 => 2618,
        }
    }
}

/// The ratio table in its fixed order, by index; indices outside the table
/// map to the first entry.
pub open spec fn ratio_table(i: int) -> FibRatio {
    if i == 1 {
        FibRatio::R236
    } else if i == 2 {
        FibRatio::R382
    } else if i == 3 {
        FibRatio::R500
    } else if i == 4 {
        FibRatio::R618
    } else if i == 5 {
        FibRatio::R786
    } else if i == 6 {
        FibRatio::R1000
    } else if i == 7 {
        FibRatio::R1618
    } else if i == 8 {
        FibRatio::R2618
    } else {
        FibRatio::R000
    }
}

/// The ordered table of the nine retracement ratios.
pub fn fibonacci_ratios() -> (r: Vec<FibRatio>)
    ensures
        r@.len() == 9,
        forall|i: int| 0 <= i < 9 ==> r@[i] == ratio_table(i),
{
    let mut r: Vec<FibRatio> = Vec::new();
    r.push(FibRatio::R000);
    r.push(FibRatio::R236);
    r.push(FibRatio::R382);
    r.push(FibRatio::R500);
    r.push(FibRatio::R618);
    r.push(FibRatio::R786);
    r.push(FibRatio::R1000);
    r.push(FibRatio::R1618);
    r.push(FibRatio::R2618);
    r
}

/// Configuration record for every engine; each field has a documented default.
/// Every period or window must be a positive integer and the deviation
/// multiplier must be positive, which each engine validates itself.
#[derive(Clone, Copy, Debug)]
pub struct IndicatorSettings {
    pub rsi_period: usize,
    pub macd_fast: usize,
    pub macd_slow: usize,
    pub macd_signal: usize,
    pub bollinger_period: usize,
    /// Number of standard deviations for the Bollinger bands.
    pub bollinger_deviations: i64,
    pub fibonacci_window: usize,
}

impl Default for IndicatorSettings {
    /// The documented default configuration.
    fn default() -> (s: Self)
        ensures
            s.rsi_period == 14,
            s.macd_fast == 12,
            s.macd_slow == 26,
            s.macd_signal == 9,
            s.bollinger_period == 20,
            s.bollinger_deviations == 2,
            s.fibonacci_window == 20,
    {
        IndicatorSettings {
            rsi_period: 14,
            macd_fast: 12,
            macd_slow: 26,
            macd_signal: 9,
            bollinger_period: 20,
            bollinger_deviations: 2,
            fibonacci_window: 20,
        }
    }
}

/// MACD line, its signal line, and their histogram, aligned as documented on
/// the trend engine.
#[derive(Clone, Debug)]
pub struct MacdResult {
    pub macd_line: Vec<i64>,
    pub signal_line: Vec<i64>,
    pub histogram: Vec<i64>,
}

/// Bollinger band arrays, all aligned to the moving average; `percent_b` is
/// `None` at positions where the band has zero width, where the percentage is
/// undefined.
#[derive(Clone, Debug)]
pub struct BollingerBands {
    pub upper_band: Vec<i64>,
    pub middle_band: Vec<i64>,
    pub lower_band: Vec<i64>,
    pub bandwidth: Vec<i64>,
    pub percent_b: Vec<Option<i64>>,
}

/// One Fibonacci retracement level: its ratio, the price it sits at, and its
/// classification.
#[derive(Clone, Copy, Debug, PartialEq, Eq, Structural)]
pub struct FibonacciLevel {
    pub ratio: FibRatio,
    pub price: i64,
    pub type_level: LevelType,
    pub strength: LevelStrength,
}

/// The swing range, the trend read from it, and the ordered retracement
/// levels for the fixed ratio table.
#[derive(Clone, Debug)]
pub struct FibonacciLevels {
    pub levels: Vec<FibonacciLevel>,
    pub trend: Trend,
    pub swing_high: i64,
    pub swing_low: i64,
}

/// Results of all four engines over one price series.
#[derive(Clone, Debug)]
pub struct AllIndicators {
    pub rsi: Vec<i64>,
    pub macd: MacdResult,
    pub bollinger: BollingerBands,
    pub fibonacci: FibonacciLevels,
}

} // verus!
