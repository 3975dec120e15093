use rust_indicators::bollinger::{calculate_bollinger, interpret_volatility};
use rust_indicators::fibonacci::{
    calculate_fibonacci, determine_level_strength, determine_level_type, find_pivot_points,
};
use rust_indicators::macd::calculate_macd;
use rust_indicators::math::{calculate_ema, calculate_sma, calculate_std_dev};
use rust_indicators::rsi::calculate_rsi;
use rust_indicators::types::{
    fibonacci_ratios, FibRatio, IndicatorError, IndicatorSettings, LevelStrength, LevelType,
    Trend, Volatility,
};
use rust_indicators::utils::{
    detect_crossover, normalize_data, to_percentage, validate_data_length, NORMALIZED_ONE,
};
use rust_indicators::TechnicalAnalysis;

#[test]
fn test_bollinger_calculation() {
    let data: Vec<i64> = vec![
        100, 101, 102, 101, 99, 98, 97, 98, 99, 100, 101, 102, 103, 102, 101, 102, 103, 104, 105,
        106, 107, 108, 109, 110,
    ];
    let result = calculate_bollinger(&data, 20, 2).unwrap();
    assert!(!result.upper_band.is_empty());
    assert!(!result.middle_band.is_empty());
    assert!(!result.lower_band.is_empty());
    assert!(!result.bandwidth.is_empty());
    assert!(!result.percent_b.is_empty());
}

#[test]
fn test_volatility_interpretation() {
    assert_eq!(interpret_volatility(35), Volatility::High);
    assert_eq!(interpret_volatility(8), Volatility::Low);
    assert_eq!(interpret_volatility(15), Volatility::Normal);
}

#[test]
fn test_fibonacci_calculation() {
    let data: Vec<i64> = vec![
        100, 105, 110, 115, 120, 115, 110, 105, 100, 95, 90, 85, 90, 95, 100, 105, 110, 115,
    ];
    let result = calculate_fibonacci(&data, 10).unwrap();
    assert!(!result.levels.is_empty());
    assert!(result.swing_high > result.swing_low);
}

#[test]
fn test_level_classifications() {
    assert_eq!(determine_level_strength(FibRatio::R382), LevelStrength::Strong);
    assert_eq!(determine_level_strength(FibRatio::R500), LevelStrength::Medium);
    assert_eq!(determine_level_strength(FibRatio::R236), LevelStrength::Normal);

    assert_eq!(determine_level_type(FibRatio::R236), LevelType::Support);
    assert_eq!(determine_level_type(FibRatio::R500), LevelType::Pivot);
    assert_eq!(determine_level_type(FibRatio::R786), LevelType::Resistance);
}

#[test]
fn test_macd_calculation() {
    // 27 prices cannot carry a 9-period signal line over a 26-period MACD
    // line (34 are needed), so the call reports the shortage instead of
    // returning partial series.
    let data: Vec<i64> = vec![
        100, 101, 102, 101, 99, 98, 97, 98, 99, 100, 101, 102, 103, 102, 101, 102, 103, 104, 105,
        106, 107, 108, 109, 110, 109, 108, 107,
    ];
    let result = calculate_macd(&data, 12, 26, 9);
    assert_eq!(result.unwrap_err(), IndicatorError::InsufficientData);
}

#[test]
fn test_rsi_calculation() {
    let data: Vec<i64> = vec![
        100, 101, 102, 101, 99, 98, 97, 98, 99, 100, 101, 102, 103, 102, 101,
    ];
    let rsi = calculate_rsi(&data, 14).unwrap();
    assert!(rsi.len() > 0);
}

#[test]
fn test_default_settings() {
    let settings = IndicatorSettings::default();
    assert_eq!(settings.rsi_period, 14);
    assert_eq!(settings.macd_fast, 12);
    assert_eq!(settings.macd_slow, 26);
    assert_eq!(settings.bollinger_deviations, 2);
}

#[test]
fn test_fibonacci_ratios() {
    let ratios = fibonacci_ratios();
    assert_eq!(ratios[0].thousandths(), 0);
    assert_eq!(ratios[2].thousandths(), 382);
    assert_eq!(ratios[4].thousandths(), 618);
}

#[test]
fn test_normalize_data() {
    let data: Vec<i64> = vec![1, 2, 3, 4, 5];
    let normalized = normalize_data(&data);
    assert_eq!(normalized[0], 0);
    assert_eq!(normalized[4], NORMALIZED_ONE);
}

#[test]
fn test_detect_crossover() {
    // the original pair of lines, at twice the scale to stay integral
    let line1: Vec<i64> = vec![2, 4, 6, 4, 2];
    let line2: Vec<i64> = vec![6, 5, 4, 3, 2];
    let crossovers = detect_crossover(&line1, &line2);
    assert_eq!(crossovers.len(), line1.len());
    assert!(crossovers[2]);
}

#[test]
fn test_validate_data_length() {
    let data: Vec<i64> = vec![1, 2, 3];
    assert!(validate_data_length(&data, 3).is_ok());
    assert!(validate_data_length(&data, 4).is_err());
}

#[test]
fn sma_exact_values_and_length() {
    let data: Vec<i64> = vec![10, 20, 30, 40, 50];
    let sma = calculate_sma(&data, 3).unwrap();
    assert_eq!(sma.len(), 3);
    assert_eq!(sma, vec![20, 30, 40]);
    // truncating mean
    let sma2 = calculate_sma(&vec![1, 2, 2], 2).unwrap();
    assert_eq!(sma2, vec![1, 2]);
}

#[test]
fn sma_output_within_window_bounds() {
    let data: Vec<i64> = vec![7, 3, 9, 1, 8, 2, 6];
    let sma = calculate_sma(&data, 3).unwrap();
    for (i, v) in sma.iter().enumerate() {
        let window = &data[i..i + 3];
        let mn = *window.iter().min().unwrap();
        let mx = *window.iter().max().unwrap();
        assert!(mn <= *v && *v <= mx);
    }
}

#[test]
fn sma_errors() {
    let data: Vec<i64> = vec![1, 2, 3];
    assert_eq!(calculate_sma(&data, 0).unwrap_err(), IndicatorError::InvalidParameter);
    assert_eq!(calculate_sma(&data, 4).unwrap_err(), IndicatorError::InsufficientData);
}

#[test]
fn ema_first_value_is_plain_mean() {
    let data: Vec<i64> = vec![10, 20, 40, 80, 160];
    let ema = calculate_ema(&data, 4).unwrap();
    assert_eq!(ema[0], (10 + 20 + 40 + 80) / 4);
    assert_eq!(ema.len(), 2);
    // next value moves toward 160 by 2/5 of the gap
    assert_eq!(ema[1], 37 + (160 - 37) * 2 / 5);
}

#[test]
fn std_dev_exact() {
    let data: Vec<i64> = vec![2, 4, 4, 4, 5, 5, 7, 9];
    let sma = calculate_sma(&data, 8).unwrap();
    assert_eq!(sma, vec![5]);
    let sd = calculate_std_dev(&data, 8, &sma);
    assert_eq!(sd, vec![2]);
}

#[test]
fn rsi_all_gains_is_100_and_all_losses_is_0() {
    let up: Vec<i64> = (0..20).map(|i| 100 + i).collect();
    let rsi_up = calculate_rsi(&up, 14).unwrap();
    assert!(rsi_up.iter().all(|v| *v == 100));
    let down: Vec<i64> = (0..20).map(|i| 200 - i).collect();
    let rsi_down = calculate_rsi(&down, 14).unwrap();
    assert!(rsi_down.iter().all(|v| *v == 0));
}

#[test]
fn rsi_small_losses_never_read_as_pure_gain() {
    // the seed losses sum to less than the period; the pure-gain regime is
    // decided on the exact totals, so a falling series still reads as 0
    let data: Vec<i64> = vec![100, 99, 99, 99, 99, 98];
    let rsi = calculate_rsi(&data, 4).unwrap();
    assert_eq!(rsi, vec![0, 0]);
}

#[test]
fn rsi_single_period_follows_last_move() {
    let data: Vec<i64> = vec![100, 110, 100];
    let rsi = calculate_rsi(&data, 1).unwrap();
    assert_eq!(rsi, vec![100, 0]);
}

#[test]
fn rsi_range_and_errors() {
    let data: Vec<i64> = vec![5, 9, 2, 7, 7, 1, 8, 3];
    let rsi = calculate_rsi(&data, 4).unwrap();
    assert_eq!(rsi.len(), data.len() - 4);
    assert!(rsi.iter().all(|v| 0 <= *v && *v <= 100));
    assert_eq!(calculate_rsi(&data, 0).unwrap_err(), IndicatorError::InvalidParameter);
    assert_eq!(calculate_rsi(&data, 8).unwrap_err(), IndicatorError::InsufficientData);
}

#[test]
fn macd_rising_then_plateau() {
    // long enough for a full signal line and histogram
    let mut data: Vec<i64> = Vec::new();
    for i in 0..30 {
        data.push(100 + i);
    }
    for _ in 0..10 {
        data.push(130);
    }
    let m = calculate_macd(&data, 12, 26, 9).unwrap();
    assert!(!m.macd_line.is_empty());
    assert!(!m.signal_line.is_empty());
    assert!(!m.histogram.is_empty());
    assert_eq!(m.histogram.len(), m.signal_line.len());
    // alignment: histogram[j] == macd_line[j + 8] - signal_line[j]
    for j in 0..m.histogram.len() {
        assert_eq!(m.histogram[j], m.macd_line[j + 8] - m.signal_line[j]);
    }
    assert_eq!(m.macd_line.len(), data.len() - 26 + 1);
    assert_eq!(m.signal_line.len(), m.macd_line.len() - 9 + 1);
}

#[test]
fn macd_errors() {
    let data: Vec<i64> = vec![1, 2, 3];
    assert_eq!(calculate_macd(&data, 0, 26, 9).unwrap_err(), IndicatorError::InvalidParameter);
    assert_eq!(calculate_macd(&data, 12, 26, 9).unwrap_err(), IndicatorError::InsufficientData);
}

#[test]
fn bollinger_flat_series() {
    let data: Vec<i64> = vec![100; 20];
    let b = calculate_bollinger(&data, 20, 2).unwrap();
    assert_eq!(b.bandwidth, vec![0]);
    assert_eq!(b.upper_band, vec![100]);
    assert_eq!(b.middle_band, vec![100]);
    assert_eq!(b.lower_band, vec![100]);
    assert_eq!(b.percent_b, vec![None]);
}

#[test]
fn bollinger_band_order_and_errors() {
    let data: Vec<i64> = vec![100, 120, 90, 130, 80, 140, 70, 150, 60, 160];
    let b = calculate_bollinger(&data, 5, 2).unwrap();
    for i in 0..b.middle_band.len() {
        assert!(b.upper_band[i] >= b.middle_band[i]);
        assert!(b.middle_band[i] >= b.lower_band[i]);
        assert!(b.bandwidth[i] >= 0);
    }
    assert_eq!(calculate_bollinger(&data, 0, 2).unwrap_err(), IndicatorError::InvalidParameter);
    assert_eq!(calculate_bollinger(&data, 5, 0).unwrap_err(), IndicatorError::InvalidParameter);
    assert_eq!(calculate_bollinger(&data, 11, 2).unwrap_err(), IndicatorError::InsufficientData);
    let zeros: Vec<i64> = vec![0; 6];
    assert_eq!(calculate_bollinger(&zeros, 5, 2).unwrap_err(), IndicatorError::UndefinedRatio);
}

#[test]
fn fibonacci_extreme_levels() {
    let data: Vec<i64> = vec![
        100, 105, 110, 115, 120, 115, 110, 105, 100, 95, 90, 85, 90, 95, 100, 105, 110, 115,
    ];
    let f = calculate_fibonacci(&data, 10).unwrap();
    assert_eq!(f.swing_high, 115);
    assert_eq!(f.swing_low, 85);
    assert_eq!(f.trend, Trend::Bullish);
    assert_eq!(f.levels.len(), 9);
    // ratio 0.0 sits at the swing high in a bullish trend, ratio 1.0 at the low
    assert_eq!(f.levels[0].ratio, FibRatio::R000);
    assert_eq!(f.levels[0].price, f.swing_high);
    assert_eq!(f.levels[6].ratio, FibRatio::R1000);
    assert_eq!(f.levels[6].price, f.swing_low);
    // 0.5 retracement of the 30-point range
    assert_eq!(f.levels[3].price, 115 - 15);
}

#[test]
fn fibonacci_degenerate_and_errors() {
    let short: Vec<i64> = vec![5, 6];
    let f = calculate_fibonacci(&short, 10).unwrap();
    assert_eq!((f.swing_high, f.swing_low), (0, 0));
    assert_eq!(find_pivot_points(&short, 10), (0, 0));
    let empty: Vec<i64> = vec![];
    assert_eq!(calculate_fibonacci(&empty, 10).unwrap_err(), IndicatorError::InsufficientData);
    assert_eq!(calculate_fibonacci(&short, 0).unwrap_err(), IndicatorError::InvalidParameter);
}

#[test]
fn composite_all_indicators() {
    let mut data: Vec<i64> = Vec::new();
    for i in 0..30 {
        data.push(100 + i);
    }
    for i in 0..10 {
        data.push(130 - i);
    }
    let ta = TechnicalAnalysis::new(data);
    let all = ta.calculate_all_indicators(&IndicatorSettings::default()).unwrap();
    assert!(!all.rsi.is_empty());
    assert!(!all.macd.histogram.is_empty());
    assert!(!all.bollinger.upper_band.is_empty());
    assert_eq!(all.fibonacci.levels.len(), 9);
}

#[test]
fn composite_surfaces_first_error() {
    // plenty for RSI(14) but too short for MACD(12, 26, 9)
    let data: Vec<i64> = (0..20).map(|i| 100 + (i % 5)).collect();
    let ta = TechnicalAnalysis::new(data);
    let err = ta.calculate_all_indicators(&IndicatorSettings::default()).unwrap_err();
    assert_eq!(err, IndicatorError::InsufficientData);
}

#[test]
fn percentage_and_normalize_edges() {
    assert_eq!(to_percentage(7), 700);
    let empty: Vec<i64> = vec![];
    assert!(normalize_data(&empty).is_empty());
    let flat: Vec<i64> = vec![4, 4, 4];
    assert_eq!(normalize_data(&flat), vec![0, 0, 0]);
}
