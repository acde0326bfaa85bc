use crypto_tracker::detector::{
    detect_candidate, find_spikes, count_in_band, median, percentage_above, price_levels,
    valid_complete_window, CandidateResult, Candle, DetectorSettings, PriceLevels,
};
use crypto_tracker::number::{Number, Operation};

const HOUR: i64 = 3_600_000;

fn num(value: f64) -> Number {
    Number::from_bits(value.to_bits())
}

fn float(value: Number) -> f64 {
    f64::from_bits(value.bits)
}

fn calc(op: Operation) -> Number {
    num(match op {
        Operation::Sum(a, b) => float(a) + float(b),
        Operation::Difference(a, b) => float(a) - float(b),
        Operation::Product(a, b) => float(a) * float(b),
        Operation::Quotient(a, b) => float(a) / float(b),
        Operation::Count(count) => count as f64,
        Operation::Millis(millis) => millis as f64,
    })
}

fn candle(index: usize, close: f64, high: f64) -> Candle {
    let open_time_ms = index as i64 * HOUR;
    Candle {
        open_time_ms,
        close_time_ms: open_time_ms + HOUR - 1,
        open: num(close),
        high: num(high),
        low: num(close.min(high) * 0.999),
        close: num(close),
        quote_volume: num(1_000.0),
    }
}

fn settings() -> DetectorSettings {
    DetectorSettings {
        window_candles: 100,
        interval_ms: HOUR,
        sideways_band_pct: num(2.0),
        min_sideways_closes_pct: num(95.0),
        positive_spike_pct: num(5.0),
        quiet_period_ms: 3 * HOUR,
    }
}

fn flat() -> Vec<Candle> {
    (0..100).map(|index| candle(index, 100.0, 100.1)).collect()
}

fn detect(candles: &[Candle], volume: f64) -> Option<CandidateResult> {
    detect_candidate("TESTUSDT", candles, settings(), num(volume), &calc)
}

#[test]
fn finds_sideways_symbol_with_historical_positive_wick() {
    let mut candles: Vec<_> = (0..100).map(|index| candle(index, 100.0, 100.1)).collect();
    candles[50].high = num(106.0);
    let result = detect(&candles, 123.0).unwrap();
    assert_eq!(float(result.median_price), 100.0);
    assert_eq!(float(result.band_lower), 98.0);
    assert_eq!(float(result.band_upper), 102.0);
    assert!((float(result.latest_spike_pct) - 6.0).abs() < 1e-9);
}

#[test]
fn accepts_exact_spike_boundary() {
    let mut candles: Vec<_> = (0..100).map(|index| candle(index, 100.0, 100.1)).collect();
    candles[50].high = num(105.0);
    assert!(detect(&candles, 0.0).is_some());
}

#[test]
fn rejects_high_above_band_but_below_spike_level() {
    let mut candles: Vec<_> = (0..100).map(|index| candle(index, 100.0, 100.1)).collect();
    candles[50].high = num(102.1);
    assert!(detect(&candles, 0.0).is_none());
}

#[test]
fn rejects_sideways_window_without_spike() {
    let candles: Vec<_> = (0..100).map(|index| candle(index, 100.0, 101.0)).collect();
    assert!(detect(&candles, 0.0).is_none());
}

#[test]
fn accepts_closes_on_band_boundaries() {
    let mut candles: Vec<_> = (0..100).map(|index| candle(index, 100.0, 100.1)).collect();
    candles[0] = candle(0, 98.0, 98.1);
    candles[1] = candle(1, 102.0, 102.1);
    candles[50].high = num(105.0);
    assert!(detect(&candles, 0.0).is_some());
}

#[test]
fn newer_spike_restarts_quiet_period() {
    let mut candles: Vec<_> = (0..100).map(|index| candle(index, 100.0, 100.1)).collect();
    candles[50].high = num(110.0);
    candles[98].high = num(105.0);
    assert!(detect(&candles, 0.0).is_none());
}

#[test]
fn rejects_more_than_five_percent_closes_outside_band() {
    let mut candles: Vec<_> = (0..100).map(|index| candle(index, 100.0, 100.1)).collect();
    candles[40].high = num(106.0);
    for value in candles.iter_mut().take(6) {
        value.close = num(110.0);
        value.open = num(110.0);
        value.high = num(110.1);
        value.low = num(109.9);
    }
    assert!(detect(&candles, 0.0).is_none());
}

#[test]
fn rejects_spike_without_completed_quiet_period() {
    let mut candles: Vec<_> = (0..100).map(|index| candle(index, 100.0, 100.1)).collect();
    candles[98].high = num(106.0);
    assert!(detect(&candles, 0.0).is_none());
}

#[test]
fn rejects_close_outside_band_during_quiet_period() {
    let mut candles: Vec<_> = (0..100).map(|index| candle(index, 100.0, 100.1)).collect();
    candles[50].high = num(106.0);
    candles[98] = candle(98, 103.0, 103.1);
    assert!(detect(&candles, 0.0).is_none());
}

#[test]
fn rejects_negative_outlier_without_positive_spike() {
    let mut candles: Vec<_> = (0..100).map(|index| candle(index, 100.0, 100.1)).collect();
    candles[50] = candle(50, 94.0, 94.1);
    assert!(detect(&candles, 0.0).is_none());
}

#[test]
fn rejects_incomplete_or_gapped_window() {
    let mut candles: Vec<_> = (0..100).map(|index| candle(index, 100.0, 100.1)).collect();
    candles[50].high = num(106.0);
    candles[70].open_time_ms += 1;
    assert!(detect(&candles, 0.0).is_none());
    assert!(detect(&candles[..99], 0.0).is_none());
}

#[test]
fn a_candidate_carries_its_figures() {
    let mut candles = flat();
    candles[50].high = num(110.0);
    candles[60].high = num(106.0);
    candles[3] = candle(3, 90.0, 90.1);
    let found = detect(&candles, 123.0).unwrap();
    assert_eq!(found.symbol, "TESTUSDT");
    assert_eq!(float(found.sideways_close_ratio), 99.0);
    assert_eq!(float(found.latest_close), 100.0);
    assert_eq!(found.latest_spike_time_ms, 60 * HOUR);
    assert_eq!(float(found.latest_spike_high), 106.0);
    assert_eq!(found.largest_spike_time_ms, 50 * HOUR);
    assert_eq!(float(found.largest_spike_pct), (110.0 / 100.0 - 1.0) * 100.0);
    assert_eq!(found.quiet_period_ms, 39 * HOUR);
    assert_eq!(float(found.quote_volume_24h), 123.0);
}

#[test]
fn of_equal_spikes_the_later_one_is_largest() {
    let mut candles = flat();
    candles[20].high = num(107.0);
    candles[40].high = num(107.0);
    candles[60].high = num(106.0);
    let found = detect(&candles, 0.0).unwrap();
    assert_eq!(found.largest_spike_time_ms, 40 * HOUR);
    assert_eq!(found.latest_spike_time_ms, 60 * HOUR);
}

#[test]
fn a_quiet_period_of_exact_length_is_enough() {
    let mut candles = flat();
    candles[96].high = num(106.0);
    assert_eq!(detect(&candles, 0.0).unwrap().quiet_period_ms, 3 * HOUR);
    candles[97].high = num(106.0);
    assert!(detect(&candles, 0.0).is_none());
}

#[test]
fn five_percent_outside_band_are_tolerated() {
    let mut candles = flat();
    candles[40].high = num(106.0);
    for index in 0..5 {
        candles[index] = candle(index, 110.0, 110.1);
    }
    let found = detect(&candles, 0.0).unwrap();
    assert_eq!(float(found.sideways_close_ratio), 95.0);
}

#[test]
fn older_candles_do_not_matter() {
    let mut candles: Vec<Candle> = (0..150).map(|index| candle(index, 100.0, 100.1)).collect();
    for index in 0..50 {
        candles[index] = candle(index, 500.0, 900.0);
    }
    candles[100].high = num(106.0);
    let found = detect(&candles, 0.0).unwrap();
    assert_eq!(float(found.median_price), 100.0);
    assert_eq!(found.largest_spike_time_ms, 100 * HOUR);
}

#[test]
fn inconsistent_candles_spoil_the_window() {
    let mut candles = flat();
    candles[50].high = num(106.0);
    assert!(detect(&candles, 0.0).is_some());

    let mut broken = candles.clone();
    broken[10].low = num(101.0);
    assert!(detect(&broken, 0.0).is_none());

    broken = candles.clone();
    broken[10].high = num(f64::NAN);
    assert!(detect(&broken, 0.0).is_none());

    broken = candles.clone();
    broken[10].low = num(0.0);
    assert!(detect(&broken, 0.0).is_none());

    broken = candles.clone();
    broken[10].open = num(f64::INFINITY);
    assert!(detect(&broken, 0.0).is_none());

    broken = candles.clone();
    broken[10].close_time_ms = broken[10].open_time_ms;
    assert!(detect(&broken, 0.0).is_none());
}

#[test]
fn windows_are_judged_by_times_and_prices() {
    let candles = flat();
    assert!(valid_complete_window(&candles, HOUR));
    assert!(!valid_complete_window(&candles, HOUR + 1));
    assert!(valid_complete_window(&candles[..1], 7));
    assert!(valid_complete_window(&[], 7));
    let mut shifted = candles.clone();
    shifted[0].open_time_ms = -1;
    assert!(!valid_complete_window(&shifted, HOUR));
}

#[test]
fn a_quiet_period_below_zero_is_met_by_any_candle() {
    let mut candles = flat();
    candles[99].high = num(106.0);
    let lenient = DetectorSettings { quiet_period_ms: -1, ..settings() };
    let found = detect_candidate("TESTUSDT", &candles, lenient, num(0.0), &calc).unwrap();
    assert_eq!(found.quiet_period_ms, 0);
    let lenient = DetectorSettings { quiet_period_ms: i64::MIN, ..settings() };
    assert!(detect_candidate("TESTUSDT", &flat(), lenient, num(0.0), &calc).is_none());
}

#[test]
fn candles_and_candidates_are_equal_as_their_numbers_are() {
    let zero = Candle { quote_volume: num(0.0), ..candle(1, 100.0, 101.0) };
    let minus_zero = Candle { quote_volume: num(-0.0), ..zero };
    let nan = Candle { quote_volume: num(f64::NAN), ..zero };
    assert!(zero == minus_zero);
    assert!(nan != nan);
    assert!(zero != Candle { close_time_ms: 0, ..zero });
    assert!(zero != Candle { high: num(102.0), ..zero });

    let mut candles = flat();
    candles[50].high = num(106.0);
    let found = detect(&candles, 0.0).unwrap();
    assert!(found == detect(&candles, -0.0).unwrap());
    assert!(detect(&candles, f64::NAN) != detect(&candles, f64::NAN));
    assert!(found != CandidateResult { symbol: "OTHER".into(), ..found.clone() });
    assert!(found != CandidateResult { quiet_period_ms: 0, ..found.clone() });
}

#[test]
fn medians_of_odd_and_even_counts() {
    assert_eq!(float(median(&vec![num(1.0), num(2.0), num(10.0)], &calc)), 2.0);
    assert_eq!(float(median(&vec![num(1.0), num(2.0), num(5.0), num(10.0)], &calc)), 3.5);
}

#[test]
fn percentages_above_a_baseline() {
    assert_eq!(float(percentage_above(num(150.0), num(100.0), &calc)), 50.0);
    assert_eq!(float(percentage_above(num(50.0), num(100.0), &calc)), -50.0);
}

#[test]
fn levels_follow_the_median_close() {
    let mut candles = flat();
    candles[0] = candle(0, 10.0, 10.1);
    candles[1] = candle(1, 900.0, 900.1);
    let levels = price_levels(&candles, settings(), &calc);
    assert_eq!(
        levels,
        PriceLevels {
            median_price: num(100.0),
            band_lower: num(100.0 * (1.0 - 2.0 / 100.0)),
            band_upper: num(100.0 * (1.0 + 2.0 / 100.0)),
            spike_level: num(100.0 * (1.0 + 5.0 / 100.0)),
        }
    );
    assert_eq!(count_in_band(&candles, levels), 98);
    let spikes = find_spikes(&candles, levels);
    assert_eq!(spikes, vec![candles[1]]);
}
