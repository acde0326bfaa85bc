use crypto_tracker::alerts::{note_sent, plan_alert, plan_alerts, AlertAction};
use crypto_tracker::detector::CandidateResult;
use crypto_tracker::number::Number;
use crypto_tracker::state::AlertState;

fn num(value: f64) -> Number {
    Number::from_bits(value.to_bits())
}

fn candidate(timestamp: i64) -> CandidateResult {
    CandidateResult {
        symbol: "BTCUSDT".into(),
        median_price: num(1.0),
        band_lower: num(0.98),
        band_upper: num(1.02),
        sideways_close_ratio: num(95.0),
        latest_close: num(1.0),
        latest_spike_time_ms: timestamp,
        latest_spike_high: num(1.1),
        latest_spike_pct: num(10.0),
        largest_spike_time_ms: timestamp,
        largest_spike_pct: num(10.0),
        quiet_period_ms: 1,
        quote_volume_24h: num(1.0),
    }
}

#[test]
fn deduplicates_by_symbol_interval_and_spike() {
    let mut state = AlertState::default();
    let first = candidate(100);
    assert!(!state.is_alerted(&first, "1h"));
    state.mark_alerted(&first, "1h");
    assert!(state.is_alerted(&first, "1h"));
    assert!(!state.is_alerted(&candidate(200), "1h"));
    assert!(!state.is_alerted(&first, "4h"));
}

#[test]
fn prunes_expired_spikes() {
    let mut state = AlertState::default();
    state.mark_alerted(&candidate(100), "1h");
    state.mark_alerted(&candidate(200), "1h");
    state.prune(150);
    assert!(!state.is_alerted(&candidate(100), "1h"));
    assert!(state.is_alerted(&candidate(200), "1h"));
}

#[test]
fn persists_deduplication_across_load() {
    let mut state = AlertState::default();
    state.mark_alerted(&candidate(123), "1h");
    let stored = state.save();

    let restored = AlertState::load::<String>(Ok(Some(stored))).unwrap();
    assert!(restored.is_alerted(&candidate(123), "1h"));
}

#[test]
fn spikes_are_stored_under_market_interval_and_time() {
    let mut state = AlertState::default();
    state.mark_alerted(&candidate(-5), "1h");
    state.mark_alerted(&candidate(-5), "1h");
    assert_eq!(state.save(), vec![("BTCUSDT|1h|-5".to_string(), -5)]);
}

#[test]
fn nothing_stored_means_nothing_reported() {
    let state = AlertState::load::<String>(Ok(None)).unwrap();
    assert!(state.save().is_empty());
    assert!(!state.is_alerted(&candidate(1), "1h"));
}

#[test]
fn of_equal_keys_the_later_one_is_loaded() {
    let stored = vec![("k".to_string(), 1), ("k".to_string(), 2)];
    let state = AlertState::load::<String>(Ok(Some(stored))).unwrap();
    assert_eq!(state.save(), vec![("k".to_string(), 2)]);
}

#[test]
fn an_unreadable_state_is_no_empty_state() {
    let loaded = AlertState::load(Err("expected value at line 1 column 1".to_string()));
    assert_eq!(loaded.err(), Some("expected value at line 1 column 1".to_string()));
}

#[test]
fn pruning_spares_marks_of_any_age_that_are_allowed() {
    let mut state = AlertState::default();
    for time in [5, -7, 300, 100, 200] {
        state.mark_alerted(&candidate(time), "1h");
        state.mark_alerted(&candidate(time), "4h");
    }
    state.prune(0);
    state.mark_alerted(&candidate(-9), "1h");
    state.prune(100);
    for (time, kept) in [(5, false), (-7, false), (-9, false), (300, true), (100, true), (200, true)] {
        assert_eq!(state.is_alerted(&candidate(time), "1h"), kept);
        assert_eq!(state.is_alerted(&candidate(time), "4h"), kept);
    }
}

#[test]
fn a_spike_at_the_limit_is_kept() {
    let mut state = AlertState::default();
    state.mark_alerted(&candidate(100), "1h");
    state.prune(100);
    assert!(state.is_alerted(&candidate(100), "1h"));
    state.prune(101);
    assert!(!state.is_alerted(&candidate(100), "1h"));
}

#[test]
fn markets_are_reported_separately() {
    let mut state = AlertState::default();
    state.mark_alerted(&candidate(100), "1h");
    let other = CandidateResult { symbol: "ETHUSDT".into(), ..candidate(100) };
    assert!(!state.is_alerted(&other, "1h"));
}

#[test]
fn only_new_candidates_are_sent() {
    let mut state = AlertState::default();
    state.mark_alerted(&candidate(100), "1h");
    let candidates = vec![candidate(100), candidate(200), candidate(300)];
    assert_eq!(
        plan_alerts(&state, &candidates, "1h", false),
        AlertAction::Send(vec![candidate(200), candidate(300)])
    );
}

#[test]
fn a_dry_run_prints_instead() {
    let state = AlertState::default();
    assert_eq!(
        plan_alerts(&state, &vec![candidate(1)], "1h", true),
        AlertAction::Print(vec![candidate(1)])
    );
}

#[test]
fn nothing_is_sent_twice() {
    let mut state = AlertState::default();
    let candidates = vec![candidate(1), candidate(2)];
    match plan_alerts(&state, &candidates, "1h", false) {
        AlertAction::Send(sent) => note_sent(&mut state, &sent, "1h"),
        _ => unreachable!(),
    }
    assert_eq!(plan_alerts(&state, &candidates, "1h", false), AlertAction::Nothing);
    assert_eq!(plan_alerts(&state, &candidates, "1h", true), AlertAction::Nothing);
    assert_eq!(
        plan_alerts(&state, &candidates, "4h", false),
        AlertAction::Send(candidates)
    );
}

#[test]
fn no_candidates_need_no_report() {
    let state = AlertState::default();
    assert_eq!(plan_alerts(&state, &Vec::new(), "1h", false), AlertAction::Nothing);
}

#[test]
fn single_candidates_are_planned_alike() {
    let mut state = AlertState::default();
    assert_eq!(
        plan_alert(&state, &candidate(1), "1h", false),
        AlertAction::Send(vec![candidate(1)])
    );
    assert_eq!(
        plan_alert(&state, &candidate(1), "1h", true),
        AlertAction::Print(vec![candidate(1)])
    );
    note_sent(&mut state, &vec![candidate(1)], "1h");
    assert_eq!(plan_alert(&state, &candidate(1), "1h", false), AlertAction::Nothing);
}
