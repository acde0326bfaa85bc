use crypto_tracker::binance::SymbolInfo;
use crypto_tracker::config::{validate_config, Config};
use crypto_tracker::detector::Candle;
use crypto_tracker::market::{
    analysis_config_changed, detector_settings, evaluate_all, evaluate_symbol, same_symbols,
    select_tracked_symbols, symbol_universe, universe_change, UniverseChange, UniverseError,
};
use crypto_tracker::number::{Number, Operation};
use crypto_tracker::retry::Backoff;
use crypto_tracker::session::{
    after_read, oldest_allowed_ms, reload_effect, ReloadEffect, Session, SocketAction,
    SocketEvent, Step,
};
use crypto_tracker::text_map::TextMap;

fn num(value: f64) -> Number {
    Number::from_bits(value.to_bits())
}

fn float(value: Number) -> f64 {
    f64::from_bits(value.bits)
}

fn calc(op: Operation) -> Number {
    num(match op {
        Operation::Sum(a, b) => float(a) + float(b),
        Operation::Difference(a, b) => float(a) - float(b),
        Operation::Product(a, b) => float(a) * float(b),
        Operation::Quotient(a, b) => float(a) / float(b),
        Operation::Count(count) => count as f64,
        Operation::Millis(millis) => millis as f64,
    })
}

fn market(symbol: &str, status: &str, quote_asset: &str) -> SymbolInfo {
    SymbolInfo {
        symbol: symbol.into(),
        status: status.into(),
        quote_asset: quote_asset.into(),
    }
}

fn volumes(pairs: &[(&str, f64)]) -> TextMap<Number> {
    TextMap::from_pairs(
        pairs.iter().map(|(symbol, volume)| (symbol.to_string(), num(*volume))).collect(),
    )
}

fn names(symbols: &[&str]) -> Vec<String> {
    symbols.iter().map(|symbol| symbol.to_string()).collect()
}

#[test]
fn selects_only_liquid_trading_usdt_symbols() {
    let symbols = vec![
        SymbolInfo {
            symbol: "BTCUSDT".into(),
            status: "TRADING".into(),
            quote_asset: "USDT".into(),
        },
        SymbolInfo {
            symbol: "LOWUSDT".into(),
            status: "TRADING".into(),
            quote_asset: "USDT".into(),
        },
        SymbolInfo {
            symbol: "ETHBTC".into(),
            status: "TRADING".into(),
            quote_asset: "BTC".into(),
        },
        SymbolInfo {
            symbol: "OLDUSDT".into(),
            status: "BREAK".into(),
            quote_asset: "USDT".into(),
        },
    ];
    let volumes = volumes(&[
        ("BTCUSDT", 1_000.0),
        ("LOWUSDT", 99.0),
        ("ETHBTC", 2_000.0),
        ("OLDUSDT", 2_000.0),
    ]);

    assert_eq!(
        select_tracked_symbols(&symbols, &volumes, num(100.0), num(1_500.0)),
        vec!["BTCUSDT"]
    );
}

#[test]
fn excludes_symbols_above_maximum_quote_volume() {
    let symbols = vec![
        SymbolInfo {
            symbol: "BTCUSDT".into(),
            status: "TRADING".into(),
            quote_asset: "USDT".into(),
        },
        SymbolInfo {
            symbol: "BICOUSDT".into(),
            status: "TRADING".into(),
            quote_asset: "USDT".into(),
        },
    ];
    let volumes = volumes(&[("BTCUSDT", 2_000.0), ("BICOUSDT", 500.0)]);

    assert_eq!(
        select_tracked_symbols(&symbols, &volumes, num(100.0), num(1_000.0)),
        vec!["BICOUSDT"]
    );
}

#[test]
fn universes_are_sorted_and_keep_their_volumes() {
    let markets = vec![
        market("SOLUSDT", "TRADING", "USDT"),
        market("ADAUSDT", "TRADING", "USDT"),
        market("XYZUSDT", "TRADING", "USDT"),
        market("ÄUSDT", "TRADING", "USDT"),
    ];
    let known = volumes(&[
        ("SOLUSDT", 100.0),
        ("ADAUSDT", 200.0),
        ("ÄUSDT", 150.0),
        ("ETHBTC", 150.0),
    ]);
    let universe = symbol_universe(&markets, &known, num(100.0), num(200.0)).ok().unwrap();
    assert_eq!(universe.symbols, vec!["ADAUSDT", "SOLUSDT", "ÄUSDT"]);
    assert_eq!(universe.quote_volumes.get("SOLUSDT"), Some(&num(100.0)));
    assert_eq!(universe.quote_volumes.get("ADAUSDT"), Some(&num(200.0)));
    assert!(!universe.quote_volumes.contains_key("ETHBTC"));
}

#[test]
fn an_empty_universe_is_an_error() {
    let markets = vec![market("BTCUSDT", "TRADING", "USDT")];
    let known = volumes(&[("BTCUSDT", f64::NAN)]);
    let error = symbol_universe(&markets, &known, num(0.0), num(1e12)).err().unwrap();
    assert_eq!(error, UniverseError::NoSymbols);
    assert_eq!(
        error.message(),
        "no trading USDT symbols meet the configured 24h quote-volume range"
    );
}

#[test]
fn settings_come_from_the_configuration() {
    let config = Config::default();
    let validated = validate_config(&config, true).unwrap();
    let settings = detector_settings(&config, &validated);
    assert_eq!(settings.window_candles, 720);
    assert_eq!(settings.interval_ms, 3_600_000);
    assert_eq!(settings.sideways_band_pct, num(2.0));
    assert_eq!(settings.min_sideways_closes_pct, num(95.0));
    assert_eq!(settings.positive_spike_pct, num(5.0));
    assert_eq!(settings.quiet_period_ms, 259_200_000);
}

#[test]
fn markets_with_a_history_are_evaluated() {
    let hour = 3_600_000;
    let config = Config {
        rolling_window: "20h".into(),
        post_spike_quiet_period: "2h".into(),
        ..Config::default()
    };
    let validated = validate_config(&config, true).unwrap();
    let history = |spike: f64| -> Vec<Candle> {
        (0..20)
            .map(|index| Candle {
                open_time_ms: index * hour,
                close_time_ms: index * hour + hour - 1,
                open: num(100.0),
                high: num(if index == 5 { spike } else { 100.5 }),
                low: num(99.5),
                close: num(100.0),
                quote_volume: num(1.0),
            })
            .collect()
    };
    let mut histories: TextMap<Vec<Candle>> = TextMap::new();
    histories.insert("BUSDT".into(), history(120.0));
    histories.insert("CUSDT".into(), history(101.0));
    histories.insert("DUSDT".into(), history(110.0));
    let markets = vec![
        market("DUSDT", "TRADING", "USDT"),
        market("CUSDT", "TRADING", "USDT"),
        market("BUSDT", "TRADING", "USDT"),
        market("AUSDT", "TRADING", "USDT"),
    ];
    let known = volumes(&[("AUSDT", 1.0), ("BUSDT", 2.0), ("CUSDT", 3.0), ("DUSDT", 4.0)]);
    let universe = symbol_universe(&markets, &known, num(0.0), num(10.0)).ok().unwrap();

    let found = evaluate_all(&universe, &histories, &config, &validated, &calc);
    let symbols: Vec<&str> = found.iter().map(|candidate| candidate.symbol.as_str()).collect();
    assert_eq!(symbols, vec!["BUSDT", "DUSDT"]);
    assert_eq!(found[0].quote_volume_24h, num(2.0));

    let unknown: TextMap<Number> = TextMap::new();
    let single =
        evaluate_symbol("DUSDT", &histories, &unknown, &config, &validated, &calc).unwrap();
    assert_eq!(single.quote_volume_24h, num(0.0));
    assert!(
        evaluate_symbol("AUSDT", &histories, &unknown, &config, &validated, &calc).is_none()
    );
}

#[test]
fn universes_are_compared() {
    let before = names(&["A", "B", "C"]);
    assert!(same_symbols(&before, &names(&["A", "B", "C"])));
    assert!(!same_symbols(&before, &names(&["A", "B"])));
    assert_eq!(universe_change(&before, &names(&["A", "B", "C"])), None);
    assert_eq!(
        universe_change(&before, &names(&["B", "D", "E"])),
        Some(UniverseChange { added: names(&["D", "E"]), removed_count: 2 })
    );
}

#[test]
fn histories_of_other_markets_are_dropped() {
    let mut histories: TextMap<i64> = TextMap::from_pairs(vec![
        ("A".to_string(), 1),
        ("B".to_string(), 2),
        ("C".to_string(), 3),
    ]);
    histories.retain_keys(&names(&["C", "D", "A"]));
    assert_eq!(histories.get("A"), Some(&1));
    assert_eq!(histories.get("C"), Some(&3));
    assert!(!histories.contains_key("B"));
    assert!(!histories.contains_key("D"));
}

#[test]
fn text_maps_hold_one_value_per_key() {
    let mut map: TextMap<i64> = TextMap::new();
    map.insert("a".into(), 1);
    map.insert("b".into(), 2);
    map.insert("a".into(), 3);
    assert_eq!(map.get("a"), Some(&3));
    assert_eq!(map.remove("a"), Some(3));
    assert_eq!(map.remove("a"), None);
    assert_eq!(map.pairs(), vec![("b".to_string(), 2)]);
}

#[test]
fn what_the_analysis_depends_on_restarts_it() {
    let config = Config::default();
    assert!(!analysis_config_changed(&config, &config.clone()));
    let changes = [
        Config { rolling_window: "20d".into(), ..Config::default() },
        Config { candle_interval: "2h".into(), ..Config::default() },
        Config { sideways_band_pct: num(3.0), ..Config::default() },
        Config { min_sideways_closes_pct: num(90.0), ..Config::default() },
        Config { positive_spike_pct: num(6.0), ..Config::default() },
        Config { post_spike_quiet_period: "2d".into(), ..Config::default() },
        Config { min_quote_volume_24h: num(1.0), ..Config::default() },
        Config { max_quote_volume_24h: num(1e12), ..Config::default() },
        Config { symbol_refresh_secs: 1, ..Config::default() },
    ];
    for changed in &changes {
        assert!(analysis_config_changed(&config, changed));
    }
    let zero = Config { sideways_band_pct: num(0.0), ..Config::default() };
    let minus_zero = Config { sideways_band_pct: num(-0.0), ..Config::default() };
    assert!(!analysis_config_changed(&zero, &minus_zero));
}

#[test]
fn credentials_and_url_do_not_restart_the_analysis() {
    let updated = Config {
        telegram_token: "t".into(),
        telegram_chat_id: "c".into(),
        healthcheck_url: "https://example.com".into(),
        ..Config::default()
    };
    assert_eq!(
        reload_effect(&Config::default(), &updated),
        ReloadEffect { call_healthcheck: true, restart_analysis: false }
    );
    let updated = Config { symbol_refresh_secs: 60, ..Config::default() };
    assert_eq!(
        reload_effect(&Config::default(), &updated),
        ReloadEffect { call_healthcheck: false, restart_analysis: true }
    );
}

#[test]
fn work_is_done_in_turns() {
    let mut session = Session::new(0);
    session.begin_analysis(1_000, 10);
    assert_eq!(session.healthcheck_at_ms, 3_600_000);
    assert_eq!(session.config_poll_at_ms, 6_000);
    assert_eq!(session.symbol_refresh_at_ms, 11_000);

    assert_eq!(session.next_step(5_999), Step::ReadSockets);
    assert_eq!(session.next_step(6_000), Step::PollConfig);
    session.config_polled(6_500);
    assert_eq!(session.next_step(6_500), Step::ReadSockets);
    assert_eq!(session.next_step(4_000_000), Step::CallHealthcheck);
    session.healthcheck_called(4_000_000);
    assert_eq!(session.next_step(4_000_000), Step::PollConfig);
    session.config_polled(4_000_000);
    assert_eq!(session.next_step(4_000_000), Step::RefreshSymbols);
    session.symbols_refreshed(4_000_000, 10);
    assert_eq!(session.next_step(4_000_000), Step::ReadSockets);
    assert_eq!(session.next_step(4_000_000), Step::ReadSockets);
    assert_eq!(session.healthcheck_at_ms, 7_600_000);
    assert_eq!(session.symbol_refresh_at_ms, 4_010_000);
}

#[test]
fn waits_beyond_the_clock_end_with_it() {
    let mut session = Session::new(u64::MAX);
    assert_eq!(session.healthcheck_at_ms, u64::MAX);
    session.begin_analysis(1_000, u64::MAX / 10);
    assert_eq!(session.symbol_refresh_at_ms, u64::MAX);
    assert_eq!(session.config_poll_at_ms, 6_000);
    session.symbols_refreshed(0, u64::MAX / 1_000);
    assert_eq!(session.symbol_refresh_at_ms, u64::MAX / 1_000 * 1_000);
}

#[test]
fn sockets_decide_about_the_connection() {
    let mut backoff = Backoff::new();
    backoff.grow();
    backoff.grow();
    assert_eq!(after_read(SocketEvent::Idle, &mut backoff), SocketAction::Skip);
    assert_eq!(after_read(SocketEvent::Failed, &mut backoff), SocketAction::Reconnect);
    assert_eq!(backoff.secs(), 4);
    assert_eq!(after_read(SocketEvent::Other, &mut backoff), SocketAction::Skip);
    assert_eq!(backoff.secs(), 1);
    backoff.grow();
    assert_eq!(after_read(SocketEvent::Text, &mut backoff), SocketAction::Handle);
    assert_eq!(backoff.secs(), 1);
}

#[test]
fn spikes_are_forgotten_after_a_window() {
    assert_eq!(oldest_allowed_ms(10_000, 3_000), 7_000);
    assert_eq!(oldest_allowed_ms(0, 3_000), -3_000);
}
