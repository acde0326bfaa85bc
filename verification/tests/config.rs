use crypto_tracker::config::{
    candle_interval_secs, check_url, duration_secs, validate_config, Config, ConfigError,
    ValidatedConfig,
};
use crypto_tracker::number::Number;
use crypto_tracker::text::NumeralFault;

fn num(value: f64) -> Number {
    Number::from_bits(value.to_bits())
}

fn fault(config: Config) -> ConfigError {
    validate_config(&config, true).unwrap_err()
}

#[test]
fn defaults_produce_720_hourly_candles_and_72_quiet_candles() {
    let validated = validate_config(&Config::default(), true).unwrap();
    assert_eq!(validated.window_candles, 720);
    assert_eq!(validated.quiet_candles, 72);
}

#[test]
fn rejects_non_divisible_duration() {
    let config = Config {
        rolling_window: "31m".into(),
        candle_interval: "15m".into(),
        ..Config::default()
    };
    assert!(validate_config(&config, true).is_err());
}

#[test]
fn rejects_variable_month_interval() {
    let config = Config {
        candle_interval: "1M".into(),
        ..Config::default()
    };
    assert!(validate_config(&config, true).is_err());
}

#[test]
fn rejects_volume_maximum_below_minimum() {
    let config = Config {
        min_quote_volume_24h: num(1_000.0),
        max_quote_volume_24h: num(999.0),
        ..Config::default()
    };
    assert!(validate_config(&config, true).is_err());
}

#[test]
fn accepts_http_healthcheck_url() {
    let config = Config {
        healthcheck_url: "https://example.com/healthcheck".into(),
        ..Config::default()
    };
    assert!(validate_config(&config, true).is_ok());
}

#[test]
fn rejects_non_http_healthcheck_url() {
    let config = Config {
        healthcheck_url: "file:///tmp/healthcheck".into(),
        ..Config::default()
    };
    assert!(validate_config(&config, true).is_err());
}

#[test]
fn defaults_are_the_documented_ones() {
    let config = Config::default();
    assert_eq!(config.rolling_window, "30d");
    assert_eq!(config.candle_interval, "1h");
    assert_eq!(config.sideways_band_pct, num(2.0));
    assert_eq!(config.min_sideways_closes_pct, num(95.0));
    assert_eq!(config.positive_spike_pct, num(5.0));
    assert_eq!(config.post_spike_quiet_period, "3d");
    assert_eq!(config.min_quote_volume_24h, num(100_000_000.0));
    assert_eq!(config.max_quote_volume_24h, num(1_000_000_000.0));
    assert_eq!(config.symbol_refresh_secs, 900);
    assert_eq!(config.telegram_token, "");
    assert_eq!(config.telegram_chat_id, "");
    assert_eq!(config.healthcheck_url, "");
}

#[test]
fn configurations_are_equal_as_their_numbers_are() {
    let config = Config::default();
    assert!(config == config.clone());
    let zero = Config { min_quote_volume_24h: num(0.0), ..Config::default() };
    let minus_zero = Config { min_quote_volume_24h: num(-0.0), ..Config::default() };
    assert!(zero == minus_zero);
    let nan = Config { positive_spike_pct: num(f64::NAN), ..Config::default() };
    assert!(nan != nan.clone());
    assert!(config != Config { telegram_token: "t".into(), ..Config::default() });
    assert!(config != Config { symbol_refresh_secs: 1, ..Config::default() });
}

#[test]
fn times_are_reckoned_in_milliseconds() {
    assert_eq!(
        validate_config(&Config::default(), true),
        Ok(ValidatedConfig {
            window_candles: 720,
            quiet_candles: 72,
            interval_ms: 3_600_000,
            window_ms: 2_592_000_000,
            quiet_period_ms: 259_200_000,
        })
    );
}

#[test]
fn durations_have_an_amount_and_a_unit() {
    assert_eq!(duration_secs("5m"), Ok(300));
    assert_eq!(duration_secs("2h"), Ok(7_200));
    assert_eq!(duration_secs("30d"), Ok(2_592_000));
    assert_eq!(duration_secs("1w"), Ok(604_800));
    assert_eq!(duration_secs("+7d"), Ok(604_800));
    assert_eq!(duration_secs("007d"), Ok(604_800));
}

#[test]
fn broken_durations_are_told_apart() {
    assert_eq!(duration_secs("d"), Err(ConfigError::InvalidDuration("d".into())));
    assert_eq!(duration_secs(""), Err(ConfigError::InvalidDuration("".into())));
    assert_eq!(duration_secs("0d"), Err(ConfigError::ZeroDuration("0d".into())));
    assert_eq!(duration_secs("5s"), Err(ConfigError::UnknownUnit("5s".into())));
    assert_eq!(
        duration_secs("xd"),
        Err(ConfigError::MalformedAmount(NumeralFault::InvalidDigit))
    );
    assert_eq!(
        duration_secs("-1d"),
        Err(ConfigError::MalformedAmount(NumeralFault::InvalidDigit))
    );
    assert_eq!(
        duration_secs("99999999999999999999d"),
        Err(ConfigError::MalformedAmount(NumeralFault::TooLarge))
    );
    assert_eq!(
        duration_secs("18446744073709551615w"),
        Err(ConfigError::DurationTooLarge("18446744073709551615w".into()))
    );
}

#[test]
fn every_interval_has_its_length() {
    let lengths = [
        ("1s", 1),
        ("1m", 60),
        ("3m", 180),
        ("5m", 300),
        ("15m", 900),
        ("30m", 1_800),
        ("1h", 3_600),
        ("2h", 7_200),
        ("4h", 14_400),
        ("6h", 21_600),
        ("8h", 28_800),
        ("12h", 43_200),
        ("1d", 86_400),
        ("3d", 259_200),
        ("1w", 604_800),
    ];
    for (interval, secs) in lengths {
        assert_eq!(candle_interval_secs(interval), Ok(secs));
    }
    assert_eq!(candle_interval_secs("1M"), Err(ConfigError::MonthInterval));
    assert_eq!(
        candle_interval_secs("7h"),
        Err(ConfigError::UnsupportedInterval("7h".into()))
    );
}

#[test]
fn faults_in_the_times_are_told_apart() {
    let config = Config { rolling_window: "90m".into(), ..Config::default() };
    assert_eq!(fault(config), ConfigError::WindowNotDivisible);

    let config = Config { post_spike_quiet_period: "90m".into(), ..Config::default() };
    assert_eq!(fault(config), ConfigError::QuietPeriodNotDivisible);

    let config = Config { post_spike_quiet_period: "30d".into(), ..Config::default() };
    assert_eq!(fault(config), ConfigError::QuietPeriodTooLong);

    let config = Config {
        rolling_window: "19h".into(),
        post_spike_quiet_period: "1h".into(),
        ..Config::default()
    };
    assert_eq!(fault(config), ConfigError::WindowSize(19));

    let config = Config { rolling_window: "10001h".into(), ..Config::default() };
    assert_eq!(fault(config), ConfigError::WindowSize(10_001));

    let config = Config {
        rolling_window: "20h".into(),
        post_spike_quiet_period: "1h".into(),
        ..Config::default()
    };
    assert_eq!(validate_config(&config, true).unwrap().window_candles, 20);

    let config = Config { rolling_window: "10000h".into(), ..Config::default() };
    assert_eq!(validate_config(&config, true).unwrap().window_candles, 10_000);
}

#[test]
fn faults_in_the_settings_are_told_apart() {
    let config = Config { sideways_band_pct: num(-0.5), ..Config::default() };
    assert_eq!(fault(config), ConfigError::BandRange);
    let config = Config { sideways_band_pct: num(100.0), ..Config::default() };
    assert_eq!(fault(config), ConfigError::BandRange);
    let config = Config { sideways_band_pct: num(f64::NAN), ..Config::default() };
    assert_eq!(fault(config), ConfigError::BandRange);
    let config = Config { sideways_band_pct: num(-0.0), ..Config::default() };
    assert!(validate_config(&config, true).is_ok());

    let config = Config { min_sideways_closes_pct: num(0.0), ..Config::default() };
    assert_eq!(fault(config), ConfigError::MinClosesRange);
    let config = Config { min_sideways_closes_pct: num(-0.0), ..Config::default() };
    assert_eq!(fault(config), ConfigError::MinClosesRange);
    let config = Config { min_sideways_closes_pct: num(100.5), ..Config::default() };
    assert_eq!(fault(config), ConfigError::MinClosesRange);
    let config = Config { min_sideways_closes_pct: num(100.0), ..Config::default() };
    assert!(validate_config(&config, true).is_ok());

    let config = Config { positive_spike_pct: num(2.0), ..Config::default() };
    assert_eq!(fault(config), ConfigError::SpikeNotAboveBand);
    let config = Config { positive_spike_pct: num(f64::NAN), ..Config::default() };
    assert!(validate_config(&config, true).is_ok());

    let config = Config { min_quote_volume_24h: num(-1.0), ..Config::default() };
    assert_eq!(fault(config), ConfigError::MinVolume);
    let config = Config { min_quote_volume_24h: num(f64::INFINITY), ..Config::default() };
    assert_eq!(fault(config), ConfigError::MinVolume);
    let config = Config { max_quote_volume_24h: num(f64::INFINITY), ..Config::default() };
    assert_eq!(fault(config), ConfigError::MaxVolume);
    let config = Config { max_quote_volume_24h: num(1.0), ..Config::default() };
    assert_eq!(fault(config), ConfigError::MaxVolume);

    let config = Config { symbol_refresh_secs: 0, ..Config::default() };
    assert_eq!(fault(config), ConfigError::RefreshInterval);
}

#[test]
fn healthcheck_urls_are_parsed() {
    let config = Config { healthcheck_url: "no url".into(), ..Config::default() };
    assert_eq!(
        fault(config),
        ConfigError::HealthcheckUrl("relative URL without a base".into())
    );
    let config = Config { healthcheck_url: "ftp://example.com".into(), ..Config::default() };
    assert_eq!(fault(config), ConfigError::HealthcheckScheme);
    let config = Config { healthcheck_url: "HTTP://example.com".into(), ..Config::default() };
    assert!(validate_config(&config, true).is_ok());
}

#[test]
fn parsed_urls_are_judged_by_their_scheme() {
    assert_eq!(check_url(Ok("http".into())), Ok(()));
    assert_eq!(check_url(Ok("https".into())), Ok(()));
    assert_eq!(check_url(Ok("file".into())), Err(ConfigError::HealthcheckScheme));
    assert_eq!(
        check_url(Err("empty host".into())),
        Err(ConfigError::HealthcheckUrl("empty host".into()))
    );
}

#[test]
fn credentials_are_needed_unless_in_a_dry_run() {
    assert_eq!(
        validate_config(&Config::default(), false),
        Err(ConfigError::MissingCredentials)
    );
    let config = Config { telegram_token: "t".into(), ..Config::default() };
    assert_eq!(validate_config(&config, false), Err(ConfigError::MissingCredentials));
    let config = Config {
        telegram_token: "t".into(),
        telegram_chat_id: "c".into(),
        ..Config::default()
    };
    assert!(validate_config(&config, false).is_ok());
}

#[test]
fn config_errors_speak() {
    let messages = [
        (ConfigError::InvalidDuration("d".into()), "invalid duration: d"),
        (
            ConfigError::MalformedAmount(NumeralFault::Empty),
            "cannot parse integer from empty string",
        ),
        (ConfigError::ZeroDuration("0d".into()), "duration must be positive: 0d"),
        (
            ConfigError::UnknownUnit("5s".into()),
            "unsupported duration unit in 5s; use m, h, d or w",
        ),
        (ConfigError::DurationTooLarge("9w".into()), "duration is too large: 9w"),
        (
            ConfigError::MonthInterval,
            "candle interval 1M is unsupported because calendar months vary in length",
        ),
        (
            ConfigError::UnsupportedInterval("7h".into()),
            "unsupported Binance candle interval: 7h",
        ),
        (
            ConfigError::WindowNotDivisible,
            "rolling_window must be exactly divisible by candle_interval",
        ),
        (
            ConfigError::QuietPeriodNotDivisible,
            "post_spike_quiet_period must be exactly divisible by candle_interval",
        ),
        (
            ConfigError::QuietPeriodTooLong,
            "post_spike_quiet_period must be shorter than rolling_window",
        ),
        (
            ConfigError::CountOutOfRange,
            "out of range integral type conversion attempted",
        ),
        (
            ConfigError::WindowSize(19),
            "rolling window must contain between 20 and 10000 candles, got 19",
        ),
        (
            ConfigError::BandRange,
            "sideways_band_pct must be at least 0 and below 100",
        ),
        (
            ConfigError::MinClosesRange,
            "min_sideways_closes_pct must be above 0 and at most 100",
        ),
        (
            ConfigError::SpikeNotAboveBand,
            "positive_spike_pct must be greater than sideways_band_pct",
        ),
        (
            ConfigError::MinVolume,
            "min_quote_volume_24h must be a finite, non-negative number",
        ),
        (
            ConfigError::MaxVolume,
            "max_quote_volume_24h must be finite and greater than or equal to min_quote_volume_24h",
        ),
        (ConfigError::RefreshInterval, "symbol_refresh_secs must be at least 1"),
        (
            ConfigError::HealthcheckUrl("empty host".into()),
            "invalid healthcheck_url: empty host",
        ),
        (ConfigError::HealthcheckScheme, "healthcheck_url must use http or https"),
        (
            ConfigError::MissingCredentials,
            "missing Telegram credentials; set TELEGRAM_BOT_TOKEN and TELEGRAM_CHAT_ID or use --dry-run",
        ),
    ];
    for (error, words) in messages {
        assert_eq!(error.message(), words);
    }
}
