use crypto_tracker::cli::{
    parse_args, parse_config, reload_config, try_parse_config, try_reload_config, CliError,
    CliOptions, CliRequest, EnvCredentials,
};
use crypto_tracker::config::{Config, ConfigError};
use crypto_tracker::number::Number;
use crypto_tracker::text::{
    byte_len, contains_text, decimal_text, read_unsigned, same_text, strip_suffix, NumeralFault,
};

fn num(value: f64) -> Number {
    Number::from_bits(value.to_bits())
}

fn read(text: &str) -> Option<Number> {
    text.parse::<f64>().ok().map(num)
}

fn args(list: &[&str]) -> Vec<String> {
    list.iter().map(|arg| arg.to_string()).collect()
}

fn options(list: &[&str]) -> CliOptions {
    match parse_args(&args(list), &read) {
        Ok(CliRequest::Run(options)) => options,
        _ => panic!("the arguments ask for something else"),
    }
}

fn error(list: &[&str]) -> CliError {
    match parse_args(&args(list), &read) {
        Err(error) => error,
        Ok(_) => panic!("the arguments are accepted"),
    }
}

fn env(token: Option<&str>, chat_id: Option<&str>) -> EnvCredentials {
    EnvCredentials {
        token: token.map(str::to_string),
        chat_id: chat_id.map(str::to_string),
    }
}

fn numeral(text: &str) -> Result<u64, NumeralFault> {
    let chars: Vec<char> = text.chars().collect();
    read_unsigned(&chars)
}

#[test]
fn every_setting_has_an_argument() {
    let given = options(&[
        "--rolling-window", "20d",
        "--candle-interval", "2h",
        "--sideways-band-pct", "3",
        "--min-sideways-closes-pct", "90",
        "--positive-spike-pct", "7.5",
        "--post-spike-quiet-period", "2d",
        "--min-quote-volume-24h", "1e3",
        "--max-quote-volume-24h", "1e6",
        "--symbol-refresh-secs", "60",
        "--telegram-token", "token",
        "--telegram-chat-id", "chat",
        "--healthcheck-url", "https://example.com",
        "--dry-run",
        "--save-config",
    ]);
    let parsed = parse_config(given, &env(None, None), None).ok().unwrap();
    assert_eq!(
        parsed.config,
        Config {
            rolling_window: "20d".into(),
            candle_interval: "2h".into(),
            sideways_band_pct: num(3.0),
            min_sideways_closes_pct: num(90.0),
            positive_spike_pct: num(7.5),
            post_spike_quiet_period: "2d".into(),
            min_quote_volume_24h: num(1e3),
            max_quote_volume_24h: num(1e6),
            symbol_refresh_secs: 60,
            telegram_token: "token".into(),
            telegram_chat_id: "chat".into(),
            healthcheck_url: "https://example.com".into(),
        }
    );
    assert!(parsed.dry_run);
    assert!(parsed.save_config);
    assert_eq!(parsed.validated.window_candles, 240);
}

#[test]
fn no_arguments_leave_the_defaults() {
    let parsed = parse_config(options(&["--dry-run"]), &env(None, None), None).ok().unwrap();
    assert_eq!(parsed.config, Config::default());
    assert!(parsed.dry_run);
    assert!(!parsed.save_config);
}

#[test]
fn help_ends_the_reading() {
    assert!(matches!(parse_args(&args(&["--help", "--nonsense"]), &read), Ok(CliRequest::Help)));
    assert!(matches!(parse_args(&args(&["--dry-run", "-h"]), &read), Ok(CliRequest::Help)));
}

#[test]
fn broken_arguments_are_told_apart() {
    assert_eq!(error(&["--nonsense"]), CliError::UnknownArgument("--nonsense".into()));
    assert_eq!(
        error(&["--rolling-window"]),
        CliError::MissingValue("--rolling-window".into())
    );
    assert_eq!(error(&["--sideways-band-pct", "x"]), CliError::NotANumber(false));
    assert_eq!(error(&["--sideways-band-pct", ""]), CliError::NotANumber(true));
    assert_eq!(
        error(&["--symbol-refresh-secs", "-1"]),
        CliError::NotAnInteger(NumeralFault::InvalidDigit)
    );
}

#[test]
fn command_line_errors_speak_as_std_does() {
    assert_eq!(error(&["-x"]).message(), "unknown argument: -x");
    assert_eq!(error(&["--telegram-token"]).message(), "missing value for --telegram-token");
    assert_eq!(
        error(&["--positive-spike-pct", "x"]).message(),
        "x".parse::<f64>().unwrap_err().to_string()
    );
    assert_eq!(
        error(&["--positive-spike-pct", ""]).message(),
        "".parse::<f64>().unwrap_err().to_string()
    );
    for value in ["", "x", "+", "-", "99999999999999999999"] {
        assert_eq!(
            error(&["--symbol-refresh-secs", value]).message(),
            value.parse::<u64>().unwrap_err().to_string()
        );
    }
}

#[test]
fn a_later_argument_replaces_an_earlier_one() {
    let given = options(&["--telegram-token", "a", "--telegram-token", "--dry-run"]);
    assert_eq!(given.overrides.telegram_token, Some("--dry-run".to_string()));
    assert!(!given.dry_run);
}

#[test]
fn command_line_beats_environment_beats_file() {
    let file = Config {
        rolling_window: "20d".into(),
        telegram_token: "file".into(),
        telegram_chat_id: "file".into(),
        ..Config::default()
    };
    let given = options(&["--telegram-chat-id", "line", "--dry-run"]);
    let parsed =
        parse_config(given, &env(Some("env"), Some("env")), Some(file.clone())).ok().unwrap();
    assert_eq!(parsed.config.rolling_window, "20d");
    assert_eq!(parsed.config.telegram_token, "env");
    assert_eq!(parsed.config.telegram_chat_id, "line");

    let parsed = parse_config(options(&[]), &env(Some(""), None), Some(file)).ok().unwrap();
    assert_eq!(parsed.config.telegram_token, "file");
    assert_eq!(parsed.config.telegram_chat_id, "file");
}

#[test]
fn invalid_configurations_are_refused() {
    let result = parse_config(options(&[]), &env(None, None), None);
    assert_eq!(result.err(), Some(ConfigError::MissingCredentials));
}

#[test]
fn reloading_takes_file_and_environment() {
    assert_eq!(reload_config(None, &env(Some("t"), Some("c")), false), Ok(None));
    let file = Config { symbol_refresh_secs: 5, ..Config::default() };
    let (config, validated) =
        reload_config(Some(file.clone()), &env(Some("t"), Some("c")), false).unwrap().unwrap();
    assert_eq!(
        config,
        Config {
            telegram_token: "t".into(),
            telegram_chat_id: "c".into(),
            ..file.clone()
        }
    );
    assert_eq!(validated.window_candles, 720);
    let broken = Config { symbol_refresh_secs: 0, ..file };
    assert_eq!(
        reload_config(Some(broken), &env(None, None), true),
        Err(ConfigError::RefreshInterval)
    );
}

#[test]
fn durations_that_cannot_be_split_are_told_apart() {
    let given = options(&["--dry-run", "--rolling-window", "3ä"]);
    assert!(try_parse_config(given, &env(None, None), None).is_none());
    let given = options(&["--dry-run", "--post-spike-quiet-period", "3ä"]);
    assert!(try_parse_config(given, &env(None, None), None).is_none());
    let given = options(&["--dry-run", "--rolling-window", "x", "--post-spike-quiet-period", "ä"]);
    assert_eq!(
        try_parse_config(given, &env(None, None), None).unwrap().err(),
        Some(ConfigError::InvalidDuration("x".into()))
    );
    let parsed = try_parse_config(options(&["--dry-run"]), &env(None, None), None);
    assert_eq!(parsed.unwrap().ok().unwrap().config, Config::default());

    let broken = Config { rolling_window: "é".into(), ..Config::default() };
    assert!(try_reload_config(Some(broken), &env(None, None), true).is_none());
    assert_eq!(try_reload_config(None, &env(None, None), true), Some(Ok(None)));
    assert!(
        try_reload_config(Some(Config::default()), &env(None, None), true).unwrap().is_ok()
    );
}

#[test]
fn numerals_are_read_as_std_does() {
    for text in [
        "0", "7", "+7", "007", "18446744073709551615", "18446744073709551616", "", "+", "-", "-1",
        "++1", "1 ", "a", "12x", "99999999999999999999x", "x99999999999999999999", "١",
    ] {
        assert_eq!(numeral(text).ok(), text.parse::<u64>().ok());
        if let (Err(fault), Err(error)) = (numeral(text), text.parse::<u64>()) {
            assert_eq!(fault.message(), error.to_string());
        }
    }
}

#[test]
fn numerals_are_written_as_std_does() {
    for value in [0, 7, 10, -1, -10, 1_000_000, i64::MAX as i128, i64::MIN as i128] {
        assert_eq!(decimal_text(value), value.to_string());
    }
}

#[test]
fn texts_are_compared_searched_and_cut() {
    assert!(same_text("äb", "äb"));
    assert!(!same_text("äb", "äc"));
    assert!(!same_text("a", "ab"));
    assert_eq!(byte_len("äb"), 3);
    assert!(contains_text("a\"result\"b", "\"result\""));
    assert!(contains_text("abc", ""));
    assert!(contains_text("aab", "ab"));
    assert!(!contains_text("result", "\"result\""));
    assert_eq!(strip_suffix("BTCUSDT", "USDT"), Some("BTC".to_string()));
    assert_eq!(strip_suffix("USD", "USDT"), None);
    assert_eq!(strip_suffix("ÄUSDT", "USDT"), Some("Ä".to_string()));
}
