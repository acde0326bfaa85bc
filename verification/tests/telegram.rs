use crypto_tracker::config::Config;
use crypto_tracker::detector::CandidateResult;
use crypto_tracker::number::{Number, Operation};
use crypto_tracker::status::HttpStatus;
use crypto_tracker::telegram::{
    candidate_message, candidate_summaries, check_response, display_pair, escape_markdown_v2,
    message_body, send_message_url, timed_message, trade_link, TELEGRAM_SAFE_MESSAGE_LEN,
};

fn num(value: f64) -> Number {
    Number::from_bits(value.to_bits())
}

fn float(value: Number) -> f64 {
    f64::from_bits(value.bits)
}

fn calc(op: Operation) -> Number {
    num(match op {
        Operation::Sum(a, b) => float(a) + float(b),
        Operation::Difference(a, b) => float(a) - float(b),
        Operation::Product(a, b) => float(a) * float(b),
        Operation::Quotient(a, b) => float(a) / float(b),
        Operation::Count(count) => count as f64,
        Operation::Millis(millis) => millis as f64,
    })
}

fn show(value: Number, decimals: usize) -> String {
    format!("{:.*}", decimals, float(value))
}

fn candidate(symbol: &str) -> CandidateResult {
    CandidateResult {
        symbol: symbol.into(),
        median_price: num(100.0),
        band_lower: num(98.0),
        band_upper: num(102.0),
        sideways_close_ratio: num(96.0),
        latest_close: num(100.0),
        latest_spike_time_ms: 0,
        latest_spike_high: num(106.0),
        latest_spike_pct: num(6.0),
        largest_spike_time_ms: 0,
        largest_spike_pct: num(8.0),
        quiet_period_ms: 3_600_000,
        quote_volume_24h: num(200_000_000.0),
    }
}

#[test]
fn escapes_markdown_control_characters() {
    assert_eq!(escape_markdown_v2("A+B.C"), "A\\+B\\.C");
}

#[test]
fn candidate_message_contains_strategy_metrics() {
    let candidate = CandidateResult {
        symbol: "BTCUSDT".into(),
        median_price: num(100.0),
        band_lower: num(98.0),
        band_upper: num(102.0),
        sideways_close_ratio: num(96.0),
        latest_close: num(100.0),
        latest_spike_time_ms: 0,
        latest_spike_high: num(106.0),
        latest_spike_pct: num(6.0),
        largest_spike_time_ms: 0,
        largest_spike_pct: num(8.0),
        quiet_period_ms: 3_600_000,
        quote_volume_24h: num(200_000_000.0),
    };
    let message = candidate_message(&Config::default(), &candidate, &calc, &show);
    assert!(message.contains("[BTC/USDT](https://www.binance.com/de/trade/BTC_USDT)"));
    assert!(message.contains("Closes im Band"));
    assert!(message.contains("96\\.00%"));
}

#[test]
fn trade_link_uses_requested_binance_pair_url() {
    assert_eq!(
        trade_link("BICOUSDT"),
        "[BICO/USDT](https://www.binance.com/de/trade/BICO_USDT)"
    );
}

#[test]
fn every_reserved_character_is_escaped_and_no_other() {
    assert_eq!(
        escape_markdown_v2("_*[]()~`>#+-=|{}.!"),
        "\\_\\*\\[\\]\\(\\)\\~\\`\\>\\#\\+\\-\\=\\|\\{\\}\\.\\!"
    );
    assert_eq!(escape_markdown_v2("aZ9 %:/\\ä\n"), "aZ9 %:/\\ä\n");
    assert_eq!(escape_markdown_v2(""), "");
}

#[test]
fn pairs_are_shown_with_a_slash() {
    assert_eq!(display_pair("BTCUSDT"), "BTC/USDT");
    assert_eq!(display_pair("ETHBTC"), "ETHBTC");
    assert_eq!(display_pair("USDT"), "/USDT");
    assert_eq!(trade_link("ETHBTC"), "[ETHBTC](https://www.binance.com/de/trade/ETHBTC_USDT)");
}

#[test]
fn a_message_on_a_candidate_is_complete() {
    let message = timed_message(
        &Config::default(),
        &candidate("BTCUSDT"),
        "01.02.2025 03:04",
        "05.06.2025 07:08",
        &calc,
        &show,
    );
    assert_eq!(
        message,
        "Seitwärts\\-Kandidat\n\nAktueller Close: 100\\.00000000\nMedian: 100\\.00000000\n\
         Band: 98\\.00000000 bis 102\\.00000000\nCloses im Band: 96\\.00%\n\n\
         Jüngster Spike: \\+6\\.00% am 01\\.02\\.2025 03:04\n\
         Jüngstes Spike\\-High: 106\\.00000000\n\
         Größter Spike: \\+8\\.00% am 05\\.06\\.2025 07:08\n\
         Ruhe seit Spike: 1\\.0h\n\nFenster: 30d\nKerzen: 1h\n\
         24h Quote\\-Volumen: 200000000\n\n\
         [BTC/USDT](https://www.binance.com/de/trade/BTC_USDT)"
    );
}

#[test]
fn times_without_a_date_stand_as_numbers() {
    let undated = CandidateResult {
        latest_spike_time_ms: i64::MAX,
        largest_spike_time_ms: i64::MIN,
        ..candidate("BTCUSDT")
    };
    let message = candidate_message(&Config::default(), &undated, &calc, &show);
    assert_eq!(
        message,
        timed_message(
            &Config::default(),
            &undated,
            "9223372036854775807",
            "-9223372036854775808",
            &calc,
            &show,
        )
    );
}

#[test]
fn times_with_a_date_stand_in_local_time() {
    let dated = CandidateResult {
        latest_spike_time_ms: 1_740_000_000_000,
        largest_spike_time_ms: 1_700_000_000_000,
        ..candidate("BTCUSDT")
    };
    let local = |ms: i64| {
        chrono::DateTime::from_timestamp_millis(ms)
            .unwrap()
            .with_timezone(&chrono::Local)
            .format("%d.%m.%Y %H:%M")
            .to_string()
    };
    assert_eq!(
        candidate_message(&Config::default(), &dated, &calc, &show),
        timed_message(
            &Config::default(),
            &dated,
            &local(1_740_000_000_000),
            &local(1_700_000_000_000),
            &calc,
            &show,
        )
    );
}

#[test]
fn a_short_summary_is_one_message() {
    let messages = candidate_summaries(&Config::default(), &vec![candidate("BTCUSDT")], &show);
    assert_eq!(
        messages,
        vec![
            "Historische Kandidaten: 1\nFenster: 30d, Kerzen: 1h\n\n\
             [BTC/USDT](https://www.binance.com/de/trade/BTC_USDT) \\| im Band 96\\.0% \\| \
             letzter Spike \\+6\\.00% \\| größter Spike \\+8\\.00% \\| Volumen 200000000\n"
                .to_string()
        ]
    );
}

#[test]
fn no_candidates_make_no_summary() {
    assert!(candidate_summaries(&Config::default(), &Vec::new(), &show).is_empty());
}

#[test]
fn a_long_summary_is_split_between_lines() {
    let candidates: Vec<CandidateResult> =
        (0..100).map(|index| candidate(&format!("COIN{index}USDT"))).collect();
    let messages = candidate_summaries(&Config::default(), &candidates, &show);
    assert!(messages.len() > 1);
    let heading = "Historische Kandidaten: 100\nFenster: 30d, Kerzen: 1h\n\n";
    let mut lines = 0;
    let mut next = 0;
    for message in &messages {
        assert!(message.len() <= TELEGRAM_SAFE_MESSAGE_LEN);
        let body = message.strip_prefix(heading).unwrap();
        for line in body.lines() {
            assert!(line.starts_with(&format!("[COIN{next}/USDT](")));
            next += 1;
            lines += 1;
        }
    }
    assert_eq!(lines, 100);
    assert!(messages[0].len() + messages[1].len() - heading.len() > TELEGRAM_SAFE_MESSAGE_LEN);
}

#[test]
fn messages_are_posted_to_the_bot() {
    assert_eq!(
        send_message_url("12:ab"),
        "https://api.telegram.org/bot12:ab/sendMessage"
    );
}

#[test]
fn bodies_are_json_objects() {
    assert_eq!(
        message_body("-100", "a \"b\"\n\\ \u{1}ä"),
        "{\"chat_id\":\"-100\",\"disable_web_page_preview\":true,\
         \"parse_mode\":\"MarkdownV2\",\"text\":\"a \\\"b\\\"\\n\\\\ \\u0001ä\"}"
    );
}

#[test]
fn bodies_escape_every_control_character() {
    let body = message_body("1", "\u{8}\t\u{c}\r\u{1f}\u{7f}/");
    assert!(body.ends_with("\"text\":\"\\b\\t\\f\\r\\u001f\u{7f}/\"}"));
}

#[test]
fn refused_messages_tell_status_and_body() {
    let ok = HttpStatus::from_u16(200).unwrap();
    assert_eq!(check_response(ok, "ignored"), Ok(()));
    let bad = HttpStatus::from_u16(400).unwrap();
    assert_eq!(
        check_response(bad, "chat not found"),
        Err("telegram sendMessage failed: 400 Bad Request chat not found".to_string())
    );
}
