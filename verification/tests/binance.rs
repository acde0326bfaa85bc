use crypto_tracker::binance::{
    batches, json_f64, json_i64, parse_kline, quote_volumes, stream_name, subscription_message,
    subscription_to, Cell, Ticker24h, WsKline, WsKlineEvent, WsSubscriptionAck,
};
use crypto_tracker::feed::{route_message, take_candle, update_history, FeedItem};
use crypto_tracker::config::{validate_config, Config};
use crypto_tracker::detector::Candle;
use crypto_tracker::number::Number;
use crypto_tracker::pager::{page_query, CandlePager, PageRequest};
use crypto_tracker::text_map::TextMap;

fn num(value: f64) -> Number {
    Number::from_bits(value.to_bits())
}

fn float(value: Number) -> f64 {
    f64::from_bits(value.bits)
}

fn read(text: &str) -> Option<Number> {
    text.parse::<f64>().ok().map(num)
}

fn whole(value: i64) -> Cell {
    Cell::Numeric(Some(value), Some(num(value as f64)))
}

fn text(value: &str) -> Cell {
    Cell::Text(value.into())
}

fn kline(closed: bool) -> WsKline {
    WsKline {
        open_time_ms: 1,
        close_time_ms: 2,
        is_closed: closed,
        open: "100".into(),
        high: "106.5".into(),
        low: "99".into(),
        close: "101".into(),
        quote_volume: "5000".into(),
    }
}

fn candle(open_time_ms: i64) -> Candle {
    Candle {
        open_time_ms,
        close_time_ms: open_time_ms + 9,
        open: num(1.0),
        high: num(1.0),
        low: num(1.0),
        close: num(1.0),
        quote_volume: num(1.0),
    }
}

fn row(open_time_ms: i64, close: f64) -> String {
    format!(
        "[{open_time_ms},\"1\",\"2\",\"0.5\",\"{close}\",\"7\",{},\"9\"]",
        open_time_ms + 9
    )
}

fn body(rows: &[String]) -> Vec<u8> {
    format!("[{}]", rows.join(",")).into_bytes()
}

#[test]
fn parses_complete_rest_kline() {
    let row = vec![
        whole(1),
        text("100"),
        text("106"),
        text("99"),
        text("101"),
        text("10"),
        whole(3_600_000),
        text("5000"),
    ];
    let candle = parse_kline(&row, &read).unwrap();
    assert_eq!(candle.open_time_ms, 1);
    assert_eq!(float(candle.high), 106.0);
    assert_eq!(float(candle.quote_volume), 5000.0);
    assert_eq!(candle.close_time_ms, 3_600_000);
    assert_eq!(float(candle.open), 100.0);
    assert_eq!(float(candle.low), 99.0);
    assert_eq!(float(candle.close), 101.0);
}

#[test]
fn rejects_malformed_rest_kline() {
    let row = vec![whole(1), text("invalid")];
    assert!(parse_kline(&row, &read).is_none());
}

#[test]
fn entries_are_read_by_their_kind() {
    let row = vec![whole(7), text("1.5"), Cell::Numeric(None, Some(num(2.5))), Cell::Other];
    assert_eq!(json_i64(&row, 0), Some(7));
    assert_eq!(json_i64(&row, 1), None);
    assert_eq!(json_i64(&row, 2), None);
    assert_eq!(json_i64(&row, 9), None);
    assert_eq!(json_f64(&row, 0, &read), Some(num(7.0)));
    assert_eq!(json_f64(&row, 1, &read), Some(num(1.5)));
    assert_eq!(json_f64(&row, 2, &read), Some(num(2.5)));
    assert_eq!(json_f64(&row, 3, &read), None);
    assert_eq!(json_f64(&row, 9, &read), None);
}

#[test]
fn streamed_candles_are_read() {
    let candle = kline(true).into_candle(&read).unwrap();
    assert_eq!(candle.open_time_ms, 1);
    assert_eq!(candle.close_time_ms, 2);
    assert_eq!(float(candle.open), 100.0);
    assert_eq!(float(candle.high), 106.5);
    assert_eq!(float(candle.low), 99.0);
    assert_eq!(float(candle.close), 101.0);
    assert_eq!(float(candle.quote_volume), 5000.0);
    let broken = WsKline { low: "x".into(), ..kline(true) };
    assert!(broken.into_candle(&read).is_none());
}

#[test]
fn unreadable_volumes_are_left_out() {
    let ticker = |symbol: &str, volume: &str| Ticker24h {
        symbol: symbol.into(),
        quote_volume: volume.into(),
    };
    let volumes = quote_volumes(
        &vec![ticker("A", "1.5"), ticker("B", "?"), ticker("A", "2.5"), ticker("C", "x")],
        &read,
    );
    assert_eq!(volumes.get("A"), Some(&num(2.5)));
    assert!(!volumes.contains_key("B"));
    assert!(!volumes.contains_key("C"));
}

#[test]
fn subscriptions_name_streams_in_lower_case() {
    assert_eq!(
        subscription_message(&vec!["BTCUSDT".into(), "1INCHUSDT".into()], "1h"),
        "{\"id\":1,\"method\":\"SUBSCRIBE\",\"params\":[\"btcusdt@kline_1h\",\"1inchusdt@kline_1h\"]}"
    );
    assert_eq!(
        subscription_message(&vec!["ÄÖ".into()], "1d"),
        "{\"id\":1,\"method\":\"SUBSCRIBE\",\"params\":[\"äö@kline_1d\"]}"
    );
}

#[test]
fn subscriptions_take_given_streams() {
    assert_eq!(stream_name("btcusdt", "4h"), "btcusdt@kline_4h");
    assert_eq!(
        subscription_to(vec!["a".into()]),
        "{\"id\":1,\"method\":\"SUBSCRIBE\",\"params\":[\"a\"]}"
    );
    assert_eq!(
        subscription_to(Vec::new()),
        "{\"id\":1,\"method\":\"SUBSCRIBE\",\"params\":[]}"
    );
}

#[test]
fn connections_take_a_hundred_markets() {
    let symbols: Vec<String> = (0..250).map(|index| format!("S{index}")).collect();
    let split = batches(&symbols);
    let sizes: Vec<usize> = split.iter().map(Vec::len).collect();
    assert_eq!(sizes, vec![100, 100, 50]);
    let all: Vec<String> = split.into_iter().flatten().collect();
    assert_eq!(all, symbols);
    assert_eq!(batches(&symbols[..200].to_vec()).len(), 2);
    assert!(batches(&Vec::new()).is_empty());
}

#[test]
fn pages_are_asked_for_until_there_are_enough() {
    let mut pager = CandlePager::new(1_000, 3);
    assert_eq!(pager.next_request(), Some(PageRequest { limit: 4, end_time_ms: 1_000 }));
    pager.accept_body(&body(&[row(980, 1.0), row(990, 2.0), row(1_000, 3.0)]), &read).unwrap();
    assert_eq!(pager.next_request(), Some(PageRequest { limit: 2, end_time_ms: 979 }));
    pager.accept_body(&body(&[row(960, 4.0), row(970, 5.0)]), &read).unwrap();
    assert_eq!(pager.next_request(), None);
    let opens: Vec<i64> = pager.finish().iter().map(|candle| candle.open_time_ms).collect();
    assert_eq!(opens, vec![970, 980, 990]);
}

#[test]
fn pages_have_at_most_a_thousand_candles() {
    assert_eq!(CandlePager::new(5, 998).next_request().unwrap().limit, 999);
    assert_eq!(CandlePager::new(5, 999).next_request().unwrap().limit, 1000);
    assert_eq!(CandlePager::new(5, 1000).next_request().unwrap().limit, 1000);
    assert_eq!(CandlePager::new(5, usize::MAX).next_request().unwrap().limit, 1000);
    assert_eq!(CandlePager::new(5, 0).next_request(), None);
}

#[test]
fn an_empty_page_ends_the_search() {
    let mut pager = CandlePager::new(1_000, 3);
    pager.accept_body(b"[]", &read).unwrap();
    assert_eq!(pager.next_request(), None);
    assert!(pager.finish().is_empty());
}

#[test]
fn pages_that_do_not_go_back_end_the_search() {
    let mut pager = CandlePager::new(1_000, 3);
    pager.accept_body(&body(&[row(1_000, 1.0)]), &read).unwrap();
    assert_eq!(pager.next_request(), None);

    let mut pager = CandlePager::new(1_000, 3);
    pager.accept_body(&body(&[row(0, 1.0)]), &read).unwrap();
    assert_eq!(pager.next_request(), None);
    assert_eq!(pager.finish().len(), 1);

    let mut pager = CandlePager::new(1_000, 3);
    pager.accept_body(b"[[\"no time\"]]", &read).unwrap();
    assert_eq!(pager.next_request(), None);
}

#[test]
fn rows_that_make_no_candle_still_show_how_far_a_page_goes_back() {
    let mut pager = CandlePager::new(1_000, 3);
    pager.accept_body(b"[[500],[600,\"x\"]]", &read).unwrap();
    assert_eq!(pager.next_request(), Some(PageRequest { limit: 4, end_time_ms: 499 }));
}

#[test]
fn a_later_row_takes_the_place_of_an_earlier_one() {
    let mut pager = CandlePager::new(1_000, 9);
    pager.accept_body(&body(&[row(30, 1.0), row(10, 2.0), row(20, 3.0), row(10, 4.0)]), &read)
        .unwrap();
    let found: Vec<(i64, f64)> = pager
        .finish()
        .iter()
        .map(|candle| (candle.open_time_ms, float(candle.close)))
        .collect();
    assert_eq!(found, vec![(10, 4.0), (20, 3.0), (30, 1.0)]);
}

#[test]
fn rows_hold_numbers_in_writing_or_not() {
    let mut pager = CandlePager::new(1_000, 9);
    pager
        .accept_body(b"[[10,1.5,2,\"0.5\",1e0,null,20,9],[30.0,1,1,1,1,1,40,1]]", &read)
        .unwrap();
    let found = pager.finish();
    assert_eq!(found.len(), 1);
    assert_eq!(float(found[0].open), 1.5);
    assert_eq!(float(found[0].high), 2.0);
    assert_eq!(float(found[0].low), 0.5);
    assert_eq!(float(found[0].close), 1.0);
    assert_eq!(float(found[0].quote_volume), 9.0);
}

#[test]
fn bodies_that_are_no_rows_are_refused() {
    let mut pager = CandlePager::new(1_000, 3);
    assert!(pager.accept_body(b"{\"code\":-1121}", &read).is_err());
    assert_eq!(
        pager.accept_body(b"", &read),
        Err("EOF while parsing a value at line 1 column 0".to_string())
    );
    assert_eq!(pager.next_request(), Some(PageRequest { limit: 4, end_time_ms: 1_000 }));
}

#[test]
fn rows_can_be_taken_up_directly() {
    let mut pager = CandlePager::new(100, 1);
    let rows = vec![vec![
        whole(10),
        text("1"),
        text("2"),
        text("1"),
        text("2"),
        Cell::Other,
        whole(100),
        text("3"),
    ]];
    pager.accept_rows(&rows, &read);
    assert_eq!(pager.next_request(), None);
    assert_eq!(pager.finish()[0].close_time_ms, 100);
}

#[test]
fn page_queries_name_what_is_asked_for() {
    let pair = |name: &str, value: &str| (name.to_string(), value.to_string());
    assert_eq!(
        page_query("BTCUSDT", "1h", PageRequest { limit: 721, end_time_ms: 1_700_000 }),
        vec![
            pair("symbol", "BTCUSDT"),
            pair("interval", "1h"),
            pair("limit", "721"),
            pair("endTime", "1700000"),
        ]
    );
}

#[test]
fn confirmations_are_told_by_their_number() {
    let message = "{\"result\":null,\"id\":7}";
    assert_eq!(
        route_message(message, Some(WsSubscriptionAck { id: Some(7) }), None, &read),
        FeedItem::Acknowledged(7)
    );
    assert_eq!(
        route_message(message, Some(WsSubscriptionAck { id: None }), None, &read),
        FeedItem::Acknowledged(0)
    );
    assert_eq!(route_message(message, None, None, &read), FeedItem::Ignored);
}

#[test]
fn closed_candles_are_taken_up() {
    let event = |closed: bool| WsKlineEvent { symbol: "BTCUSDT".into(), kline: kline(closed) };
    let candle = kline(true).into_candle(&read).unwrap();
    let ack = Some(WsSubscriptionAck { id: None });
    assert_eq!(
        route_message("{}", ack, Some(event(true)), &read),
        FeedItem::Closed("BTCUSDT".into(), candle)
    );
    assert_eq!(route_message("{}", ack, Some(event(false)), &read), FeedItem::Ignored);
    let broken = WsKlineEvent {
        symbol: "BTCUSDT".into(),
        kline: WsKline { close: "".into(), ..kline(true) },
    };
    assert_eq!(route_message("{}", None, Some(broken), &read), FeedItem::Ignored);
}

#[test]
fn histories_grow_and_slide() {
    let mut history = Vec::new();
    assert!(!update_history(&mut history, candle(10), 10, 3));
    assert!(!update_history(&mut history, candle(20), 10, 3));
    assert!(!update_history(&mut history, candle(30), 10, 3));
    assert!(!update_history(&mut history, candle(40), 10, 3));
    let opens: Vec<i64> = history.iter().map(|candle| candle.open_time_ms).collect();
    assert_eq!(opens, vec![20, 30, 40]);
}

#[test]
fn a_candle_with_the_same_time_takes_the_place_of_the_last() {
    let mut history = vec![candle(10), candle(20)];
    let updated = Candle { close: num(5.0), ..candle(20) };
    assert!(!update_history(&mut history, updated, 10, 3));
    assert_eq!(history, vec![candle(10), updated]);
}

#[test]
fn an_older_candle_is_left_out() {
    let mut history = vec![candle(10), candle(20)];
    assert!(!update_history(&mut history, candle(15), 10, 3));
    assert_eq!(history, vec![candle(10), candle(20)]);
}

#[test]
fn a_gap_asks_for_the_history() {
    let mut history = vec![candle(10), candle(20)];
    assert!(update_history(&mut history, candle(40), 10, 3));
    assert!(update_history(&mut history, candle(25), 10, 3));
    assert_eq!(history, vec![candle(10), candle(20)]);
}

#[test]
fn candles_go_into_the_history_of_their_market() {
    let validated = validate_config(&Config::default(), true).unwrap();
    let mut histories: TextMap<Vec<Candle>> = TextMap::new();
    histories.insert("B".into(), vec![candle(1)]);
    assert!(!take_candle(&mut histories, "A", candle(0), &validated));
    assert!(!take_candle(&mut histories, "A", candle(3_600_000), &validated));
    assert!(take_candle(&mut histories, "A", candle(3_600_001), &validated));
    assert_eq!(histories.get("A"), Some(&vec![candle(0), candle(3_600_000)]));
    assert_eq!(histories.get("B"), Some(&vec![candle(1)]));
}
