//! What becomes of the data of the exchange, and what the exchange is asked.

use crate::binance;
use crate::binance::{
    batches, json_f64, json_i64, parse_kline, quote_volumes, stream_name, subscription_message,
    subscription_to, Cell, CellView, Ticker24h, WsKline, WsKlineEvent, WsSubscriptionAck,
};
use crate::config::ValidatedConfig;
use crate::detector::Candle;
use crate::feed;
use crate::feed::{route_message, take_candle, update_history, FeedItem};
use crate::json;
use crate::json::JsonView;
use crate::number;
use crate::number::Number;
use crate::ordering;
use crate::pager;
use crate::pager::{page_query, CandlePager, PageRequest, PagerView};
use crate::text;
use crate::text_map;
use crate::text_map::TextMap;
use vstd::prelude::*;

verus! {

/// The integer at a place of a row.
pub open spec fn integer_at(row: Seq<CellView>, place: int) -> Option<i64> {
    if place < row.len() {
        match row[place] {
            CellView::Numeric(whole, _) => whole,
            CellView::Text(_) => None,
            CellView::Other => None,
        }
    } else {
        None
    }
}

/// The number at a place of a row, written or not.
pub open spec fn figure_at(
    read: spec_fn(Seq<char>) -> Option<Number>,
    row: Seq<CellView>,
    place: int,
) -> Option<Number> {
    if place < row.len() {
        match row[place] {
            CellView::Numeric(_, nearest) => nearest,
            CellView::Text(chars) => read(chars),
            CellView::Other => None,
        }
    } else {
        None
    }
}

/// Whether a candle is what the first eight entries of a row say.
pub open spec fn says(
    read: spec_fn(Seq<char>) -> Option<Number>,
    row: Seq<CellView>,
    candle: Candle,
) -> bool {
    &&& integer_at(row, 0) == Some(candle.open_time_ms)
    &&& figure_at(read, row, 1) == Some(candle.open)
    &&& figure_at(read, row, 2) == Some(candle.high)
    &&& figure_at(read, row, 3) == Some(candle.low)
    &&& figure_at(read, row, 4) == Some(candle.close)
    &&& integer_at(row, 6) == Some(candle.close_time_ms)
    &&& figure_at(read, row, 7) == Some(candle.quote_volume)
}

/// A row makes a candle if and only if the entries at the places of its times are integers
/// and those at the places of its figures can be read; the candle is then what they say.
pub proof fn law_rows_say_their_candles<R: Fn(&str) -> Option<Number>>(
    row: Vec<Cell>,
    read: R,
    result: Option<Candle>,
)
    requires
        number::reads(read),
        call_ensures(parse_kline::<R>, (&row, &read), result),
    ensures
        ({
            let cells = ordering::views(row@);
            let reading = number::readings(read);
            match result {
                Some(candle) => says(reading, cells, candle),
                None => integer_at(cells, 0) is None || figure_at(reading, cells, 1) is None
                    || figure_at(reading, cells, 2) is None || figure_at(reading, cells, 3) is None
                    || figure_at(reading, cells, 4) is None || integer_at(cells, 6) is None
                    || figure_at(reading, cells, 7) is None,
            }
        }),
{
}

/// Entries behind the eighth do not matter: rows with the same first eight entries make the
/// same candle.
pub proof fn law_later_entries_do_not_matter<R: Fn(&str) -> Option<Number>>(
    row: Vec<Cell>,
    other: Vec<Cell>,
    read: R,
    result: Option<Candle>,
    other_result: Option<Candle>,
)
    requires
        number::reads(read),
        row@.len() >= 8,
        other@.len() >= 8,
        forall|i: int| 0 <= i < 8 ==> (#[trigger] row@[i])@ == (#[trigger] other@[i])@,
        call_ensures(parse_kline::<R>, (&row, &read), result),
        call_ensures(parse_kline::<R>, (&other, &read), other_result),
    ensures
        result == other_result,
{
    let a = ordering::views(row@);
    let b = ordering::views(other@);
    assert forall|i: int| 0 <= i < 8 implies a[i] == b[i] by {
        assert(row@[i]@ == other@[i]@);
    }
}

/// Single entries are read by their kind.
pub proof fn law_entries_are_read_by_kind<R: Fn(&str) -> Option<Number>>(
    row: Vec<Cell>,
    place: usize,
    read: R,
    whole: Option<i64>,
    figure: Option<Number>,
)
    requires
        number::reads(read),
        call_ensures(json_i64, (&row, place), whole),
        call_ensures(json_f64::<R>, (&row, place, &read), figure),
    ensures
        whole == integer_at(ordering::views(row@), place as int),
        figure == figure_at(number::readings(read), ordering::views(row@), place as int),
{
}

/// A streamed candle keeps its times, and each figure is what its own text reads as; there
/// is none if and only if one of the texts cannot be read.
pub proof fn law_streamed_candles_are_read<R: Fn(&str) -> Option<Number>>(
    kline: WsKline,
    read: R,
    result: Option<Candle>,
)
    requires
        number::reads(read),
        call_ensures(WsKline::into_candle::<R>, (kline, &read), result),
    ensures
        ({
            let reading = number::readings(read);
            match result {
                Some(candle) => {
                    &&& candle.open_time_ms == kline.open_time_ms
                    &&& candle.close_time_ms == kline.close_time_ms
                    &&& reading(kline.open@) == Some(candle.open)
                    &&& reading(kline.high@) == Some(candle.high)
                    &&& reading(kline.low@) == Some(candle.low)
                    &&& reading(kline.close@) == Some(candle.close)
                    &&& reading(kline.quote_volume@) == Some(candle.quote_volume)
                },
                None => reading(kline.open@) is None || reading(kline.high@) is None || reading(
                    kline.low@,
                ) is None || reading(kline.close@) is None || reading(kline.quote_volume@) is None,
            }
        }),
{
}

/// Whether a ticker tells the volume of a market.
pub open spec fn tells(
    reading: spec_fn(Seq<char>) -> Option<Number>,
    ticker: (Seq<char>, Seq<char>),
    symbol: Seq<char>,
) -> bool {
    ticker.0 == symbol && reading(ticker.1) is Some
}

/// Tickers of which none tells the volume of a market leave it without one.
proof fn lemma_untold(
    reading: spec_fn(Seq<char>) -> Option<Number>,
    tickers: Seq<(Seq<char>, Seq<char>)>,
    symbol: Seq<char>,
)
    requires
        forall|i: int|
            0 <= i < tickers.len() ==> !tells(reading, #[trigger] tickers[i], symbol),
    ensures
        !text_map::map_of(binance::readable_volumes(reading, tickers)).contains_key(symbol),
    decreases tickers.len(),
{
    reveal(Seq::filter_map);
    if tickers.len() > 0 {
        let rest = tickers.drop_last();
        let last = tickers[tickers.len() - 1];
        assert(!tells(reading, last, symbol));
        assert forall|i: int| 0 <= i < rest.len() implies !tells(
            reading,
            #[trigger] rest[i],
            symbol,
        ) by {
            assert(!tells(reading, tickers[i], symbol));
        }
        lemma_untold(reading, rest, symbol);
        let pairs = binance::readable_volumes(reading, tickers);
        let fewer = binance::readable_volumes(reading, rest);
        if reading(last.1) is Some {
            assert(pairs =~= fewer.push((last.0, reading(last.1)->0)));
            assert(pairs.drop_last() =~= fewer);
        } else {
            assert(pairs =~= fewer);
        }
    }
}

/// The last ticker that tells the volume of a market gives it.
proof fn lemma_told(
    reading: spec_fn(Seq<char>) -> Option<Number>,
    tickers: Seq<(Seq<char>, Seq<char>)>,
    symbol: Seq<char>,
    place: int,
)
    requires
        0 <= place < tickers.len(),
        tells(reading, tickers[place], symbol),
        forall|i: int|
            place < i < tickers.len() ==> !tells(reading, #[trigger] tickers[i], symbol),
    ensures
        text_map::map_of(binance::readable_volumes(reading, tickers)).contains_key(symbol),
        text_map::map_of(binance::readable_volumes(reading, tickers))[symbol] == reading(
            tickers[place].1,
        )->0,
    decreases tickers.len(),
{
    reveal(Seq::filter_map);
    let rest = tickers.drop_last();
    let last = tickers[tickers.len() - 1];
    let pairs = binance::readable_volumes(reading, tickers);
    let fewer = binance::readable_volumes(reading, rest);
    if reading(last.1) is Some {
        assert(pairs =~= fewer.push((last.0, reading(last.1)->0)));
        assert(pairs.drop_last() =~= fewer);
    } else {
        assert(pairs =~= fewer);
    }
    if place < rest.len() {
        assert(!tells(reading, last, symbol));
        assert forall|i: int| place < i < rest.len() implies !tells(
            reading,
            #[trigger] rest[i],
            symbol,
        ) by {
            assert(!tells(reading, tickers[i], symbol));
        }
        lemma_told(reading, rest, symbol, place);
    }
}

/// The volume of a market is what the last ticker says whose market it is and whose volume
/// can be read.
pub proof fn law_last_readable_ticker_counts<R: Fn(&str) -> Option<Number>>(
    tickers: Vec<Ticker24h>,
    read: R,
    result: TextMap<Number>,
    symbol: Seq<char>,
    place: int,
)
    requires
        number::reads(read),
        call_ensures(quote_volumes::<R>, (&tickers, &read), result),
        0 <= place < tickers@.len(),
        tells(number::readings(read), tickers@[place]@, symbol),
        forall|i: int|
            place < i < tickers@.len() ==> !tells(
                number::readings(read),
                (#[trigger] tickers@[i])@,
                symbol,
            ),
    ensures
        result@.contains_key(symbol),
        Some(result@[symbol]) == number::readings(read)(tickers@[place].quote_volume@),
{
    let all = ordering::views(tickers@);
    assert forall|i: int| place < i < all.len() implies !tells(
        number::readings(read),
        #[trigger] all[i],
        symbol,
    ) by {
        assert(!tells(number::readings(read), tickers@[i]@, symbol));
    }
    lemma_told(number::readings(read), all, symbol, place);
}

/// A market of which no ticker tells a readable volume has none.
pub proof fn law_unreadable_tickers_do_not_count<R: Fn(&str) -> Option<Number>>(
    tickers: Vec<Ticker24h>,
    read: R,
    result: TextMap<Number>,
    symbol: Seq<char>,
)
    requires
        number::reads(read),
        call_ensures(quote_volumes::<R>, (&tickers, &read), result),
        forall|i: int|
            0 <= i < tickers@.len() ==> !tells(
                number::readings(read),
                (#[trigger] tickers@[i])@,
                symbol,
            ),
    ensures
        !result@.contains_key(symbol),
{
    let all = ordering::views(tickers@);
    assert forall|i: int| 0 <= i < all.len() implies !tells(
        number::readings(read),
        #[trigger] all[i],
        symbol,
    ) by {
        assert(!tells(number::readings(read), tickers@[i]@, symbol));
    }
    lemma_untold(number::readings(read), all, symbol);
}

/// A stream has the name of its market in lower case, a mark and the interval.
pub proof fn law_streams_are_named(lowered: &str, interval: &str, result: String)
    requires
        call_ensures(stream_name, (lowered, interval), result),
    ensures
        result@ == lowered@ + "@kline_"@ + interval@,
{
}

/// A subscription names a stream for each market, in order.
pub proof fn law_subscriptions_name_every_market(
    symbols: Vec<String>,
    interval: &str,
    streams: Vec<String>,
    message: String,
    plain: String,
)
    requires
        streams@.len() == symbols@.len(),
        forall|i: int|
            0 <= i < symbols@.len() ==> (#[trigger] streams@[i])@ == binance::lowercase(
                symbols@[i]@,
            ) + "@kline_"@ + interval@,
        call_ensures(subscription_message, (&symbols, interval), message),
        call_ensures(subscription_to, (streams,), plain),
    ensures
        message@ == plain@,
        plain@ == json::json_object(
            seq![
                ("id"@, JsonView::Whole(1)),
                ("method"@, JsonView::Text("SUBSCRIBE"@)),
                ("params"@, JsonView::List(ordering::views(streams@))),
            ],
        ),
{
    let names = ordering::views(symbols@);
    assert(ordering::views(streams@) =~= binance::streams_of(names, interval@));
}

/// Each connection takes a hundred markets, but for the last one, which takes what is left:
/// market `k` is the one at place `k % 100` of batch `k / 100`.
pub proof fn law_each_market_has_its_batch(symbols: Vec<String>, split: Vec<Vec<String>>, k: int)
    requires
        call_ensures(batches, (&symbols,), split),
        0 <= k < symbols@.len(),
    ensures
        0 <= k / 100 < split@.len(),
        k % 100 < split@[k / 100]@.len() <= 100,
        split@[k / 100]@[k % 100]@ == symbols@[k]@,
        forall|b: int| 0 <= b < split@.len() - 1 ==> (#[trigger] split@[b])@.len() == 100,
        forall|b: int| 0 <= b < split@.len() ==> (#[trigger] split@[b])@.len() > 0,
{
    let names = ordering::views(symbols@);
    let b = k / 100;
    assert(ordering::views(split@[b]@) == binance::batch_of(names, b));
    assert(ordering::views(split@[b]@)[k % 100] == split@[b]@[k % 100]@);
    assert forall|c: int| 0 <= c < split@.len() implies (#[trigger] split@[c])@.len() > 0 && (c
        < split@.len() - 1 ==> split@[c]@.len() == 100) by {
        assert(ordering::views(split@[c]@) == binance::batch_of(names, c));
        assert(ordering::views(split@[c]@).len() == split@[c]@.len());
    }
}

/// A page is asked for as long as candles are missing and earlier ones may exist: one more
/// than are missing, but a thousand at most, and none behind the end.
pub proof fn law_pages_ask_for_what_is_missing(
    collecting: CandlePager,
    request: Option<PageRequest>,
)
    requires
        call_ensures(CandlePager::next_request, (&collecting,), request),
    ensures
        request is None <==> collecting@.exhausted || collecting@.candles.len()
            >= collecting@.required,
        request matches Some(asked) ==> {
            &&& asked.end_time_ms == collecting@.end_time_ms
            &&& asked.limit <= 1000
            &&& asked.limit < 1000 ==> asked.limit == collecting@.required
                - collecting@.candles.len() + 1
            &&& asked.limit == 1000 ==> collecting@.required - collecting@.candles.len() >= 999
        },
{
}

/// The request for a page names market, interval, number of candles and end.
pub proof fn law_page_queries_are_complete(
    symbol: &str,
    interval: &str,
    request: PageRequest,
    query: Vec<(String, String)>,
)
    requires
        call_ensures(page_query, (symbol, interval, request), query),
    ensures
        query@.len() == 4,
        query@[0].0@ == "symbol"@ && query@[0].1@ == symbol@,
        query@[1].0@ == "interval"@ && query@[1].1@ == interval@,
        query@[2].0@ == "limit"@ && query@[2].1@ == text::decimal(request.limit as int),
        query@[3].0@ == "endTime"@ && query@[3].1@ == text::decimal(request.end_time_ms as int),
{
    let told = pager::query_views(query@);
    assert(told.len() == query@.len());
    assert(told[0] == (query@[0].0@, query@[0].1@));
    assert(told[1] == (query@[1].0@, query@[1].1@));
    assert(told[2] == (query@[2].0@, query@[2].1@));
    assert(told[3] == (query@[3].0@, query@[3].1@));
}

/// The earliest open time is that of a row and none is earlier.
proof fn lemma_earliest(rows: Seq<Seq<CellView>>)
    ensures
        match pager::earliest_open(rows) {
            Some(earliest) => {
                &&& exists|i: int|
                    0 <= i < rows.len() && integer_at(#[trigger] rows[i], 0) == Some(earliest)
                &&& forall|i: int|
                    0 <= i < rows.len() && integer_at(#[trigger] rows[i], 0) is Some ==> integer_at(
                        rows[i],
                        0,
                    )->0 >= earliest
            },
            None => forall|i: int|
                0 <= i < rows.len() ==> integer_at(#[trigger] rows[i], 0) is None,
        },
    decreases rows.len(),
{
    if rows.len() > 0 {
        let rest = rows.drop_last();
        let last = rows.len() - 1;
        lemma_earliest(rest);
        assert(rows[last] == rows.last());
        assert(pager::open_time_of(rows.last()) == integer_at(rows[last], 0));
        assert forall|i: int| 0 <= i < rest.len() implies rest[i] == #[trigger] rows[i] by {}
        if let Some(earliest) = pager::earliest_open(rest) {
            let i = choose|i: int|
                0 <= i < rest.len() && integer_at(#[trigger] rest[i], 0) == Some(earliest);
            assert(integer_at(rows[i], 0) == Some(earliest));
            assert forall|j: int|
                0 <= j < rows.len() && integer_at(#[trigger] rows[j], 0) is Some implies integer_at(
                rows[j],
                0,
            )->0 >= pager::earliest_open(rows)->0 by {
                if j < last {
                    assert(integer_at(rest[j], 0) is Some);
                }
            }
        } else {
            assert forall|j: int| 0 <= j < last implies integer_at(#[trigger] rows[j], 0) is None by {
                assert(integer_at(rest[j], 0) is None);
            }
        }
    }
}

/// Behind a page the search goes on right before the earliest open time of its rows, if
/// that is positive and earlier than the end of the page; otherwise it is over.
pub proof fn law_search_goes_on_before_earliest_row(
    read: spec_fn(Seq<char>) -> Option<Number>,
    before: PagerView,
    rows: Seq<Seq<CellView>>,
    earliest: i64,
    place: int,
)
    requires
        0 <= place < rows.len(),
        integer_at(rows[place], 0) == Some(earliest),
        forall|i: int|
            0 <= i < rows.len() && integer_at(#[trigger] rows[i], 0) is Some ==> integer_at(
                rows[i],
                0,
            )->0 >= earliest,
    ensures
        ({
            let after = pager::after_page(read, before, rows);
            &&& after.now_ms == before.now_ms
            &&& after.required == before.required
            &&& if 0 < earliest && earliest < before.end_time_ms {
                after.end_time_ms == earliest - 1 && after.exhausted == before.exhausted
            } else {
                after.end_time_ms == before.end_time_ms && after.exhausted
            }
        }),
{
    lemma_earliest(rows);
}

/// A page none of whose rows has an open time ends the search.
pub proof fn law_search_ends_without_open_times(
    read: spec_fn(Seq<char>) -> Option<Number>,
    before: PagerView,
    rows: Seq<Seq<CellView>>,
)
    requires
        forall|i: int| 0 <= i < rows.len() ==> integer_at(#[trigger] rows[i], 0) is None,
    ensures
        pager::after_page(read, before, rows).exhausted,
        pager::after_page(read, before, rows).end_time_ms == before.end_time_ms,
{
    lemma_earliest(rows);
    if pager::earliest_open(rows) is Some {
        let i = choose|i: int|
            0 <= i < rows.len() && integer_at(#[trigger] rows[i], 0) == pager::earliest_open(rows);
        assert(integer_at(rows[i], 0) is None);
    }
}

/// Whether a row says a candle that opens at a time and has closed by another one.
pub open spec fn says_closed(
    read: spec_fn(Seq<char>) -> Option<Number>,
    now_ms: i64,
    row: Seq<CellView>,
    time: i64,
) -> bool {
    exists|candle: Candle| #[trigger]
        says(read, row, candle) && candle.open_time_ms == time && candle.close_time_ms <= now_ms
}

proof fn lemma_closed_candle(
    read: spec_fn(Seq<char>) -> Option<Number>,
    now_ms: i64,
    row: Seq<CellView>,
    time: i64,
)
    ensures
        says_closed(read, now_ms, row, time) <==> pager::closed_candle(read, now_ms, row) is Some
            && pager::closed_candle(read, now_ms, row)->0.open_time_ms == time,
        pager::closed_candle(read, now_ms, row) is Some ==> says(
            read,
            row,
            pager::closed_candle(read, now_ms, row)->0,
        ),
{
    if says_closed(read, now_ms, row, time) {
        let candle = choose|candle: Candle| #[trigger]
            says(read, row, candle) && candle.open_time_ms == time && candle.close_time_ms
                <= now_ms;
        assert(binance::row_candle(read, row) == Some(candle));
    }
    if let Some(candle) = binance::row_candle(read, row) {
        assert(says(read, row, candle));
    }
}

/// After a page the candle of an open time is what the last row says that says a closed
/// one; where no row does, it is what it was before.
pub proof fn law_pages_bring_closed_candles(
    read: spec_fn(Seq<char>) -> Option<Number>,
    before: PagerView,
    rows: Seq<Seq<CellView>>,
    time: i64,
)
    ensures
        ({
            let after = pager::after_page(read, before, rows).candles;
            let now_ms = before.now_ms;
            &&& forall|i: int|
                0 <= i < rows.len() && says_closed(read, now_ms, #[trigger] rows[i], time) && (
                forall|j: int|
                    i < j < rows.len() ==> !says_closed(read, now_ms, #[trigger] rows[j], time))
                    ==> after.contains_key(time) && says(read, rows[i], after[time])
            &&& (forall|i: int|
                0 <= i < rows.len() ==> !says_closed(read, now_ms, #[trigger] rows[i], time))
                ==> after.contains_key(time) == before.candles.contains_key(time) && (
            before.candles.contains_key(time) ==> after[time] == before.candles[time])
        }),
{
    let now_ms = before.now_ms;
    let after = pager::after_page(read, before, rows).candles;
    pager::law_last_row_counts(read, now_ms, before.candles, rows, time);
    let has_time = |row: Seq<CellView>|
        pager::closed_candle(read, now_ms, row) is Some && pager::closed_candle(
            read,
            now_ms,
            row,
        )->0.open_time_ms == time;
    assert forall|i: int| 0 <= i < rows.len() implies has_time(#[trigger] rows[i]) == says_closed(
        read,
        now_ms,
        rows[i],
        time,
    ) by {
        lemma_closed_candle(read, now_ms, rows[i], time);
    }
    assert forall|i: int|
        0 <= i < rows.len() && says_closed(read, now_ms, #[trigger] rows[i], time) && (forall|j: int|
            i < j < rows.len() ==> !says_closed(read, now_ms, #[trigger] rows[j], time)) implies after.contains_key(
    time) && says(read, rows[i], after[time]) by {
        assert(has_time(rows[i]));
        let k = choose|k: int|
            0 <= k < rows.len() && has_time(#[trigger] rows[k]) && after.contains_key(time)
                && after[time] == pager::closed_candle(read, now_ms, rows[k])->0 && forall|j: int|
                k < j < rows.len() ==> !has_time(#[trigger] rows[j]);
        if k < i {
            assert(!has_time(rows[i]));
        }
        if i < k {
            assert(!says_closed(read, now_ms, rows[k], time));
        }
        lemma_closed_candle(read, now_ms, rows[i], time);
    }
}

/// What is handed out in the end are collected candles, each once and in the order of their
/// open times: all of them, or the latest where there are more than required.
pub proof fn law_latest_candles_are_handed_out(collecting: CandlePager, result: Vec<Candle>)
    requires
        call_ensures(CandlePager::finish, (collecting,), result),
    ensures
        forall|i: int|
            0 <= i < result@.len() ==> collecting@.candles.contains_key(
                (#[trigger] result@[i]).open_time_ms,
            ) && collecting@.candles[result@[i].open_time_ms] == result@[i],
        forall|i: int, j: int|
            0 <= i < j < result@.len() ==> (#[trigger] result@[i]).open_time_ms < (
            #[trigger] result@[j]).open_time_ms,
        result@.len() <= collecting@.required,
        forall|time: i64| #[trigger]
            collecting@.candles.contains_key(time) ==> result@.contains(collecting@.candles[time])
                || result@.len() == collecting@.required && (forall|i: int|
                0 <= i < result@.len() ==> time < (#[trigger] result@[i]).open_time_ms),
{
    let candles = collecting@.candles;
    let times = pager::open_times(candles);
    let all = pager::in_order(candles);
    let skipped = if all.len() > collecting@.required {
        all.len() - collecting@.required
    } else {
        0
    };
    assert(result@ =~= all.skip(skipped));
    assert forall|i: int| 0 <= i < result@.len() implies candles.contains_key(
        (#[trigger] result@[i]).open_time_ms,
    ) && candles[result@[i].open_time_ms] == result@[i] by {
        let time = times[i + skipped];
        assert(times.contains(time));
        assert(candles.dom().contains(time));
        assert(candles.contains_key(time));
        assert(result@[i] == candles[time]);
    }
    assert forall|time: i64| #[trigger] candles.contains_key(time) implies result@.contains(
        candles[time],
    ) || result@.len() == collecting@.required && (forall|i: int|
        0 <= i < result@.len() ==> time < (#[trigger] result@[i]).open_time_ms) by {
        assert(candles.dom().contains(time));
        let k = choose|k: int| 0 <= k < times.len() && times[k] == time;
        if k >= skipped {
            assert(result@[k - skipped] == candles[time]);
        } else {
            assert forall|i: int| 0 <= i < result@.len() implies time < (
            #[trigger] result@[i]).open_time_ms by {
                let later = times[i + skipped];
                assert(times.contains(later));
                assert(candles.dom().contains(later));
                assert(candles.contains_key(later));
                assert(times[k] < times[i + skipped]);
                assert(result@[i] == candles[later]);
            }
        }
    }
}

/// A text is found in another one if and only if the other one is that text with something
/// before and something behind it.
pub proof fn law_texts_are_found(all: Seq<char>, before: Seq<char>, part: Seq<char>, behind: Seq<char>)
    ensures
        text::occurs(before + part + behind, part),
        text::occurs(all, part) ==> exists|start: Seq<char>, end: Seq<char>|
            all == #[trigger] (start + part + end),
{
    let whole = before + part + behind;
    let place = before.len() as int;
    assert(whole.subrange(place, place + part.len()) =~= part);
    if text::occurs(all, part) {
        let i = choose|i: int|
            0 <= i <= all.len() - part.len() && #[trigger] all.subrange(i, i + part.len()) == part;
        let start = all.take(i);
        let end = all.skip(i + part.len());
        assert forall|k: int| i <= k < i + part.len() implies all[k] == part[k - i] by {
            assert(all.subrange(i, i + part.len())[k - i] == all[k]);
        }
        assert(all =~= start + part + end);
    }
}

/// What a message of the stream comes to: a confirmation where it speaks of a result and
/// reads as one; a closed candle where it reads as an event whose candle is closed and can
/// be read; and nothing otherwise.
pub proof fn law_messages_are_told_apart<R: Fn(&str) -> Option<Number>>(
    message: &str,
    ack: Option<WsSubscriptionAck>,
    event: Option<WsKlineEvent>,
    read: R,
    result: FeedItem,
    candle: Option<Candle>,
)
    requires
        number::reads(read),
        call_ensures(route_message::<R>, (message, ack, event, &read), result),
        event matches Some(update) ==> call_ensures(
            WsKline::into_candle::<R>,
            (update.kline, &read),
            candle,
        ),
    ensures
        ({
            let confirms = text::occurs(message@, "\"result\""@) && ack is Some;
            match result {
                FeedItem::Acknowledged(id) => confirms && id == (match ack->0.id {
                    Some(number) => number,
                    None => 0,
                }),
                FeedItem::Closed(symbol, closed) => !confirms && event is Some
                    && event->0.kline.is_closed && symbol@ == event->0.symbol@ && candle == Some(
                    closed,
                ),
                FeedItem::Ignored => !confirms && (event is None || !event->0.kline.is_closed
                    || candle is None),
            }
        }),
{
}

/// Candles are missing before a candle if and only if it opens later than the last one of
/// the history, but not by just one interval.
pub proof fn law_gaps_are_found(history: Seq<Candle>, candle: Candle, interval_ms: int)
    ensures
        history.len() == 0 ==> !feed::has_gap(history, candle, interval_ms),
        history.len() > 0 ==> {
            let last_ms = history[history.len() - 1].open_time_ms;
            feed::has_gap(history, candle, interval_ms) <==> candle.open_time_ms > last_ms
                && candle.open_time_ms != last_ms + interval_ms
        },
{
}

/// A closed candle goes to the end of a history: in place of the last one where both open at
/// the same time, behind it where it opens later, and nowhere where it opens earlier. Only
/// where the window is full, the first candle makes room.
pub proof fn law_candles_go_to_the_end(
    history: Seq<Candle>,
    candle: Candle,
    window_candles: int,
)
    ensures
        ({
            let after = feed::extended(history, candle, window_candles);
            let count = history.len() as int;
            if count > 0 && candle.open_time_ms < history[count - 1].open_time_ms {
                after == history
            } else if count > 0 && candle.open_time_ms == history[count - 1].open_time_ms {
                &&& after.len() == count
                &&& after[count - 1] == candle
                &&& forall|i: int| 0 <= i < count - 1 ==> after[i] == #[trigger] history[i]
            } else if count < window_candles {
                &&& after.len() == count + 1
                &&& after[count] == candle
                &&& forall|i: int| 0 <= i < count ==> after[i] == #[trigger] history[i]
            } else {
                &&& after.len() == count
                &&& count > 0 ==> after[count - 1] == candle
                &&& forall|i: int| 0 < i < count ==> after[i - 1] == #[trigger] history[i]
            }
        }),
{
}

/// At first nothing is collected, and the search begins now.
pub proof fn law_searches_begin_now(now_ms: i64, required: usize, collecting: CandlePager)
    requires
        call_ensures(CandlePager::new, (now_ms, required), collecting),
    ensures
        collecting@.now_ms == now_ms,
        collecting@.end_time_ms == now_ms,
        collecting@.required == required,
        !collecting@.exhausted,
        collecting@.candles == Map::<i64, Candle>::empty(),
{
}

/// Rows are taken up as they come, whether given as cells or as the body of an answer. What
/// cannot be decoded is told, and changes nothing.
pub proof fn law_pages_are_taken_up<R: Fn(&str) -> Option<Number>>(
    collecting: &mut CandlePager,
    rows: Vec<Vec<Cell>>,
    asking: &mut CandlePager,
    body: &[u8],
    read: R,
    result: Result<(), String>,
)
    requires
        number::reads(read),
        call_ensures(CandlePager::accept_rows::<R>, (collecting, &rows, &read), ()),
        call_ensures(CandlePager::accept_body::<R>, (asking, body, &read), result),
    ensures
        final(collecting)@ == pager::after_page(
            number::readings(read),
            old(collecting)@,
            rows@.map_values(|row: Vec<Cell>| row@.map_values(|cell: Cell| cell@)),
        ),
        result is Ok <==> pager::decoded_rows(body@) is Ok,
        result is Ok ==> final(asking)@ == pager::after_page(
            number::readings(read),
            old(asking)@,
            pager::decoded_rows(body@)->Ok_0,
        ),
        result matches Err(reason) ==> pager::decoded_rows(body@) == Err::<
            Seq<Seq<CellView>>,
            Seq<char>,
        >(reason@) && final(asking)@ == old(asking)@,
{
    assert(rows@.map_values(|row: Vec<Cell>| row@.map_values(|cell: Cell| cell@))
        =~= binance::row_views(rows@)) by {
        assert forall|i: int| 0 <= i < rows@.len() implies #[trigger] binance::row_views(rows@)[i]
            == rows@[i]@.map_values(|cell: Cell| cell@) by {
            assert(binance::row_views(rows@)[i] =~= rows@[i]@.map_values(|cell: Cell| cell@));
        }
    }
}

/// A closed candle that leaves a gap behind the last one is refused, and the history stays as
/// it is. Every other one is put into the history, and its place shows in what is there
/// afterwards.
pub proof fn law_histories_take_candles_without_gaps(
    history: &mut Vec<Candle>,
    candle: Candle,
    interval_ms: i64,
    window_candles: usize,
    gap: bool,
)
    requires
        call_ensures(update_history, (history, candle, interval_ms, window_candles), gap),
    ensures
        ({
            let before = old(history)@;
            let after = final(history)@;
            let count = before.len() as int;
            let last_ms = before[count - 1].open_time_ms;
            &&& gap <==> count > 0 && candle.open_time_ms > last_ms && candle.open_time_ms
                != last_ms + interval_ms
            &&& gap || count > 0 && candle.open_time_ms < last_ms ==> after == before
            &&& count > 0 && candle.open_time_ms == last_ms ==> after == before.update(
                count - 1,
                candle,
            )
            &&& !gap && (count == 0 || candle.open_time_ms > last_ms) && count < window_candles
                ==> after == before.push(candle)
            &&& !gap && (count == 0 || candle.open_time_ms > last_ms) && count >= window_candles
                ==> after == before.push(candle).skip(1)
        }),
{
    let before = old(history)@;
    if before.len() > 0 {
        assert(before.drop_last().push(candle) =~= before.update(before.len() - 1, candle));
    }
    assert(before.push(candle).drop_first() =~= before.push(candle).skip(1));
}

/// A closed candle goes into the history of its own market, which begins with it where there
/// was none, and no other history changes.
pub proof fn law_candles_go_to_their_market(
    histories: &mut TextMap<Vec<Candle>>,
    symbol: &str,
    candle: Candle,
    validated: ValidatedConfig,
    gap: bool,
    other: Seq<char>,
    history: &mut Vec<Candle>,
    alone: bool,
)
    requires
        call_ensures(take_candle, (histories, symbol, candle, &validated), gap),
        old(histories)@.contains_key(symbol@) ==> old(history)@ == old(histories)@[symbol@]@,
        !old(histories)@.contains_key(symbol@) ==> old(history)@.len() == 0,
        call_ensures(
            update_history,
            (history, candle, validated.interval_ms, validated.window_candles),
            alone,
        ),
    ensures
        gap == alone,
        final(histories)@.contains_key(symbol@),
        final(histories)@[symbol@]@ == final(history)@,
        other != symbol@ ==> (final(histories)@.contains_key(other) <==> old(histories)@.contains_key(other)),
        other != symbol@ && old(histories)@.contains_key(other) ==> final(histories)@[other]
            == old(histories)@[other],
{
    let before = feed::history_of(old(histories)@, symbol@);
    assert(before =~= old(history)@);
    if other != symbol@ {
        let kept = final(histories)@.remove(symbol@);
        assert(kept == old(histories)@.remove(symbol@));
        assert(kept.contains_key(other) <==> final(histories)@.contains_key(other));
        assert(kept.contains_key(other) <==> old(histories)@.contains_key(other));
        if old(histories)@.contains_key(other) {
            assert(kept[other] == final(histories)@[other]);
            assert(kept[other] == old(histories)@[other]);
        }
    }
}

/// Data and streams are found at their addresses.
pub proof fn law_exchange_has_its_addresses()
    ensures
        binance::REST_BASE_URL@ == "https://data-api.binance.vision"@,
        binance::WS_URL@ == "wss://data-stream.binance.vision/ws"@,
{
}

} // verus!
