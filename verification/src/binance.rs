//! What the exchange sends and is asked: market data, candles and subscriptions.

use crate::detector::Candle;
use crate::json;
use crate::json::{object_text, JsonValue, JsonView};
use crate::number;
use crate::number::{read_number, Number};
use crate::ordering;
use crate::text_map;
use crate::text_map::TextMap;
use vstd::prelude::*;
use vstd::string::*;

verus! {

/// Where requests go.
pub const REST_BASE_URL: &'static str = "https://data-api.binance.vision";

/// Where subscriptions go.
pub const WS_URL: &'static str = "wss://data-stream.binance.vision/ws";

/// The most candles that one request may ask for.
pub const MAX_PAGE_CANDLES: usize = 1000;

/// The markets of the exchange.
#[derive(PartialEq, Eq, Debug)]
pub struct ExchangeInfo {
    pub symbols: Vec<SymbolInfo>,
}

/// One market of the exchange.
#[derive(PartialEq, Eq, Debug)]
pub struct SymbolInfo {
    pub symbol: String,
    pub status: String,
    pub quote_asset: String,
}

/// The contents of a [`SymbolInfo`].
pub struct SymbolView {
    pub symbol: Seq<char>,
    pub status: Seq<char>,
    pub quote_asset: Seq<char>,
}

impl View for SymbolInfo {
    type V = SymbolView;

    open spec fn view(&self) -> SymbolView {
        SymbolView {
            symbol: self.symbol@,
            status: self.status@,
            quote_asset: self.quote_asset@,
        }
    }
}

/// What was traded in a market in the last day, in the quote asset, as the exchange
/// writes it.
#[derive(PartialEq, Eq, Debug)]
pub struct Ticker24h {
    pub symbol: String,
    pub quote_volume: String,
}

impl View for Ticker24h {
    type V = (Seq<char>, Seq<char>);

    open spec fn view(&self) -> (Seq<char>, Seq<char>) {
        (self.symbol@, self.quote_volume@)
    }
}

/// An update of the latest candle of a market.
#[derive(PartialEq, Eq, Debug)]
pub struct WsKlineEvent {
    pub symbol: String,
    pub kline: WsKline,
}

/// A candle as the stream sends it, with the prices in writing.
#[derive(PartialEq, Eq, Debug)]
pub struct WsKline {
    pub open_time_ms: i64,
    pub close_time_ms: i64,
    pub is_closed: bool,
    pub open: String,
    pub high: String,
    pub low: String,
    pub close: String,
    pub quote_volume: String,
}

/// The contents of a [`WsKline`].
pub struct KlineView {
    pub open_time_ms: i64,
    pub close_time_ms: i64,
    pub is_closed: bool,
    pub open: Seq<char>,
    pub high: Seq<char>,
    pub low: Seq<char>,
    pub close: Seq<char>,
    pub quote_volume: Seq<char>,
}

impl View for WsKline {
    type V = KlineView;

    open spec fn view(&self) -> KlineView {
        KlineView {
            open_time_ms: self.open_time_ms,
            close_time_ms: self.close_time_ms,
            is_closed: self.is_closed,
            open: self.open@,
            high: self.high@,
            low: self.low@,
            close: self.close@,
            quote_volume: self.quote_volume@,
        }
    }
}

/// The confirmation of a subscription.
#[derive(Clone, Copy, PartialEq, Eq, Structural, Debug)]
pub struct WsSubscriptionAck {
    pub id: Option<u64>,
}

/// The candle of times and figures, where every figure is there.
pub open spec fn candle_from(
    open_time_ms: Option<i64>,
    close_time_ms: Option<i64>,
    open: Option<Number>,
    high: Option<Number>,
    low: Option<Number>,
    close: Option<Number>,
    quote_volume: Option<Number>,
) -> Option<Candle> {
    if open_time_ms is Some && close_time_ms is Some && open is Some && high is Some && low is Some
        && close is Some && quote_volume is Some {
        Some(
            Candle {
                open_time_ms: open_time_ms->0,
                close_time_ms: close_time_ms->0,
                open: open->0,
                high: high->0,
                low: low->0,
                close: close->0,
                quote_volume: quote_volume->0,
            },
        )
    } else {
        None
    }
}

/// The candle that the stream has sent, where every figure can be read.
pub open spec fn streamed_candle(
    read: spec_fn(Seq<char>) -> Option<Number>,
    kline: KlineView,
) -> Option<Candle> {
    candle_from(
        Some(kline.open_time_ms),
        Some(kline.close_time_ms),
        read(kline.open),
        read(kline.high),
        read(kline.low),
        read(kline.close),
        read(kline.quote_volume),
    )
}

impl WsKline {
    /// The candle with its figures read, or none where one of them cannot be read.
    pub fn into_candle<R: Fn(&str) -> Option<Number>>(self, read: &R) -> (result: Option<Candle>)
        requires
            number::reads(*read),
        ensures
            result == streamed_candle(number::readings(*read), self@),
    {
        let open = read_number(read, self.open.as_str());
        let high = read_number(read, self.high.as_str());
        let low = read_number(read, self.low.as_str());
        let close = read_number(read, self.close.as_str());
        let quote_volume = read_number(read, self.quote_volume.as_str());
        match (open, high, low, close, quote_volume) {
            (Some(open), Some(high), Some(low), Some(close), Some(quote_volume)) => Some(
                Candle {
                    open_time_ms: self.open_time_ms,
                    close_time_ms: self.close_time_ms,
                    open,
                    high,
                    low,
                    close,
                    quote_volume,
                },
            ),
            _ => None,
        }
    }
}

/// The markets with their volume as a number, without those whose volume cannot be
/// read.
pub open spec fn readable_volumes(
    read: spec_fn(Seq<char>) -> Option<Number>,
    tickers: Seq<(Seq<char>, Seq<char>)>,
) -> Seq<(Seq<char>, Number)> {
    tickers.filter_map(
        |ticker: (Seq<char>, Seq<char>)|
            match read(ticker.1) {
                Some(volume) => Some((ticker.0, volume)),
                None => None,
            },
    )
}

/// The volume of each market; of two entries for one market the later one counts.
pub fn quote_volumes<R: Fn(&str) -> Option<Number>>(tickers: &Vec<Ticker24h>, read: &R) -> (result:
    TextMap<Number>)
    requires
        number::reads(*read),
    ensures
        result@ == text_map::map_of(
            readable_volumes(number::readings(*read), ordering::views(tickers@)),
        ),
{
    let ghost reading = number::readings(*read);
    let ghost all = ordering::views(tickers@);
    let mut result: TextMap<Number> = TextMap::new();
    let mut i: usize = 0;
    assert(all.take(0) =~= Seq::<(Seq<char>, Seq<char>)>::empty());
    proof {
        reveal(Seq::filter_map);
    }
    while i < tickers.len()
        invariant
            i <= tickers@.len(),
            number::reads(*read),
            reading == number::readings(*read),
            all == ordering::views(tickers@),
            result@ == text_map::map_of(readable_volumes(reading, all.take(i as int))),
        decreases tickers@.len() - i,
    {
        let ghost earlier = readable_volumes(reading, all.take(i as int));
        let ghost longer = readable_volumes(reading, all.take(i + 1));
        proof {
            reveal(Seq::filter_map);
            assert(all.take(i + 1).drop_last() =~= all.take(i as int));
        }
        match read_number(read, tickers[i].quote_volume.as_str()) {
            Some(volume) => {
                result.insert(tickers[i].symbol.clone(), volume);
                assert(longer.drop_last() =~= earlier);
            },
            None => {},
        }
        i += 1;
    }
    assert(all.take(i as int) =~= all);
    result
}

/// One entry of a row of candle data.
#[derive(PartialEq, Debug)]
pub enum Cell {
    Text(String),
    /// A number: as an integer where it is one that fits, and as the nearest
    /// double-precision number.
    Numeric(Option<i64>, Option<Number>),
    Other,
}

/// The contents of a [`Cell`].
pub enum CellView {
    Text(Seq<char>),
    Numeric(Option<i64>, Option<Number>),
    Other,
}

impl View for Cell {
    type V = CellView;

    open spec fn view(&self) -> CellView {
        match self {
            Cell::Text(value) => CellView::Text(value@),
            Cell::Numeric(whole, nearest) => CellView::Numeric(*whole, *nearest),
            Cell::Other => CellView::Other,
        }
    }
}

/// The contents of rows.
pub open spec fn row_views(rows: Seq<Vec<Cell>>) -> Seq<Seq<CellView>> {
    rows.map_values(|row: Vec<Cell>| ordering::views(row@))
}

/// The entry of a row at a place, if the row is that long.
pub open spec fn cell_at(row: Seq<CellView>, place: int) -> Option<CellView> {
    if 0 <= place < row.len() {
        Some(row[place])
    } else {
        None
    }
}

/// The integer in an entry.
pub open spec fn whole_in(cell: Option<CellView>) -> Option<i64> {
    match cell {
        Some(CellView::Numeric(whole, _)) => whole,
        _ => None,
    }
}

/// The number in an entry, which may stand there in writing.
pub open spec fn number_in(
    read: spec_fn(Seq<char>) -> Option<Number>,
    cell: Option<CellView>,
) -> Option<Number> {
    match cell {
        Some(CellView::Text(value)) => read(value),
        Some(CellView::Numeric(_, nearest)) => nearest,
        _ => None,
    }
}

/// The candle that a row stands for: open time, open, high, low and close, then at
/// the seventh place the close time and at the eighth the volume in the quote asset.
pub open spec fn row_candle(
    read: spec_fn(Seq<char>) -> Option<Number>,
    row: Seq<CellView>,
) -> Option<Candle> {
    candle_from(
        whole_in(cell_at(row, 0)),
        whole_in(cell_at(row, 6)),
        number_in(read, cell_at(row, 1)),
        number_in(read, cell_at(row, 2)),
        number_in(read, cell_at(row, 3)),
        number_in(read, cell_at(row, 4)),
        number_in(read, cell_at(row, 7)),
    )
}

/// The integer at a place of a row.
pub fn json_i64(row: &Vec<Cell>, place: usize) -> (result: Option<i64>)
    ensures
        result == whole_in(cell_at(ordering::views(row@), place as int)),
{
    if place >= row.len() {
        return None;
    }
    match &row[place] {
        Cell::Numeric(whole, _) => *whole,
        _ => None,
    }
}

/// The number at a place of a row.
pub fn json_f64<R: Fn(&str) -> Option<Number>>(row: &Vec<Cell>, place: usize, read: &R) -> (result:
    Option<Number>)
    requires
        number::reads(*read),
    ensures
        result == number_in(
            number::readings(*read),
            cell_at(ordering::views(row@), place as int),
        ),
{
    if place >= row.len() {
        return None;
    }
    match &row[place] {
        Cell::Text(value) => read_number(read, value.as_str()),
        Cell::Numeric(_, nearest) => *nearest,
        Cell::Other => None,
    }
}

/// The candle that a row stands for, or none where an entry is missing or cannot be
/// read.
pub fn parse_kline<R: Fn(&str) -> Option<Number>>(row: &Vec<Cell>, read: &R) -> (result: Option<
    Candle,
>)
    requires
        number::reads(*read),
    ensures
        result == row_candle(number::readings(*read), ordering::views(row@)),
{
    let open_time_ms = json_i64(row, 0)?;
    let open = json_f64(row, 1, read)?;
    let high = json_f64(row, 2, read)?;
    let low = json_f64(row, 3, read)?;
    let close = json_f64(row, 4, read)?;
    let close_time_ms = json_i64(row, 6)?;
    let quote_volume = json_f64(row, 7, read)?;
    Some(Candle { open_time_ms, close_time_ms, open, high, low, close, quote_volume })
}

/// How many markets one connection subscribes to.
pub const WS_BATCH_SIZE: usize = 100;

/// What std makes of a text in lower case.
pub uninterp spec fn lowercase(chars: Seq<char>) -> Seq<char>;

/// `str::to_lowercase` gives the lowercase equivalent of a text by the rules of Unicode;
/// the contract names it.
#[verifier::external_body]
fn to_lowercase(symbol: &str) -> (result: String)
    ensures
        result@ == lowercase(symbol@),
{
    symbol.to_lowercase()
}

/// The name of the stream of candles of a market, whose name is given in lower case.
pub open spec fn stream_of(lowered: Seq<char>, interval: Seq<char>) -> Seq<char> {
    lowered + "@kline_"@ + interval
}

/// The name of the stream of candles of a market, whose name is given in lower case.
pub fn stream_name(lowered: &str, interval: &str) -> (result: String)
    ensures
        result@ == stream_of(lowered@, interval@),
{
    lowered.to_owned().concat("@kline_").concat(interval)
}

/// The names of the streams of candles of some markets.
pub open spec fn streams_of(symbols: Seq<Seq<char>>, interval: Seq<char>) -> Seq<Seq<char>> {
    symbols.map_values(|symbol: Seq<char>| stream_of(lowercase(symbol), interval))
}

/// The members of the message that subscribes to streams.
pub open spec fn subscription_members(streams: Seq<Seq<char>>) -> Seq<(Seq<char>, JsonView)> {
    seq![
        ("id"@, JsonView::Whole(1)),
        ("method"@, JsonView::Text("SUBSCRIBE"@)),
        ("params"@, JsonView::List(streams)),
    ]
}

/// The message that subscribes to streams.
pub fn subscription_to(streams: Vec<String>) -> (result: String)
    ensures
        result@ == json::json_object(subscription_members(ordering::views(streams@))),
{
    let mut members: Vec<(String, JsonValue)> = Vec::new();
    members.push(("id".to_owned(), JsonValue::Whole(1)));
    members.push(("method".to_owned(), JsonValue::Text("SUBSCRIBE".to_owned())));
    members.push(("params".to_owned(), JsonValue::List(streams)));
    proof {
        let wanted = subscription_members(ordering::views(streams@));
        assert(json::member_views(members@) =~= wanted);
        reveal_strlit("id");
        reveal_strlit("method");
        reveal_strlit("params");
        ordering::lemma_first_letter_orders("id"@, "method"@);
        ordering::lemma_first_letter_orders("id"@, "params"@);
        ordering::lemma_first_letter_orders("method"@, "params"@);
        assert(wanted[0].0 == "id"@ && wanted[1].0 == "method"@ && wanted[2].0 == "params"@);
    }
    object_text(&members)
}

/// The message that subscribes to the candles of some markets.
pub fn subscription_message(symbols: &Vec<String>, interval: &str) -> (result: String)
    ensures
        result@ == json::json_object(
            subscription_members(streams_of(ordering::views(symbols@), interval@)),
        ),
{
    let ghost names = ordering::views(symbols@);
    let mut streams: Vec<String> = Vec::new();
    let mut i: usize = 0;
    while i < symbols.len()
        invariant
            i <= symbols@.len(),
            names == ordering::views(symbols@),
            streams@.len() == i,
            forall|k: int|
                0 <= k < i ==> (#[trigger] streams@[k])@ == stream_of(
                    lowercase(names[k]),
                    interval@,
                ),
        decreases symbols@.len() - i,
    {
        let lowered = to_lowercase(symbols[i].as_str());
        streams.push(stream_name(lowered.as_str(), interval));
        i += 1;
    }
    assert(ordering::views(streams@) =~= streams_of(names, interval@));
    subscription_to(streams)
}

/// How many connections some markets take.
pub open spec fn batch_count(symbols: int) -> int {
    (symbols + WS_BATCH_SIZE - 1) / (WS_BATCH_SIZE as int)
}

/// The markets of one connection.
pub open spec fn batch_of(symbols: Seq<Seq<char>>, batch: int) -> Seq<Seq<char>> {
    let start = batch * WS_BATCH_SIZE;
    let end = start + WS_BATCH_SIZE;
    symbols.subrange(
        start,
        if end < symbols.len() {
            end
        } else {
            symbols.len() as int
        },
    )
}

/// Splits markets among connections: all but the last one take as many as they may.
pub fn batches(symbols: &Vec<String>) -> (result: Vec<Vec<String>>)
    ensures
        result@.len() == batch_count(symbols@.len() as int),
        forall|b: int|
            0 <= b < result@.len() ==> ordering::views((#[trigger] result@[b])@) == batch_of(
                ordering::views(symbols@),
                b,
            ),
{
    let ghost names = ordering::views(symbols@);
    let mut result: Vec<Vec<String>> = Vec::new();
    let mut i: usize = 0;
    while i < symbols.len()
        invariant
            i <= symbols@.len(),
            names == ordering::views(symbols@),
            i == symbols@.len() && result@.len() == batch_count(i as int) || i == result@.len()
                * WS_BATCH_SIZE,
            forall|b: int|
                0 <= b < result@.len() ==> ordering::views((#[trigger] result@[b])@) == batch_of(
                    names,
                    b,
                ),
        decreases symbols@.len() - i,
    {
        let ghost start = i as int;
        let mut batch: Vec<String> = Vec::new();
        while i < symbols.len() && batch.len() < WS_BATCH_SIZE
            invariant
                i <= symbols@.len(),
                names == ordering::views(symbols@),
                0 <= start,
                i == start + batch@.len(),
                batch@.len() <= WS_BATCH_SIZE,
                ordering::views(batch@) == names.subrange(start, i as int),
            decreases symbols@.len() - i,
        {
            let ghost before = ordering::views(batch@);
            batch.push(symbols[i].clone());
            proof {
                assert(ordering::views(batch@) =~= before.push(names[i as int]));
                assert(before.push(names[i as int]) =~= names.subrange(start, i + 1));
            }
            i += 1;
        }
        result.push(batch);
    }
    result
}

/// The batches of some markets.
pub open spec fn batches_of(symbols: Seq<Seq<char>>, count: nat) -> Seq<Seq<Seq<char>>> {
    Seq::new(count, |b: int| batch_of(symbols, b))
}

/// The first batches hold the first markets.
proof fn lemma_first_batches(symbols: Seq<Seq<char>>, count: nat)
    requires
        count <= batch_count(symbols.len() as int),
    ensures
        batches_of(symbols, count).flatten() == symbols.take(
            if count * WS_BATCH_SIZE < symbols.len() {
                (count * WS_BATCH_SIZE) as int
            } else {
                symbols.len() as int
            },
        ),
    decreases count,
{
    let all = batches_of(symbols, count);
    if count > 0 {
        let fewer = (count - 1) as nat;
        let shorter = batches_of(symbols, fewer);
        lemma_first_batches(symbols, fewer);
        assert(all =~= shorter.push(batch_of(symbols, fewer as int)));
        shorter.lemma_flatten_push(batch_of(symbols, fewer as int));
    } else {
        assert(all =~= Seq::<Seq<Seq<char>>>::empty());
    }
}

/// The batches hold every market, in order and none twice, and no batch is empty or
/// holds more than one connection takes.
pub proof fn law_batches_cover_all_symbols(symbols: Seq<Seq<char>>)
    ensures
        ({
            let count = batch_count(symbols.len() as int) as nat;
            &&& batches_of(symbols, count).flatten() == symbols
            &&& forall|b: int|
                0 <= b < count ==> 0 < (#[trigger] batches_of(symbols, count)[b]).len()
                    <= WS_BATCH_SIZE
        }),
{
    lemma_first_batches(symbols, batch_count(symbols.len() as int) as nat);
    assert(symbols.take(symbols.len() as int) =~= symbols);
}

} // verus!
