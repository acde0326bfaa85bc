//! What the stream delivers, and how it goes into the histories of the markets.

use crate::binance;
use crate::binance::{KlineView, WsKlineEvent, WsSubscriptionAck};
use crate::config::ValidatedConfig;
use crate::detector::Candle;
use crate::number;
use crate::number::Number;
use crate::pager;
use crate::text;
use crate::text::contains_text;
use crate::text_map::TextMap;
use vstd::prelude::*;

verus! {

/// What a message of the stream comes to.
#[derive(PartialEq, Debug)]
pub enum FeedItem {
    /// The subscription with this number is confirmed.
    Acknowledged(u64),
    /// A candle of a market has closed.
    Closed(String, Candle),
    /// There is nothing to do.
    Ignored,
}

/// The contents of a [`FeedItem`].
pub enum FeedView {
    Acknowledged(u64),
    Closed(Seq<char>, Candle),
    Ignored,
}

impl View for FeedItem {
    type V = FeedView;

    open spec fn view(&self) -> FeedView {
        match self {
            FeedItem::Acknowledged(id) => FeedView::Acknowledged(*id),
            FeedItem::Closed(symbol, candle) => FeedView::Closed(symbol@, *candle),
            FeedItem::Ignored => FeedView::Ignored,
        }
    }
}

/// The contents of an optional event: the market and its candle.
pub open spec fn event_view(event: Option<WsKlineEvent>) -> Option<(Seq<char>, KlineView)> {
    match event {
        Some(event) => Some((event.symbol@, event.kline@)),
        None => None,
    }
}

/// What a message comes to, given what it is when it is read as a confirmation and as an
/// event. A confirmation counts only where the message speaks of a result.
pub open spec fn routed(
    read: spec_fn(Seq<char>) -> Option<Number>,
    message: Seq<char>,
    ack: Option<WsSubscriptionAck>,
    event: Option<(Seq<char>, KlineView)>,
) -> FeedView {
    if text::occurs(message, "\"result\""@) && ack is Some {
        match ack->0.id {
            Some(id) => FeedView::Acknowledged(id),
            None => FeedView::Acknowledged(0),
        }
    } else {
        match event {
            Some((symbol, kline)) => match binance::streamed_candle(read, kline) {
                Some(candle) => if kline.is_closed {
                    FeedView::Closed(symbol, candle)
                } else {
                    FeedView::Ignored
                },
                None => FeedView::Ignored,
            },
            None => FeedView::Ignored,
        }
    }
}

/// Tells what a message comes to.
pub fn route_message<R: Fn(&str) -> Option<Number>>(
    message: &str,
    ack: Option<WsSubscriptionAck>,
    event: Option<WsKlineEvent>,
    read: &R,
) -> (result: FeedItem)
    requires
        number::reads(*read),
    ensures
        result@ == routed(number::readings(*read), message@, ack, event_view(event)),
{
    if contains_text(message, "\"result\"") {
        if let Some(ack) = ack {
            return match ack.id {
                Some(id) => FeedItem::Acknowledged(id),
                None => FeedItem::Acknowledged(0),
            };
        }
    }
    match event {
        Some(event) => {
            if !event.kline.is_closed {
                return FeedItem::Ignored;
            }
            match event.kline.into_candle(read) {
                Some(candle) => FeedItem::Closed(event.symbol, candle),
                None => FeedItem::Ignored,
            }
        },
        None => FeedItem::Ignored,
    }
}

/// Whether candles are missing between a history and a candle that comes after it.
pub open spec fn has_gap(history: Seq<Candle>, candle: Candle, interval_ms: int) -> bool {
    history.len() > 0 && candle.open_time_ms > history.last().open_time_ms && candle.open_time_ms
        - history.last().open_time_ms != interval_ms
}

/// A history with a closed candle: one that opens when the last one did takes its place,
/// a later one is appended and may push out the first one, an earlier one is left out.
pub open spec fn extended(history: Seq<Candle>, candle: Candle, window_candles: int) -> Seq<
    Candle,
> {
    if history.len() > 0 && history.last().open_time_ms == candle.open_time_ms {
        history.drop_last().push(candle)
    } else if history.len() == 0 || candle.open_time_ms > history.last().open_time_ms {
        if history.len() + 1 > window_candles {
            history.push(candle).drop_first()
        } else {
            history.push(candle)
        }
    } else {
        history
    }
}

/// Puts a closed candle into a history, unless candles are missing before it; then the
/// history is left as it is, to be loaded anew. Tells whether that is so.
pub fn update_history(
    history: &mut Vec<Candle>,
    candle: Candle,
    interval_ms: i64,
    window_candles: usize,
) -> (result: bool)
    ensures
        result == has_gap(old(history)@, candle, interval_ms as int),
        result ==> final(history)@ == old(history)@,
        !result ==> final(history)@ == extended(old(history)@, candle, window_candles as int),
{
    let count = history.len();
    if count == 0 {
        history.push(candle);
        if history.len() > window_candles {
            history.remove(0);
        }
        assert(history@ =~= extended(old(history)@, candle, window_candles as int));
        return false;
    }
    let last_open_ms = history[count - 1].open_time_ms;
    if candle.open_time_ms > last_open_ms && candle.open_time_ms as i128 - last_open_ms as i128
        != interval_ms as i128 {
        return true;
    }
    if last_open_ms == candle.open_time_ms {
        history.set(count - 1, candle);
        assert(history@ =~= old(history)@.drop_last().push(candle));
    } else if candle.open_time_ms > last_open_ms {
        history.push(candle);
        if count >= window_candles {
            history.remove(0);
            assert(history@ =~= old(history)@.push(candle).drop_first());
        }
    }
    false
}

/// The history of a market, which is empty where there is none.
pub open spec fn history_of(histories: Map<Seq<char>, Vec<Candle>>, symbol: Seq<char>) -> Seq<
    Candle,
> {
    if histories.contains_key(symbol) {
        histories[symbol]@
    } else {
        seq![]
    }
}

/// Puts a closed candle into the history of its market, unless candles are missing before
/// it. Tells whether the history has to be loaded anew.
pub fn take_candle(
    histories: &mut TextMap<Vec<Candle>>,
    symbol: &str,
    candle: Candle,
    validated: &ValidatedConfig,
) -> (result: bool)
    ensures
        ({
            let before = history_of(old(histories)@, symbol@);
            &&& result == has_gap(before, candle, validated.interval_ms as int)
            &&& final(histories)@.contains_key(symbol@)
            &&& final(histories)@.remove(symbol@) == old(histories)@.remove(symbol@)
            &&& final(histories)@[symbol@]@ == if result {
                before
            } else {
                extended(before, candle, validated.window_candles as int)
            }
        }),
{
    let mut history: Vec<Candle> = match histories.remove(symbol) {
        Some(history) => history,
        None => Vec::new(),
    };
    assert(history@ =~= history_of(old(histories)@, symbol@));
    let gap = update_history(
        &mut history,
        candle,
        validated.interval_ms,
        validated.window_candles,
    );
    let ghost others = histories@;
    histories.insert(symbol.to_owned(), history);
    assert(histories@.remove(symbol@) =~= others);
    gap
}

/// A history stays in order and within the window, whatever candle comes.
pub proof fn law_history_stays_in_window(
    history: Seq<Candle>,
    candle: Candle,
    window_candles: int,
)
    requires
        pager::ascending(history),
        history.len() <= window_candles,
        window_candles > 0,
    ensures
        pager::ascending(extended(history, candle, window_candles)),
        extended(history, candle, window_candles).len() <= window_candles,
        extended(history, candle, window_candles).len() >= history.len(),
{
    let after = extended(history, candle, window_candles);
    assert forall|i: int, j: int| 0 <= i < j < after.len() implies (#[trigger] after[i]).open_time_ms
        < (#[trigger] after[j]).open_time_ms by {
        if history.len() > 0 {
            let longer = history.push(candle);
            let shift: int = if after.len() > 0 && history.len() + 1 > window_candles
                && candle.open_time_ms > history.last().open_time_ms {
                1
            } else {
                0
            };
            let last = history.len() - 1;
            assert(history[last] == history.last());
            if i + shift < last {
                assert(history[i + shift].open_time_ms < history[last].open_time_ms);
            }
            if j + shift < history.len() {
                assert(history[i + shift].open_time_ms < history[j + shift].open_time_ms);
            }
        }
    }
}

/// Whether every candle opens one interval after the one before it.
pub open spec fn evenly_spaced(history: Seq<Candle>, interval_ms: int) -> bool {
    forall|i: int, j: int|
        0 <= i && j == i + 1 && j < history.len() ==> (#[trigger] history[j]).open_time_ms - (
        #[trigger] history[i]).open_time_ms == interval_ms
}

/// A history without gaps stays without gaps: a candle before which some are missing is
/// never put into it.
pub proof fn law_history_stays_without_gaps(
    history: Seq<Candle>,
    candle: Candle,
    interval_ms: int,
    window_candles: int,
)
    requires
        evenly_spaced(history, interval_ms),
        !has_gap(history, candle, interval_ms),
    ensures
        evenly_spaced(extended(history, candle, window_candles), interval_ms),
{
    let after = extended(history, candle, window_candles);
    assert forall|i: int, j: int| 0 <= i && j == i + 1 && j < after.len() implies (
    #[trigger] after[j]).open_time_ms - (#[trigger] after[i]).open_time_ms == interval_ms by {
        if history.len() > 0 {
            assert(history[history.len() - 1] == history.last());
            if j < history.len() {
                assert(history[j].open_time_ms - history[i].open_time_ms == interval_ms);
            }
            if j + 1 < history.len() {
                assert(history[j + 1].open_time_ms - history[j].open_time_ms == interval_ms);
            }
        }
    }
}

} // verus!
