//! Collecting the closed candles of a market page by page, from the latest page back.

use crate::binance;
use crate::binance::{json_i64, parse_kline, Cell, CellView, MAX_PAGE_CANDLES};
use crate::detector::Candle;
use crate::number;
use crate::number::Number;
use crate::ordering;
use crate::text;
use crate::text::decimal_text;
use std::collections::BTreeMap;
use vstd::prelude::*;
use vstd::string::*;

verus! {

/// What `serde_json` makes of the body of an answer with rows of candle data: the
/// rows, or in words why the body is none.
pub uninterp spec fn decoded_rows(body: Seq<u8>) -> Result<Seq<Seq<CellView>>, Seq<char>>;

/// The contents of decoded rows or of the reason why there are none.
pub open spec fn decoded_views(rows: Result<Vec<Vec<Cell>>, String>) -> Result<
    Seq<Seq<CellView>>,
    Seq<char>,
> {
    match rows {
        Ok(rows) => Ok(binance::row_views(rows@)),
        Err(reason) => Err(reason@),
    }
}

/// `serde_json::from_slice` decodes the body as rows of JSON values; each string is
/// kept, each number is taken by `serde_json::Number::as_i64` and `as_f64`, and other
/// values are told apart from these only. The contract names the result, which depends
/// on the bytes alone.
#[verifier::external_body]
fn decode_rows(body: &[u8]) -> (result: Result<Vec<Vec<Cell>>, String>)
    ensures
        decoded_views(result) == decoded_rows(body@),
{
    let cell = |value: serde_json::Value| match value {
        serde_json::Value::String(value) => Cell::Text(value),
        serde_json::Value::Number(value) => Cell::Numeric(
            value.as_i64(),
            value.as_f64().map(|nearest| Number::from_bits(nearest.to_bits())),
        ),
        _ => Cell::Other,
    };
    serde_json::from_slice::<Vec<Vec<serde_json::Value>>>(body)
        .map(|rows| rows.into_iter().map(|row| row.into_iter().map(cell).collect()).collect())
        .map_err(|error| error.to_string())
}

/// Whether every candle opens after the one before it.
pub open spec fn ascending(candles: Seq<Candle>) -> bool {
    forall|i: int, j: int|
        0 <= i < j < candles.len() ==> (#[trigger] candles[i]).open_time_ms < (
        #[trigger] candles[j]).open_time_ms
}

/// Whether every candle has closed by a point in time.
pub open spec fn closed_by(candles: Seq<Candle>, now_ms: i64) -> bool {
    forall|i: int| 0 <= i < candles.len() ==> (#[trigger] candles[i]).close_time_ms <= now_ms
}

/// The candle of a row, where the row makes one that has closed.
pub open spec fn closed_candle(
    read: spec_fn(Seq<char>) -> Option<Number>,
    now_ms: i64,
    row: Seq<CellView>,
) -> Option<Candle> {
    match binance::row_candle(read, row) {
        Some(candle) => if candle.close_time_ms <= now_ms {
            Some(candle)
        } else {
            None
        },
        None => None,
    }
}

/// Candles by their open times, with those of the rows that have closed put in, one after
/// the other.
pub open spec fn collected(
    read: spec_fn(Seq<char>) -> Option<Number>,
    now_ms: i64,
    candles: Map<i64, Candle>,
    rows: Seq<Seq<CellView>>,
) -> Map<i64, Candle>
    decreases rows.len(),
{
    if rows.len() == 0 {
        candles
    } else {
        let earlier = collected(read, now_ms, candles, rows.drop_last());
        match closed_candle(read, now_ms, rows.last()) {
            Some(candle) => earlier.insert(candle.open_time_ms, candle),
            None => earlier,
        }
    }
}

/// Whether every candle stands under its own open time and has closed by a point in time.
pub open spec fn keyed_and_closed(candles: Map<i64, Candle>, now_ms: i64) -> bool {
    forall|time: i64| #[trigger]
        candles.contains_key(time) ==> candles[time].open_time_ms == time
            && candles[time].close_time_ms <= now_ms
}

/// Whether a sequence lists the items of a set, each once and in ascending order.
pub open spec fn lists(times: Set<i64>, listed: Seq<i64>) -> bool {
    &&& forall|i: int, j: int| 0 <= i < j < listed.len() ==> listed[i] < listed[j]
    &&& forall|time: i64| #[trigger] times.contains(time) <==> listed.contains(time)
}

/// The open times of candles in ascending order.
pub open spec fn open_times(candles: Map<i64, Candle>) -> Seq<i64> {
    choose|listed: Seq<i64>| lists(candles.dom(), listed)
}

/// Candles in the order of their open times.
pub open spec fn in_order(candles: Map<i64, Candle>) -> Seq<Candle> {
    open_times(candles).map_values(|time: i64| candles[time])
}

/// The open time of a row.
pub open spec fn open_time_of(row: Seq<CellView>) -> Option<i64> {
    binance::whole_in(binance::cell_at(row, 0))
}

/// The earliest open time of the rows that have one.
pub open spec fn earliest_open(rows: Seq<Seq<CellView>>) -> Option<i64>
    decreases rows.len(),
{
    if rows.len() == 0 {
        None
    } else {
        match (earliest_open(rows.drop_last()), open_time_of(rows.last())) {
            (Some(earliest), Some(time)) => Some(
                if time < earliest {
                    time
                } else {
                    earliest
                },
            ),
            (None, time) => time,
            (earliest, None) => earliest,
        }
    }
}

/// What to ask for next: so many candles, the last of which opens no later than
/// `end_time_ms`.
#[derive(Clone, Copy, PartialEq, Eq, Structural, Debug)]
pub struct PageRequest {
    pub limit: usize,
    pub end_time_ms: i64,
}

/// The closed candles of a market as far as they have been collected.
pub struct CandlePager {
    now_ms: i64,
    end_time_ms: i64,
    required: usize,
    exhausted: bool,
    candles: BTreeMap<i64, Candle>,
}

/// The contents of a [`CandlePager`].
pub struct PagerView {
    /// When collecting began: later candles have not closed.
    pub now_ms: i64,
    /// Where the next page ends.
    pub end_time_ms: i64,
    /// How many candles are wanted.
    pub required: usize,
    /// Whether there are no earlier candles.
    pub exhausted: bool,
    /// The candles so far, by their open times.
    pub candles: Map<i64, Candle>,
}

/// The pager after a page.
pub open spec fn after_page(
    read: spec_fn(Seq<char>) -> Option<Number>,
    pager: PagerView,
    rows: Seq<Seq<CellView>>,
) -> PagerView {
    let candles = collected(read, pager.now_ms, pager.candles, rows);
    match earliest_open(rows) {
        Some(earliest) => if 0 < earliest < pager.end_time_ms {
            PagerView { candles, end_time_ms: (earliest - 1) as i64, ..pager }
        } else {
            PagerView { candles, exhausted: true, ..pager }
        },
        None => PagerView { candles, exhausted: true, ..pager },
    }
}

/// What to ask for next, unless there are candles enough or no earlier ones.
pub open spec fn next_page(pager: PagerView) -> Option<PageRequest> {
    let missing = pager.required - pager.candles.len();
    if missing <= 0 || pager.exhausted {
        None
    } else {
        Some(
            PageRequest {
                limit: (if missing + 1 < MAX_PAGE_CANDLES {
                    missing + 1
                } else {
                    MAX_PAGE_CANDLES as int
                }) as usize,
                end_time_ms: pager.end_time_ms,
            },
        )
    }
}

/// The latest candles, as many as are required.
pub open spec fn latest_required(candles: Seq<Candle>, required: usize) -> Seq<Candle> {
    if candles.len() > required {
        candles.skip(candles.len() - required)
    } else {
        candles
    }
}

/// A set is listed in one way only.
proof fn lemma_listed_once(times: Set<i64>, a: Seq<i64>, b: Seq<i64>)
    requires
        lists(times, a),
        lists(times, b),
    ensures
        a == b,
    decreases a.len(),
{
    if a.len() == 0 || b.len() == 0 {
        if a.len() > 0 {
            assert(a.contains(a[0]));
            assert(times.contains(a[0]));
        }
        if b.len() > 0 {
            assert(b.contains(b[0]));
            assert(times.contains(b[0]));
        }
        assert(a =~= b);
    } else {
        let last = a.last();
        assert(a[a.len() - 1] == last && b[b.len() - 1] == b.last());
        assert(a.contains(last) && b.contains(b.last()));
        assert(times.contains(last) && times.contains(b.last()));
        let i = choose|i: int| 0 <= i < b.len() && b[i] == last;
        let j = choose|j: int| 0 <= j < a.len() && a[j] == b.last();
        assert(last == b.last());
        lemma_without_last(times, a);
        lemma_without_last(times, b);
        lemma_listed_once(times.remove(last), a.drop_last(), b.drop_last());
        assert(a =~= a.drop_last().push(last));
        assert(b =~= b.drop_last().push(last));
    }
}

/// Without its last item a sequence lists the set without that item.
proof fn lemma_without_last(times: Set<i64>, listed: Seq<i64>)
    requires
        lists(times, listed),
        listed.len() > 0,
    ensures
        lists(times.remove(listed.last()), listed.drop_last()),
{
    let rest = listed.drop_last();
    assert forall|time: i64| #[trigger]
        times.remove(listed.last()).contains(time) <==> rest.contains(time) by {
        if times.contains(time) && time != listed.last() {
            let i = choose|i: int| 0 <= i < listed.len() && listed[i] == time;
            assert(rest[i] == time);
        }
        if rest.contains(time) {
            let i = choose|i: int| 0 <= i < rest.len() && rest[i] == time;
            assert(listed[i] == time && listed[i] < listed[listed.len() - 1]);
            assert(listed.contains(time));
            assert(times.contains(time));
        }
    }
}

/// Open times can be compared, so that what is known of ordered maps holds.
proof fn lemma_times_are_ordered()
    ensures
        vstd::laws_cmp::obeys_cmp::<i64>(),
        vstd::std_specs::btree::key_obeys_cmp_spec::<i64>(),
{
    broadcast use vstd::laws_cmp::group_laws_cmp;

}

/// What an ordered map hands out as increasing is so in the usual sense.
proof fn lemma_increasing(times: Seq<i64>)
    requires
        vstd::std_specs::btree::increasing_seq(times),
    ensures
        forall|i: int, j: int| 0 <= i < j < times.len() ==> times[i] < times[j],
{
    broadcast use vstd::std_specs::btree::group_btree_axioms;

    lemma_times_are_ordered();
    assert forall|i: int, j: int| 0 <= i < j < times.len() implies times[i] < times[j] by {
        assert(vstd::std_specs::cmp::OrdSpec::cmp_spec(&times[i], &times[j]) is Less);
    }
}

/// Candles that stand under their open times come out ascending and closed.
proof fn lemma_in_order(candles: Map<i64, Candle>, listed: Seq<i64>, now_ms: i64)
    requires
        lists(candles.dom(), listed),
        keyed_and_closed(candles, now_ms),
    ensures
        open_times(candles) == listed,
        ascending(in_order(candles)),
        closed_by(in_order(candles), now_ms),
{
    lemma_listed_once(candles.dom(), listed, open_times(candles));
    assert forall|i: int| 0 <= i < listed.len() implies candles.contains_key(
        #[trigger] listed[i],
    ) by {
        assert(listed.contains(listed[i]));
        assert(candles.dom().contains(listed[i]));
    }
}

impl View for CandlePager {
    type V = PagerView;

    closed spec fn view(&self) -> PagerView {
        PagerView {
            now_ms: self.now_ms,
            end_time_ms: self.end_time_ms,
            required: self.required,
            exhausted: self.exhausted,
            candles: self.candles@,
        }
    }
}

impl CandlePager {
    #[verifier::type_invariant]
    spec fn well_formed(self) -> bool {
        keyed_and_closed(self.candles@, self.now_ms)
    }

    /// Begins to collect candles that have closed by `now_ms`.
    pub fn new(now_ms: i64, required: usize) -> (result: Self)
        ensures
            result@ == (PagerView {
                now_ms,
                end_time_ms: now_ms,
                required,
                exhausted: false,
                candles: Map::empty(),
            }),
    {
        CandlePager {
            now_ms,
            end_time_ms: now_ms,
            required,
            exhausted: false,
            candles: BTreeMap::new(),
        }
    }

    /// What to ask for next, unless there are candles enough or no earlier ones.
    pub fn next_request(&self) -> (result: Option<PageRequest>)
        ensures
            result == next_page(self@),
    {
        proof {
            lemma_times_are_ordered();
        }
        if self.candles.len() >= self.required || self.exhausted {
            return None;
        }
        let missing: usize = self.required - self.candles.len();
        let limit: usize = if missing < MAX_PAGE_CANDLES {
            missing + 1
        } else {
            MAX_PAGE_CANDLES
        };
        Some(PageRequest { limit, end_time_ms: self.end_time_ms })
    }

    /// Takes up the rows of a page.
    pub fn accept_rows<R: Fn(&str) -> Option<Number>>(&mut self, rows: &Vec<Vec<Cell>>, read: &R)
        requires
            number::reads(*read),
        ensures
            final(self)@ == after_page(
                number::readings(*read),
                old(self)@,
                binance::row_views(rows@),
            ),
    {
        proof {
            use_type_invariant(&*self);
        }
        let ghost reading = number::readings(*read);
        let ghost all = binance::row_views(rows@);
        let ghost before = self.candles@;
        let now_ms = self.now_ms;
        let mut candles: BTreeMap<i64, Candle> = BTreeMap::new();
        std::mem::swap(&mut candles, &mut self.candles);
        let mut earliest: Option<i64> = None;
        let mut i: usize = 0;
        assert(all.take(0) =~= Seq::<Seq<CellView>>::empty());
        while i < rows.len()
            invariant
                i <= rows@.len(),
                number::reads(*read),
                reading == number::readings(*read),
                all == binance::row_views(rows@),
                keyed_and_closed(candles@, now_ms),
                candles@ == collected(reading, now_ms, before, all.take(i as int)),
                earliest == earliest_open(all.take(i as int)),
            decreases rows@.len() - i,
        {
            let row = &rows[i];
            proof {
                assert(all[i as int] == ordering::views(row@));
                assert(all.take(i + 1).drop_last() =~= all.take(i as int));
                assert(all.take(i + 1).last() == all[i as int]);
            }
            match json_i64(row, 0) {
                Some(time) => {
                    earliest = match earliest {
                        Some(other) => Some(
                            if time < other {
                                time
                            } else {
                                other
                            },
                        ),
                        None => Some(time),
                    };
                },
                None => {},
            }
            match parse_kline(row, read) {
                Some(candle) => {
                    if candle.close_time_ms <= now_ms {
                        proof {
                            lemma_times_are_ordered();
                        }
                        candles.insert(candle.open_time_ms, candle);
                    }
                },
                None => {},
            }
            i += 1;
        }
        assert(all.take(i as int) =~= all);
        self.candles = candles;
        match earliest {
            Some(time) => {
                if 0 < time && time < self.end_time_ms {
                    self.end_time_ms = time - 1;
                } else {
                    self.exhausted = true;
                }
            },
            None => {
                self.exhausted = true;
            },
        }
    }

    /// Takes up the body of an answer, or says in words why it cannot be decoded.
    pub fn accept_body<R: Fn(&str) -> Option<Number>>(&mut self, body: &[u8], read: &R) -> (result:
        Result<(), String>)
        requires
            number::reads(*read),
        ensures
            match decoded_rows(body@) {
                Ok(rows) => result is Ok && final(self)@ == after_page(
                    number::readings(*read),
                    old(self)@,
                    rows,
                ),
                Err(reason) => result matches Err(words) && words@ == reason && final(self)@ == old(
                    self,
                )@,
            },
    {
        match decode_rows(body) {
            Ok(rows) => {
                self.accept_rows(&rows, read);
                Ok(())
            },
            Err(reason) => Err(reason),
        }
    }

    /// The latest of the candles, as many as were required.
    pub fn finish(self) -> (result: Vec<Candle>)
        ensures
            result@ == latest_required(in_order(self@.candles), self@.required),
            ascending(result@),
            closed_by(result@, self@.now_ms),
            result@.len() <= self@.required,
            lists(self@.candles.dom(), open_times(self@.candles)),
            keyed_and_closed(self@.candles, self@.now_ms),
    {
        proof {
            use_type_invariant(&self);
        }
        let mut candles = values_in_order(&self.candles, self.now_ms);
        if candles.len() > self.required {
            let cut: usize = candles.len() - self.required;
            let ghost all = candles@;
            let latest = candles.split_off(cut);
            assert(latest@ =~= all.skip(cut as int));
            latest
        } else {
            candles
        }
    }
}

/// The candles in the order of their open times.
fn values_in_order(candles: &BTreeMap<i64, Candle>, now_ms: i64) -> (result: Vec<Candle>)
    requires
        keyed_and_closed(candles@, now_ms),
    ensures
        result@ == in_order(candles@),
        ascending(result@),
        closed_by(result@, now_ms),
        lists(candles@.dom(), open_times(candles@)),
{
    proof {
        lemma_times_are_ordered();
    }
    let mut result: Vec<Candle> = Vec::new();
    let values = candles.values();
    let ghost handed_out = vstd::std_specs::iter::IteratorSpec::remaining(&values);
    for candle in iter: values
        invariant
            iter.seq() == handed_out,
            result@.len() == iter.index(),
            forall|i: int| 0 <= i < result@.len() ==> result@[i] == *(#[trigger] handed_out[i]),
    {
        result.push(*candle);
    }
    proof {
        let listed = choose|listed: Seq<i64>|
            {
                &&& vstd::std_specs::btree::increasing_seq(listed)
                &&& listed.to_set() == candles@.dom()
                &&& listed.no_duplicates()
                &&& handed_out == listed.map(|i: int, time: i64| &candles@[time])
            };
        lemma_increasing(listed);
        assert forall|time: i64| #[trigger] candles@.dom().contains(time) <==> listed.contains(
            time,
        ) by {
            assert(listed.to_set().contains(time) <==> listed.contains(time));
        }
        lemma_in_order(candles@, listed, now_ms);
        assert(result@.len() == handed_out.len());
        assert forall|i: int| 0 <= i < result@.len() implies result@[i] == in_order(candles@)[i] by {
            assert(*handed_out[i] == candles@[listed[i]]);
        }
        assert(result@ =~= in_order(candles@));
    }
    result
}

/// The query of a request for a page of candles: names and values.
pub open spec fn query_of(symbol: Seq<char>, interval: Seq<char>, request: PageRequest) -> Seq<
    (Seq<char>, Seq<char>),
> {
    seq![
        ("symbol"@, symbol),
        ("interval"@, interval),
        ("limit"@, text::decimal(request.limit as int)),
        ("endTime"@, text::decimal(request.end_time_ms as int)),
    ]
}

/// The contents of a query.
pub open spec fn query_views(query: Seq<(String, String)>) -> Seq<(Seq<char>, Seq<char>)> {
    query.map_values(|pair: (String, String)| (pair.0@, pair.1@))
}

/// The query of a request for a page of candles.
pub fn page_query(symbol: &str, interval: &str, request: PageRequest) -> (result: Vec<
    (String, String),
>)
    ensures
        query_views(result@) == query_of(symbol@, interval@, request),
{
    let result: Vec<(String, String)> = vec![
        ("symbol".to_owned(), symbol.to_owned()),
        ("interval".to_owned(), interval.to_owned()),
        ("limit".to_owned(), decimal_text(request.limit as i128)),
        ("endTime".to_owned(), decimal_text(request.end_time_ms as i128)),
    ];
    assert(query_views(result@) =~= query_of(symbol@, interval@, request));
    result
}

/// Collecting goes back in time: a page either shows that there are no earlier candles,
/// or the next page ends earlier than this one, and not before time zero.
pub proof fn law_pages_go_back(
    read: spec_fn(Seq<char>) -> Option<Number>,
    pager: PagerView,
    rows: Seq<Seq<CellView>>,
)
    ensures
        after_page(read, pager, rows).exhausted || 0 <= after_page(read, pager, rows).end_time_ms
            < pager.end_time_ms,
{
}

/// Collecting comes to an end: where no page shows that there are no earlier candles,
/// the number of pages taken so far is at most the time by which the pages have gone
/// back.
pub proof fn law_collecting_ends(
    read: spec_fn(Seq<char>) -> Option<Number>,
    pager: PagerView,
    pages: Seq<Seq<Seq<CellView>>>,
)
    requires
        pager.end_time_ms >= 0,
        !after_pages(read, pager, pages).exhausted,
    ensures
        pages.len() <= pager.end_time_ms - after_pages(read, pager, pages).end_time_ms,
        after_pages(read, pager, pages).end_time_ms >= 0,
    decreases pages.len(),
{
    if pages.len() > 0 {
        let before = after_pages(read, pager, pages.drop_last());
        assert(before.exhausted ==> after_page(read, before, pages.last()).exhausted);
        law_collecting_ends(read, pager, pages.drop_last());
        law_pages_go_back(read, before, pages.last());
    }
}

/// The pager after several pages.
pub open spec fn after_pages(
    read: spec_fn(Seq<char>) -> Option<Number>,
    pager: PagerView,
    pages: Seq<Seq<Seq<CellView>>>,
) -> PagerView
    decreases pages.len(),
{
    if pages.len() == 0 {
        pager
    } else {
        after_page(read, after_pages(read, pager, pages.drop_last()), pages.last())
    }
}

/// Of the rows with one open time the last one that makes a closed candle counts, and
/// candles with an open time that no such row has stay as they are.
pub proof fn law_last_row_counts(
    read: spec_fn(Seq<char>) -> Option<Number>,
    now_ms: i64,
    candles: Map<i64, Candle>,
    rows: Seq<Seq<CellView>>,
    time: i64,
)
    ensures
        ({
            let after = collected(read, now_ms, candles, rows);
            let has_time = |row: Seq<CellView>|
                closed_candle(read, now_ms, row) is Some && closed_candle(
                    read,
                    now_ms,
                    row,
                )->0.open_time_ms == time;
            if exists|i: int| 0 <= i < rows.len() && has_time(#[trigger] rows[i]) {
                exists|i: int|
                    0 <= i < rows.len() && has_time(#[trigger] rows[i]) && after.contains_key(time)
                        && after[time] == closed_candle(read, now_ms, rows[i])->0 && forall|j: int|
                        i < j < rows.len() ==> !has_time(#[trigger] rows[j])
            } else {
                after.contains_key(time) == candles.contains_key(time) && (candles.contains_key(
                    time,
                ) ==> after[time] == candles[time])
            }
        }),
    decreases rows.len(),
{
    let has_time = |row: Seq<CellView>|
        closed_candle(read, now_ms, row) is Some && closed_candle(
            read,
            now_ms,
            row,
        )->0.open_time_ms == time;
    if rows.len() > 0 {
        let rest = rows.drop_last();
        let last = rows.len() - 1;
        law_last_row_counts(read, now_ms, candles, rest, time);
        assert(rows[last] == rows.last());
        if has_time(rows[last]) {
            assert(exists|i: int| 0 <= i < rows.len() && has_time(#[trigger] rows[i]));
        } else if exists|i: int| 0 <= i < rows.len() && has_time(#[trigger] rows[i]) {
            let k = choose|i: int| 0 <= i < rows.len() && has_time(#[trigger] rows[i]);
            assert(has_time(rest[k]));
            let earlier = collected(read, now_ms, candles, rest);
            let i = choose|i: int|
                0 <= i < rest.len() && has_time(#[trigger] rest[i]) && earlier.contains_key(time)
                    && earlier[time] == closed_candle(read, now_ms, rest[i])->0 && forall|j: int|
                    i < j < rest.len() ==> !has_time(#[trigger] rest[j]);
            assert(has_time(rows[i]));
            assert forall|j: int| i < j < rows.len() implies !has_time(#[trigger] rows[j]) by {
                if j < last {
                    assert(!has_time(rest[j]));
                }
            }
        } else {
            assert forall|i: int| 0 <= i < rest.len() implies !has_time(#[trigger] rest[i]) by {
                assert(!has_time(rows[i]));
            }
        }
    }
}

/// Pages only add: every candle that is collected stands under its own open time and has
/// closed, and no open time is lost.
pub proof fn law_pages_only_add(
    read: spec_fn(Seq<char>) -> Option<Number>,
    pager: PagerView,
    rows: Seq<Seq<CellView>>,
)
    requires
        keyed_and_closed(pager.candles, pager.now_ms),
    ensures
        keyed_and_closed(after_page(read, pager, rows).candles, pager.now_ms),
        pager.candles.dom().subset_of(after_page(read, pager, rows).candles.dom()),
    decreases rows.len(),
{
    if rows.len() > 0 {
        law_pages_only_add(read, pager, rows.drop_last());
    }
}

} // verus!
