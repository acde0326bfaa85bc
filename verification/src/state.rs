//! Which spikes have been reported.

use crate::detector::{CandidateResult, CandidateView};
use crate::text;
use crate::text::decimal_text;
use crate::text_map;
use crate::text_map::TextMap;
use vstd::prelude::*;
use vstd::string::*;

verus! {

/// The spikes that have been reported: under the key of each, the time at which it
/// opened.
pub struct AlertState {
    alerted_spikes: TextMap<i64>,
}

impl View for AlertState {
    type V = Map<Seq<char>, i64>;

    closed spec fn view(&self) -> Map<Seq<char>, i64> {
        self.alerted_spikes@
    }
}

/// The key of a spike: market, candle interval and time.
pub open spec fn spike_key(symbol: Seq<char>, interval: Seq<char>, spike_time_ms: i64) -> Seq<char> {
    symbol + "|"@ + interval + "|"@ + text::decimal(spike_time_ms as int)
}

/// The key of the latest spike of a candidate.
pub open spec fn key_of(candidate: CandidateView, interval: Seq<char>) -> Seq<char> {
    spike_key(candidate.symbol, interval, candidate.latest_spike_time_ms)
}

/// The key of the latest spike of a candidate.
fn alert_key(candidate: &CandidateResult, interval: &str) -> (result: String)
    ensures
        result@ == key_of(candidate@, interval@),
{
    let mut key = candidate.symbol.clone();
    key.append("|");
    key.append(interval);
    key.append("|");
    key.append(decimal_text(candidate.latest_spike_time_ms as i128).as_str());
    key
}

/// The reported spikes that are not older than a point in time.
pub open spec fn not_older(spikes: Map<Seq<char>, i64>, oldest_allowed_ms: i64) -> Map<
    Seq<char>,
    i64,
> {
    spikes.restrict(
        Set::new(|key: Seq<char>| spikes.contains_key(key) && spikes[key] >= oldest_allowed_ms),
    )
}

/// Stored pairs, or none where nothing is stored.
pub open spec fn stored_pairs(stored: Option<Vec<(String, i64)>>) -> Seq<(Seq<char>, i64)> {
    match stored {
        Some(pairs) => text_map::pair_views(pairs@),
        None => seq![],
    }
}

impl Default for AlertState {
    fn default() -> (result: Self)
        ensures
            result@ == Map::<Seq<char>, i64>::empty(),
    {
        AlertState { alerted_spikes: TextMap::new() }
    }
}

impl AlertState {
    /// Takes up what was stored, or nothing where nothing is stored. Where it could not be
    /// read, the reason is handed on: that is not the same as nothing being stored.
    pub fn load<E>(stored: Result<Option<Vec<(String, i64)>>, E>) -> (result: Result<Self, E>)
        ensures
            match stored {
                Ok(found) => result matches Ok(state) && state@ == text_map::map_of(
                    stored_pairs(found),
                ),
                Err(reason) => result == Err::<Self, E>(reason),
            },
    {
        match stored {
            Ok(Some(pairs)) => Ok(AlertState { alerted_spikes: TextMap::from_pairs(pairs) }),
            Ok(None) => Ok(AlertState { alerted_spikes: TextMap::new() }),
            Err(reason) => Err(reason),
        }
    }

    /// What to store.
    pub fn save(&self) -> (result: Vec<(String, i64)>)
        ensures
            text_map::map_of(text_map::pair_views(result@)) == self@,
            text_map::distinct_keys(text_map::pair_views(result@)),
    {
        self.alerted_spikes.pairs()
    }

    /// Whether the latest spike of a candidate has been reported.
    pub fn is_alerted(&self, candidate: &CandidateResult, interval: &str) -> (result: bool)
        ensures
            result == self@.contains_key(key_of(candidate@, interval@)),
    {
        self.alerted_spikes.contains_key(alert_key(candidate, interval).as_str())
    }

    /// Notes that the latest spike of a candidate has been reported.
    pub fn mark_alerted(&mut self, candidate: &CandidateResult, interval: &str)
        ensures
            final(self)@ == old(self)@.insert(
                key_of(candidate@, interval@),
                candidate.latest_spike_time_ms,
            ),
    {
        self.alerted_spikes.insert(
            alert_key(candidate, interval),
            candidate.latest_spike_time_ms,
        );
    }

    /// Forgets the spikes that are older than a point in time.
    pub fn prune(&mut self, oldest_allowed_ms: i64)
        ensures
            final(self)@ == not_older(old(self)@, oldest_allowed_ms),
    {
        let pairs = self.alerted_spikes.pairs();
        let ghost all = text_map::pair_views(pairs@);
        let mut kept: TextMap<i64> = TextMap::new();
        let mut i: usize = 0;
        assert(all.take(0) =~= Seq::<(Seq<char>, i64)>::empty());
        assert(kept@ =~= not_older(text_map::map_of(all.take(0)), oldest_allowed_ms));
        while i < pairs.len()
            invariant
                i <= pairs@.len(),
                all == text_map::pair_views(pairs@),
                text_map::distinct_keys(all),
                kept@ == not_older(text_map::map_of(all.take(i as int)), oldest_allowed_ms),
            decreases pairs@.len() - i,
        {
            let ghost earlier = all.take(i as int);
            let ghost pair = all[i as int];
            proof {
                assert(all.take(i + 1).drop_last() =~= earlier);
                assert forall|k: int| 0 <= k < earlier.len() implies (#[trigger] earlier[k]).0
                    != pair.0 by {
                    assert(all[k].0 != all[i as int].0);
                }
                lemma_absent_key(earlier, pair.0);
            }
            if pairs[i].1 >= oldest_allowed_ms {
                kept.insert(pairs[i].0.clone(), pairs[i].1);
            }
            assert(kept@ =~= not_older(text_map::map_of(all.take(i + 1)), oldest_allowed_ms));
            i += 1;
        }
        assert(all.take(i as int) =~= all);
        self.alerted_spikes = kept;
    }
}

/// Pairs without a key make a map without it.
proof fn lemma_absent_key(pairs: Seq<(Seq<char>, i64)>, key: Seq<char>)
    requires
        forall|i: int| 0 <= i < pairs.len() ==> (#[trigger] pairs[i]).0 != key,
    ensures
        !text_map::map_of(pairs).contains_key(key),
    decreases pairs.len(),
{
    if pairs.len() > 0 {
        assert(pairs[pairs.len() - 1].0 != key);
        let rest = pairs.drop_last();
        assert forall|i: int| 0 <= i < rest.len() implies (#[trigger] rest[i]).0 != key by {
            assert(pairs[i].0 != key);
        }
        lemma_absent_key(rest, key);
    }
}

/// Whether a text has no bar in it.
pub open spec fn bar_free(chars: Seq<char>) -> bool {
    !chars.contains('|')
}

/// A text is cut in one way only before a last part without a bar.
proof fn lemma_last_bar(a: Seq<char>, b: Seq<char>, c: Seq<char>, d: Seq<char>)
    requires
        a + "|"@ + b == c + "|"@ + d,
        bar_free(b),
        bar_free(d),
    ensures
        a == c,
        b == d,
{
    reveal_strlit("|");
    assert("|"@.len() == 1 && "|"@[0] == '|');
    let left = a + "|"@ + b;
    let right = c + "|"@ + d;
    assert(left.len() == right.len());
    assert(left[a.len() as int] == '|');
    assert(right[c.len() as int] == '|');
    if a.len() < c.len() {
        assert(b[c.len() - a.len() - 1] == left[c.len() as int]);
        assert(b.contains('|'));
    }
    if c.len() < a.len() {
        assert(d[a.len() - c.len() - 1] == right[a.len() as int]);
        assert(d.contains('|'));
    }
    assert(left.take(a.len() as int) =~= a);
    assert(right.take(c.len() as int) =~= c);
    assert(left.skip(a.len() as int + 1) =~= b);
    assert(right.skip(c.len() as int + 1) =~= d);
}

/// A text is cut in one way only behind a first part without a bar.
proof fn lemma_first_bar(a: Seq<char>, b: Seq<char>, c: Seq<char>, d: Seq<char>)
    requires
        a + "|"@ + b == c + "|"@ + d,
        bar_free(a),
        bar_free(c),
    ensures
        a == c,
        b == d,
{
    reveal_strlit("|");
    assert("|"@.len() == 1 && "|"@[0] == '|');
    let left = a + "|"@ + b;
    let right = c + "|"@ + d;
    assert(left.len() == right.len());
    assert(left[a.len() as int] == '|');
    assert(right[c.len() as int] == '|');
    if a.len() < c.len() {
        assert(right[a.len() as int] == c[a.len() as int]);
    }
    if c.len() < a.len() {
        assert(left[c.len() as int] == a[c.len() as int]);
    }
    assert(left.take(a.len() as int) =~= a);
    assert(right.take(c.len() as int) =~= c);
    assert(left.skip(a.len() as int + 1) =~= b);
    assert(right.skip(c.len() as int + 1) =~= d);
}

/// A numeral has no bar in it.
proof fn lemma_decimal_bar_free(value: int)
    ensures
        bar_free(text::decimal(value)),
{
    let size = (if value < 0 { -value } else { value }) as nat;
    text::lemma_digits_value(size);
    let numeral = text::decimal(value);
    if numeral.contains('|') {
        let i = choose|i: int| 0 <= i < numeral.len() && numeral[i] == '|';
        if value < 0 {
            assert(numeral[0] == '-');
            assert(text::is_digit(text::digits(size)[i - 1]));
        } else {
            assert(text::is_digit(text::digits(size)[i]));
        }
    }
}

/// The key of a spike identifies market, candle interval and time, where either the
/// names of the intervals or the names of the markets are free of bars.
pub proof fn law_key_identifies_spike(
    symbol: Seq<char>,
    interval: Seq<char>,
    spike_time_ms: i64,
    other_symbol: Seq<char>,
    other_interval: Seq<char>,
    other_time_ms: i64,
)
    requires
        bar_free(interval) && bar_free(other_interval) || bar_free(symbol) && bar_free(
            other_symbol,
        ),
    ensures
        spike_key(symbol, interval, spike_time_ms) == spike_key(
            other_symbol,
            other_interval,
            other_time_ms,
        ) <==> symbol == other_symbol && interval == other_interval && spike_time_ms
            == other_time_ms,
{
    let key = spike_key(symbol, interval, spike_time_ms);
    let other = spike_key(other_symbol, other_interval, other_time_ms);
    if key == other {
        lemma_decimal_bar_free(spike_time_ms as int);
        lemma_decimal_bar_free(other_time_ms as int);
        lemma_last_bar(
            symbol + "|"@ + interval,
            text::decimal(spike_time_ms as int),
            other_symbol + "|"@ + other_interval,
            text::decimal(other_time_ms as int),
        );
        text::lemma_decimal_injective(spike_time_ms as int, other_time_ms as int);
        if bar_free(interval) && bar_free(other_interval) {
            lemma_last_bar(symbol, interval, other_symbol, other_interval);
        } else {
            lemma_first_bar(symbol, interval, other_symbol, other_interval);
        }
    }
}

/// Marking reports the marked spike and no other one: a spike counts as reported
/// afterwards if it did before or if market, interval and time are those marked.
pub proof fn law_marking_is_per_spike(
    spikes: Map<Seq<char>, i64>,
    marked: CandidateView,
    interval: Seq<char>,
    other: CandidateView,
    other_interval: Seq<char>,
)
    requires
        bar_free(interval) && bar_free(other_interval) || bar_free(marked.symbol) && bar_free(
            other.symbol,
        ),
    ensures
        spikes.insert(key_of(marked, interval), marked.latest_spike_time_ms).contains_key(
            key_of(other, other_interval),
        ) <==> spikes.contains_key(key_of(other, other_interval)) || (other.symbol
            == marked.symbol && other_interval == interval && other.latest_spike_time_ms
            == marked.latest_spike_time_ms),
{
    law_key_identifies_spike(
        marked.symbol,
        interval,
        marked.latest_spike_time_ms,
        other.symbol,
        other_interval,
        other.latest_spike_time_ms,
    );
}

/// What can be done to the reported spikes.
pub enum StateChange {
    /// The latest spike of a candidate is noted as reported, for candles of an interval.
    Mark(CandidateView, Seq<char>),
    /// The spikes that are older than a point in time are forgotten.
    Prune(i64),
}

/// The reported spikes after changes, one after the other, when there were none at first.
pub open spec fn reached(changes: Seq<StateChange>) -> Map<Seq<char>, i64>
    decreases changes.len(),
{
    if changes.len() == 0 {
        Map::empty()
    } else {
        let before = reached(changes.drop_last());
        match changes.last() {
            StateChange::Mark(candidate, interval) => before.insert(
                key_of(candidate, interval),
                candidate.latest_spike_time_ms,
            ),
            StateChange::Prune(oldest_allowed_ms) => not_older(before, oldest_allowed_ms),
        }
    }
}

/// Keys that are equal are keys of spikes at the same time.
pub proof fn lemma_key_tells_time(
    a: CandidateView,
    a_interval: Seq<char>,
    b: CandidateView,
    b_interval: Seq<char>,
)
    requires
        key_of(a, a_interval) == key_of(b, b_interval),
    ensures
        a.latest_spike_time_ms == b.latest_spike_time_ms,
{
    lemma_decimal_bar_free(a.latest_spike_time_ms as int);
    lemma_decimal_bar_free(b.latest_spike_time_ms as int);
    lemma_last_bar(
        a.symbol + "|"@ + a_interval,
        text::decimal(a.latest_spike_time_ms as int),
        b.symbol + "|"@ + b_interval,
        text::decimal(b.latest_spike_time_ms as int),
    );
    text::lemma_decimal_injective(a.latest_spike_time_ms as int, b.latest_spike_time_ms as int);
}

/// Under the key of a spike stands its time.
proof fn lemma_reached_times(
    changes: Seq<StateChange>,
    candidate: CandidateView,
    interval: Seq<char>,
)
    ensures
        reached(changes).contains_key(key_of(candidate, interval)) ==> reached(
            changes,
        )[key_of(candidate, interval)] == candidate.latest_spike_time_ms,
    decreases changes.len(),
{
    if changes.len() > 0 {
        lemma_reached_times(changes.drop_last(), candidate, interval);
        match changes.last() {
            StateChange::Mark(marked, marked_interval) => {
                if key_of(marked, marked_interval) == key_of(candidate, interval) {
                    lemma_key_tells_time(marked, marked_interval, candidate, interval);
                }
            },
            StateChange::Prune(_) => {},
        }
    }
}

/// Whatever has been marked and pruned before: after pruning, a spike counts as reported
/// if and only if it did so before and is not older than what is allowed.
pub proof fn law_pruning_forgets_old_spikes(
    changes: Seq<StateChange>,
    oldest_allowed_ms: i64,
    candidate: CandidateView,
    interval: Seq<char>,
)
    ensures
        not_older(reached(changes), oldest_allowed_ms).contains_key(key_of(candidate, interval))
            <==> reached(changes).contains_key(key_of(candidate, interval))
            && candidate.latest_spike_time_ms >= oldest_allowed_ms,
{
    lemma_reached_times(changes, candidate, interval);
}

/// What is loaded from what was saved reports the same spikes.
pub proof fn law_loading_restores_saved_state<E>(
    saved: AlertState,
    stored: Vec<(String, i64)>,
    loaded: Result<AlertState, E>,
)
    requires
        call_ensures(AlertState::save, (&saved,), stored),
        call_ensures(AlertState::load::<E>, (Ok(Some(stored)),), loaded),
    ensures
        loaded matches Ok(state) && state@ == saved@,
{
}

/// Where nothing is stored, loading succeeds and no spike counts as reported.
pub proof fn law_nothing_stored_reports_nothing<E>(
    loaded: Result<AlertState, E>,
    candidate: CandidateView,
    interval: Seq<char>,
)
    requires
        call_ensures(AlertState::load::<E>, (Ok(None),), loaded),
    ensures
        loaded matches Ok(state) && !state@.contains_key(key_of(candidate, interval)),
{
}

/// What could not be read is never taken for an empty state.
pub proof fn law_unreadable_state_is_refused<E>(loaded: Result<AlertState, E>, reason: E)
    requires
        call_ensures(AlertState::load::<E>, (Err(reason),), loaded),
    ensures
        loaded == Err::<AlertState, E>(reason),
{
}

} // verus!
