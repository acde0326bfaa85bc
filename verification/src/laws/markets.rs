//! Which markets are tracked, how they are searched and what a change of them means.

use crate::binance::SymbolInfo;
use crate::config::{Config, ValidatedConfig};
use crate::detector::{
    detect_candidate, CandidateResult, CandidateView, Candle, DetectorSettings,
};
use crate::market;
use crate::market::{
    analysis_config_changed, detector_settings, evaluate_all, evaluate_symbol, same_symbols,
    select_tracked_symbols, symbol_universe, universe_change, SymbolUniverse, UniverseChange,
    UniverseError,
};
use crate::number;
use crate::number::{Number, Operation};
use crate::ordering;
use crate::ordering::Ordered;
use crate::text_map::TextMap;
use vstd::prelude::*;

verus! {

/// Whether a market trades against USDT, is open, and has a volume from the least to the
/// greatest that is asked for.
pub open spec fn qualifies(
    market: SymbolInfo,
    volumes: Map<Seq<char>, Number>,
    least: Number,
    greatest: Number,
) -> bool {
    &&& market.status@ == "TRADING"@
    &&& market.quote_asset@ == "USDT"@
    &&& volumes.contains_key(market.symbol@)
    &&& least.at_most(volumes[market.symbol@])
    &&& volumes[market.symbol@].at_most(greatest)
}

/// How many markets qualify.
pub open spec fn count_qualifying(
    markets: Seq<SymbolInfo>,
    volumes: Map<Seq<char>, Number>,
    least: Number,
    greatest: Number,
) -> nat
    decreases markets.len(),
{
    if markets.len() == 0 {
        0
    } else if qualifies(markets.last(), volumes, least, greatest) {
        count_qualifying(markets.drop_last(), volumes, least, greatest) + 1
    } else {
        count_qualifying(markets.drop_last(), volumes, least, greatest)
    }
}

proof fn lemma_count(
    markets: Seq<SymbolInfo>,
    volumes: Map<Seq<char>, Number>,
    least: Number,
    greatest: Number,
)
    ensures
        market::tracked_names(ordering::views(markets), volumes, least, greatest).len()
            == count_qualifying(markets, volumes, least, greatest),
    decreases markets.len(),
{
    reveal(Seq::filter);
    if markets.len() > 0 {
        lemma_count(markets.drop_last(), volumes, least, greatest);
        assert(ordering::views(markets).drop_last() =~= ordering::views(markets.drop_last()));
    }
}

proof fn lemma_names(
    markets: Seq<SymbolInfo>,
    volumes: Map<Seq<char>, Number>,
    least: Number,
    greatest: Number,
    name: Seq<char>,
)
    ensures
        market::tracked_symbols(ordering::views(markets), volumes, least, greatest).contains(name)
            <==> exists|k: int|
            0 <= k < markets.len() && (#[trigger] markets[k]).symbol@ == name && qualifies(
                markets[k],
                volumes,
                least,
                greatest,
            ),
{
    let all = ordering::views(markets);
    market::law_universe_is_what_qualifies(all, volumes, least, greatest, name);
    if exists|i: int|
        0 <= i < all.len() && (#[trigger] all[i]).symbol == name && market::is_tracked(
            volumes,
            least,
            greatest,
            all[i],
        ) {
        let i = choose|i: int|
            0 <= i < all.len() && (#[trigger] all[i]).symbol == name && market::is_tracked(
                volumes,
                least,
                greatest,
                all[i],
            );
        assert(qualifies(markets[i], volumes, least, greatest));
    }
    if exists|k: int|
        0 <= k < markets.len() && (#[trigger] markets[k]).symbol@ == name && qualifies(
            markets[k],
            volumes,
            least,
            greatest,
        ) {
        let k = choose|k: int|
            0 <= k < markets.len() && (#[trigger] markets[k]).symbol@ == name && qualifies(
                markets[k],
                volumes,
                least,
                greatest,
            );
        assert(all[k].symbol == name);
    }
}

/// The markets that are selected are those of the list that qualify: each of them is open,
/// trades against USDT and has a volume in the range; none that qualifies is left out or
/// listed more often than the exchange lists it; and the names are in order.
pub proof fn law_selected_markets_qualify(
    symbols: Vec<SymbolInfo>,
    volumes: TextMap<Number>,
    least: Number,
    greatest: Number,
    selected: Vec<String>,
)
    requires
        call_ensures(select_tracked_symbols, (&symbols, &volumes, least, greatest), selected),
    ensures
        forall|i: int|
            0 <= i < selected@.len() ==> exists|k: int|
                0 <= k < symbols@.len() && (#[trigger] symbols@[k]).symbol@ == (
                #[trigger] selected@[i])@ && symbols@[k].status@ == "TRADING"@
                    && symbols@[k].quote_asset@ == "USDT"@ && volumes@.contains_key(
                    selected@[i]@,
                ) && least.at_most(volumes@[selected@[i]@]) && volumes@[selected@[i]@].at_most(
                    greatest,
                ),
        forall|k: int|
            0 <= k < symbols@.len() && qualifies(
                #[trigger] symbols@[k],
                volumes@,
                least,
                greatest,
            ) ==> exists|i: int|
                0 <= i < selected@.len() && (#[trigger] selected@[i])@ == symbols@[k].symbol@,
        selected@.len() == count_qualifying(symbols@, volumes@, least, greatest),
        forall|i: int, j: int|
            0 <= i < j < selected@.len() ==> ordering::text_precedes(
                (#[trigger] selected@[i])@,
                (#[trigger] selected@[j])@,
            ),
{
    let all = ordering::views(symbols@);
    let names = ordering::views(selected@);
    assert forall|i: int| 0 <= i < selected@.len() implies exists|k: int|
        0 <= k < symbols@.len() && (#[trigger] symbols@[k]).symbol@ == (#[trigger] selected@[i])@
            && symbols@[k].status@ == "TRADING"@ && symbols@[k].quote_asset@ == "USDT"@
            && volumes@.contains_key(selected@[i]@) && least.at_most(volumes@[selected@[i]@])
            && volumes@[selected@[i]@].at_most(greatest) by {
        assert(names[i] == selected@[i]@);
        assert(names.contains(names[i]));
        lemma_names(symbols@, volumes@, least, greatest, selected@[i]@);
        let k = choose|k: int|
            0 <= k < symbols@.len() && (#[trigger] symbols@[k]).symbol@ == selected@[i]@
                && qualifies(symbols@[k], volumes@, least, greatest);
        assert(symbols@[k].symbol@ == selected@[i]@);
    }
    assert forall|k: int|
        0 <= k < symbols@.len() && qualifies(
            #[trigger] symbols@[k],
            volumes@,
            least,
            greatest,
        ) implies exists|i: int|
        0 <= i < selected@.len() && (#[trigger] selected@[i])@ == symbols@[k].symbol@ by {
        lemma_names(symbols@, volumes@, least, greatest, symbols@[k].symbol@);
        let i = choose|i: int| 0 <= i < names.len() && names[i] == symbols@[k].symbol@;
        assert(selected@[i]@ == symbols@[k].symbol@);
    }
    let found = market::tracked_names(all, volumes@, least, greatest);
    String::order_is_total();
    found.lemma_sort_by_ensures(ordering::order::<String>());
    vstd::seq_lib::to_multiset_len(found);
    vstd::seq_lib::to_multiset_len(names);
    lemma_count(symbols@, volumes@, least, greatest);
    assert forall|i: int, j: int| 0 <= i < j < selected@.len() implies ordering::text_precedes(
        (#[trigger] selected@[i])@,
        (#[trigger] selected@[j])@,
    ) by {
        assert(names[i] == selected@[i]@ && names[j] == selected@[j]@);
        assert(ordering::order::<String>()(names[i], names[j]));
    }
}

/// The universe is made of the markets that are selected, each with its volume; where there
/// is none, there is no universe.
pub proof fn law_universe_holds_selected_markets(
    symbols: Vec<SymbolInfo>,
    volumes: TextMap<Number>,
    least: Number,
    greatest: Number,
    selected: Vec<String>,
    result: Result<SymbolUniverse, UniverseError>,
)
    requires
        call_ensures(select_tracked_symbols, (&symbols, &volumes, least, greatest), selected),
        call_ensures(symbol_universe, (&symbols, &volumes, least, greatest), result),
    ensures
        result is Err <==> selected@.len() == 0,
        result matches Ok(universe) ==> {
            &&& universe.symbols@.len() == selected@.len()
            &&& forall|i: int|
                0 <= i < selected@.len() ==> (#[trigger] universe.symbols@[i])@ == selected@[i]@
                    && universe.quote_volumes@.contains_key(selected@[i]@)
                    && universe.quote_volumes@[selected@[i]@] == volumes@[selected@[i]@]
            &&& forall|name: Seq<char>| #[trigger]
                universe.quote_volumes@.contains_key(name) ==> exists|i: int|
                    0 <= i < selected@.len() && (#[trigger] selected@[i])@ == name
        },
{
    law_selected_markets_qualify(symbols, volumes, least, greatest, selected);
    let names = ordering::views(selected@);
    assert(names.len() == selected@.len());
    if let Ok(universe) = result {
        let listed = ordering::views(universe.symbols@);
        assert(listed.len() == universe.symbols@.len());
        assert forall|i: int| 0 <= i < selected@.len() implies (#[trigger] universe.symbols@[i])@
            == selected@[i]@ && universe.quote_volumes@.contains_key(selected@[i]@)
            && universe.quote_volumes@[selected@[i]@] == volumes@[selected@[i]@] by {
            assert(listed[i] == universe.symbols@[i]@);
            assert(names[i] == selected@[i]@);
            assert(names.contains(names[i]));
        }
        assert forall|name: Seq<char>| #[trigger]
            universe.quote_volumes@.contains_key(name) implies exists|i: int|
            0 <= i < selected@.len() && (#[trigger] selected@[i])@ == name by {
            assert(names.contains(name));
            let i = choose|i: int| 0 <= i < names.len() && names[i] == name;
            assert(selected@[i]@ == name);
        }
    }
}

/// The detector is told the times of the validated configuration and the percentages of the
/// configuration, each as what it is.
pub proof fn law_detector_is_told_the_settings(
    config: Config,
    validated: ValidatedConfig,
    settings: DetectorSettings,
)
    requires
        call_ensures(detector_settings, (&config, &validated), settings),
    ensures
        settings.window_candles == validated.window_candles,
        settings.interval_ms == validated.interval_ms,
        settings.quiet_period_ms == validated.quiet_period_ms,
        settings.sideways_band_pct == config.sideways_band_pct,
        settings.min_sideways_closes_pct == config.min_sideways_closes_pct,
        settings.positive_spike_pct == config.positive_spike_pct,
{
}

/// A market with a history is a candidate if and only if its history makes one, with the
/// volume that is known of it or none; a market without a history is none.
pub proof fn law_markets_are_judged_by_their_history<C: Fn(Operation) -> Number>(
    symbol: &str,
    histories: TextMap<Vec<Candle>>,
    volumes: TextMap<Number>,
    config: Config,
    validated: ValidatedConfig,
    calc: C,
    result: Option<CandidateResult>,
    settings: DetectorSettings,
    candles: &[Candle],
    volume: Number,
    judged: Option<CandidateResult>,
)
    requires
        number::calculates(calc),
        validated.valid(),
        call_ensures(
            evaluate_symbol::<C>,
            (symbol, &histories, &volumes, &config, &validated, &calc),
            result,
        ),
        call_ensures(detector_settings, (&config, &validated), settings),
        histories@.contains_key(symbol@) ==> candles@ == histories@[symbol@]@,
        volume == (if volumes@.contains_key(symbol@) {
            volumes@[symbol@]
        } else {
            number::pattern(0)
        }),
        call_ensures(detect_candidate::<C>, (symbol, candles, settings, volume, &calc), judged),
    ensures
        !histories@.contains_key(symbol@) ==> result is None,
        histories@.contains_key(symbol@) ==> (result is Some <==> judged is Some) && (result is Some
            ==> result->0@ == judged->0@),
{
}

/// The results that are there, by their contents.
pub open spec fn those_there(each: Seq<Option<CandidateResult>>) -> Seq<CandidateView>
    decreases each.len(),
{
    if each.len() == 0 {
        seq![]
    } else {
        match each.last() {
            Some(candidate) => those_there(each.drop_last()).push(candidate@),
            None => those_there(each.drop_last()),
        }
    }
}

proof fn lemma_those_there(
    found: spec_fn(Seq<char>) -> Option<CandidateView>,
    names: Seq<Seq<char>>,
    each: Seq<Option<CandidateResult>>,
)
    requires
        names.len() == each.len(),
        forall|i: int|
            #![trigger each[i]]
            0 <= i < each.len() ==> match each[i] {
                Some(candidate) => found(names[i]) == Some(candidate@),
                None => found(names[i]) is None,
            },
    ensures
        names.filter_map(found) == those_there(each),
    decreases names.len(),
{
    reveal(Seq::filter_map);
    if names.len() > 0 {
        let rest = each.drop_last();
        let fewer = names.drop_last();
        assert(each[each.len() - 1] == each.last());
        assert forall|i: int|
            #![trigger rest[i]]
            0 <= i < rest.len() implies match rest[i] {
            Some(candidate) => found(fewer[i]) == Some(candidate@),
            None => found(fewer[i]) is None,
        } by {
            assert(each[i] == rest[i]);
        }
        lemma_those_there(found, fewer, rest);
    }
}

/// The search of all markets finds what the search of each finds, in the order of the
/// universe.
pub proof fn law_all_markets_are_searched<C: Fn(Operation) -> Number>(
    universe: SymbolUniverse,
    names: Seq<&str>,
    histories: TextMap<Vec<Candle>>,
    config: Config,
    validated: ValidatedConfig,
    calc: C,
    each: Seq<Option<CandidateResult>>,
    result: Vec<CandidateResult>,
)
    requires
        number::calculates(calc),
        validated.valid(),
        call_ensures(
            evaluate_all::<C>,
            (&universe, &histories, &config, &validated, &calc),
            result,
        ),
        names.len() == universe.symbols@.len(),
        each.len() == universe.symbols@.len(),
        forall|i: int|
            #![trigger each[i]]
            0 <= i < each.len() ==> names[i]@ == universe.symbols@[i]@ && call_ensures(
                evaluate_symbol::<C>,
                (names[i], &histories, &universe.quote_volumes, &config, &validated, &calc),
                each[i],
            ),
    ensures
        ordering::views(result@) == those_there(each),
{
    let arithmetic = number::answers(calc);
    let settings = market::settings_of(config@, validated);
    let listed = ordering::views(universe.symbols@);
    let found = |symbol: Seq<char>|
        market::evaluation(
            arithmetic,
            histories@,
            universe.quote_volumes@,
            settings,
            symbol,
        );
    assert forall|i: int|
        #![trigger each[i]]
        0 <= i < each.len() implies match each[i] {
        Some(candidate) => found(listed[i]) == Some(candidate@),
        None => found(listed[i]) is None,
    } by {
        assert(listed[i] == names[i]@);
    }
    lemma_those_there(found, listed, each);
}

/// Two lists are the same if and only if they are as long as each other and have the same
/// names at the same places.
pub proof fn law_lists_are_compared_place_by_place(
    left: Vec<String>,
    right: Vec<String>,
    same: bool,
)
    requires
        call_ensures(same_symbols, (&left, &right), same),
    ensures
        same <==> left@.len() == right@.len() && forall|i: int|
            0 <= i < left@.len() ==> (#[trigger] left@[i])@ == right@[i]@,
{
    let a = ordering::views(left@);
    let b = ordering::views(right@);
    assert(a.len() == left@.len() && b.len() == right@.len());
    if same {
        assert forall|i: int| 0 <= i < left@.len() implies (#[trigger] left@[i])@ == right@[i]@ by {
            assert(a[i] == left@[i]@ && b[i] == right@[i]@);
        }
    }
    if left@.len() == right@.len() && forall|i: int|
        0 <= i < left@.len() ==> (#[trigger] left@[i])@ == right@[i]@ {
        assert(a =~= b);
    }
}

/// Whether a list has a name.
pub open spec fn has_name(list: Seq<String>, name: Seq<char>) -> bool {
    exists|i: int| 0 <= i < list.len() && (#[trigger] list[i])@ == name
}

/// How many names of a list another one does not have.
pub open spec fn count_missing(list: Seq<String>, other: Seq<String>) -> nat
    decreases list.len(),
{
    if list.len() == 0 {
        0
    } else if has_name(other, list.last()@) {
        count_missing(list.drop_last(), other)
    } else {
        count_missing(list.drop_last(), other) + 1
    }
}

proof fn lemma_has_name(list: Seq<String>, name: Seq<char>)
    ensures
        has_name(list, name) <==> ordering::views(list).contains(name),
{
    let names = ordering::views(list);
    if names.contains(name) {
        let i = choose|i: int| 0 <= i < names.len() && names[i] == name;
        assert(list[i]@ == name);
    }
    if has_name(list, name) {
        let i = choose|i: int| 0 <= i < list.len() && (#[trigger] list[i])@ == name;
        assert(names[i] == name);
    }
}

proof fn lemma_missing(list: Seq<String>, other: Seq<String>)
    ensures
        market::names_missing(ordering::views(list), ordering::views(other)).len()
            == count_missing(list, other),
    decreases list.len(),
{
    reveal(Seq::filter);
    if list.len() > 0 {
        lemma_missing(list.drop_last(), other);
        lemma_has_name(other, list.last()@);
        assert(ordering::views(list).drop_last() =~= ordering::views(list.drop_last()));
    }
}

/// A change of the universe tells which markets are new and how many are gone: a market is
/// new if and only if it is in the updated universe and was not in the previous one.
pub proof fn law_changes_tell_new_and_gone(
    previous: Vec<String>,
    updated: Vec<String>,
    change: UniverseChange,
    name: Seq<char>,
)
    requires
        call_ensures(universe_change, (&previous, &updated), Some(change)),
    ensures
        has_name(change.added@, name) <==> has_name(updated@, name) && !has_name(previous@, name),
        change.added@.len() == count_missing(updated@, previous@),
        change.removed_count == count_missing(previous@, updated@),
{
    let names = ordering::views(updated@);
    let known = ordering::views(previous@);
    let added = ordering::views(change.added@);
    let is_new = |n: Seq<char>| !known.contains(n);
    lemma_missing(updated@, previous@);
    lemma_missing(previous@, updated@);
    lemma_has_name(change.added@, name);
    lemma_has_name(updated@, name);
    lemma_has_name(previous@, name);
    assert(added.len() == change.added@.len());
    if added.contains(name) {
        let i = choose|i: int| 0 <= i < added.len() && added[i] == name;
        names.lemma_filter_pred(is_new, i);
        names.lemma_filter_contains_rev(is_new, name);
    }
    if names.contains(name) && !known.contains(name) {
        let i = choose|i: int| 0 <= i < names.len() && names[i] == name;
        names.lemma_filter_contains(is_new, i);
    }
}

/// There is a change if and only if the lists differ.
pub proof fn law_same_lists_are_no_change(
    previous: Vec<String>,
    updated: Vec<String>,
    same: bool,
    change: Option<UniverseChange>,
)
    requires
        call_ensures(same_symbols, (&previous, &updated), same),
        call_ensures(universe_change, (&previous, &updated), change),
    ensures
        change is None <==> same,
{
}

/// The analysis begins anew if and only if the window, the interval, the quiet period, one
/// of the percentages, one of the volumes or the refresh is another one.
pub proof fn law_analysis_restarts_for_its_settings(left: Config, right: Config, changed: bool)
    requires
        call_ensures(analysis_config_changed, (&left, &right), changed),
    ensures
        !changed <==> {
            &&& left.rolling_window@ == right.rolling_window@
            &&& left.candle_interval@ == right.candle_interval@
            &&& left.post_spike_quiet_period@ == right.post_spike_quiet_period@
            &&& left.symbol_refresh_secs == right.symbol_refresh_secs
            &&& left.sideways_band_pct.equals(right.sideways_band_pct)
            &&& left.min_sideways_closes_pct.equals(right.min_sideways_closes_pct)
            &&& left.positive_spike_pct.equals(right.positive_spike_pct)
            &&& left.min_quote_volume_24h.equals(right.min_quote_volume_24h)
            &&& left.max_quote_volume_24h.equals(right.max_quote_volume_24h)
        },
{
}

/// One more market is selected, besides the others, if and only if it qualifies.
pub proof fn law_each_market_is_selected_alone(
    symbols: Vec<SymbolInfo>,
    more: Vec<SymbolInfo>,
    market: SymbolInfo,
    volumes: TextMap<Number>,
    least: Number,
    greatest: Number,
    selected: Vec<String>,
    next: Vec<String>,
)
    requires
        more@ == symbols@.push(market),
        call_ensures(select_tracked_symbols, (&symbols, &volumes, least, greatest), selected),
        call_ensures(select_tracked_symbols, (&more, &volumes, least, greatest), next),
    ensures
        ordering::views(next@).to_multiset() == if qualifies(market, volumes@, least, greatest) {
            ordering::views(selected@).to_multiset().insert(market.symbol@)
        } else {
            ordering::views(selected@).to_multiset()
        },
        symbols@.len() == 0 ==> selected@.len() == 0,
{
    broadcast use vstd::seq::Seq::lemma_filter_push;
    broadcast use vstd::seq_lib::group_to_multiset_ensures;

    let all = ordering::views(symbols@);
    assert(ordering::views(more@) =~= all.push(market@));
    let found = market::tracked_names(all, volumes@, least, greatest);
    let longer = market::tracked_names(all.push(market@), volumes@, least, greatest);
    assert(longer =~= if qualifies(market, volumes@, least, greatest) {
        found.push(market.symbol@)
    } else {
        found
    });
    String::order_is_total();
    found.lemma_sort_by_ensures(ordering::order::<String>());
    longer.lemma_sort_by_ensures(ordering::order::<String>());
    if symbols@.len() == 0 {
        lemma_count(symbols@, volumes@, least, greatest);
        vstd::seq_lib::to_multiset_len(found);
        vstd::seq_lib::to_multiset_len(ordering::views(selected@));
        assert(ordering::views(selected@).len() == selected@.len());
    }
}

/// The new markets are told in the order of the updated list: one more is told behind the
/// others if and only if it was not there before.
pub proof fn law_new_markets_keep_their_order(
    previous: Vec<String>,
    updated: Vec<String>,
    more: Vec<String>,
    name: String,
    change: UniverseChange,
    next: UniverseChange,
)
    requires
        more@ == updated@.push(name),
        call_ensures(universe_change, (&previous, &updated), Some(change)),
        call_ensures(universe_change, (&previous, &more), Some(next)),
    ensures
        ordering::views(next.added@) == if has_name(previous@, name@) {
            ordering::views(change.added@)
        } else {
            ordering::views(change.added@).push(name@)
        },
{
    broadcast use vstd::seq::Seq::lemma_filter_push;

    lemma_has_name(previous@, name@);
    assert(ordering::views(more@) =~= ordering::views(updated@).push(name@));
}

/// That there is nothing to track is told.
pub proof fn law_an_empty_universe_is_told(error: UniverseError, message: String)
    requires
        call_ensures(UniverseError::message, (error,), message),
    ensures
        message@ == "no trading USDT symbols meet the configured 24h quote-volume range"@,
{
}

} // verus!
