//! The markets that are picked, and the search for candidates among them.

use crate::binance::{SymbolInfo, SymbolView};
use crate::config::{Config, ConfigView, ValidatedConfig};
use crate::detector;
use crate::detector::{
    detect_candidate, CandidateResult, CandidateView, Candle, DetectorSettings,
};
use crate::number;
use crate::number::{Number, Operation};
use crate::ordering;
use crate::ordering::{sorted, Ordered};
use crate::text::same_text;
use crate::text_map;
use crate::text_map::{lists_key, TextMap};
use vstd::prelude::*;
use vstd::seq_lib::*;

verus! {

/// The markets that are tracked, in order, and what was traded in each in a day.
pub struct SymbolUniverse {
    pub symbols: Vec<String>,
    pub quote_volumes: TextMap<Number>,
}

/// Why there is nothing to track.
#[derive(Clone, Copy, PartialEq, Eq, Structural, Debug)]
pub enum UniverseError {
    NoSymbols,
}

impl UniverseError {
    /// The error in words.
    pub open spec fn words(self) -> Seq<char> {
        "no trading USDT symbols meet the configured 24h quote-volume range"@
    }

    /// The error in words.
    pub fn message(self) -> (result: String)
        ensures
            result@ == self.words(),
    {
        "no trading USDT symbols meet the configured 24h quote-volume range".to_owned()
    }
}

/// Whether a market is tracked: it is open, trades against USDT, and the volume of a day
/// is known and lies in the given range, its ends included.
pub open spec fn is_tracked(
    volumes: Map<Seq<char>, Number>,
    min_quote_volume_24h: Number,
    max_quote_volume_24h: Number,
    market: SymbolView,
) -> bool {
    &&& market.status == "TRADING"@
    &&& market.quote_asset == "USDT"@
    &&& volumes.contains_key(market.symbol)
    &&& min_quote_volume_24h.at_most(volumes[market.symbol])
    &&& volumes[market.symbol].at_most(max_quote_volume_24h)
}

/// The names of the markets that are tracked, in the order in which the exchange lists
/// them.
pub open spec fn tracked_names(
    markets: Seq<SymbolView>,
    volumes: Map<Seq<char>, Number>,
    min_quote_volume_24h: Number,
    max_quote_volume_24h: Number,
) -> Seq<Seq<char>> {
    markets.filter(
        |market: SymbolView|
            is_tracked(volumes, min_quote_volume_24h, max_quote_volume_24h, market),
    ).map_values(|market: SymbolView| market.symbol)
}

/// The names of the markets that are tracked, sorted.
pub open spec fn tracked_symbols(
    markets: Seq<SymbolView>,
    volumes: Map<Seq<char>, Number>,
    min_quote_volume_24h: Number,
    max_quote_volume_24h: Number,
) -> Seq<Seq<char>> {
    tracked_names(markets, volumes, min_quote_volume_24h, max_quote_volume_24h).sort_by(
        ordering::order::<String>(),
    )
}

/// Selects the markets that are tracked.
pub fn select_tracked_symbols(
    symbols: &Vec<SymbolInfo>,
    volumes: &TextMap<Number>,
    min_quote_volume_24h: Number,
    max_quote_volume_24h: Number,
) -> (result: Vec<String>)
    ensures
        ordering::views(result@) == tracked_symbols(
            ordering::views(symbols@),
            volumes@,
            min_quote_volume_24h,
            max_quote_volume_24h,
        ),
{
    let ghost markets = ordering::views(symbols@);
    let mut picked: Vec<String> = Vec::new();
    let mut i: usize = 0;
    assert(markets.take(0) =~= Seq::<SymbolView>::empty());
    assert(ordering::views(picked@) =~= tracked_names(
        markets.take(0),
        volumes@,
        min_quote_volume_24h,
        max_quote_volume_24h,
    ));
    while i < symbols.len()
        invariant
            i <= symbols@.len(),
            markets == ordering::views(symbols@),
            ordering::views(picked@) == tracked_names(
                markets.take(i as int),
                volumes@,
                min_quote_volume_24h,
                max_quote_volume_24h,
            ),
        decreases symbols@.len() - i,
    {
        let market = &symbols[i];
        let ghost before = ordering::views(picked@);
        proof {
            broadcast use vstd::seq::Seq::lemma_filter_push;

            assert(markets.take(i + 1) =~= markets.take(i as int).push(markets[i as int]));
            assert(markets[i as int] == market@);
        }
        let in_range = match volumes.get(market.symbol.as_str()) {
            Some(volume) => min_quote_volume_24h.is_at_most(*volume) && volume.is_at_most(
                max_quote_volume_24h,
            ),
            None => false,
        };
        let is_open = same_text(market.status.as_str(), "TRADING");
        let in_usdt = same_text(market.quote_asset.as_str(), "USDT");
        if is_open && in_usdt && in_range {
            picked.push(market.symbol.clone());
            assert(ordering::views(picked@) =~= before.push(market@.symbol));
        }
        assert(ordering::views(picked@) =~= tracked_names(
            markets.take(i + 1),
            volumes@,
            min_quote_volume_24h,
            max_quote_volume_24h,
        ));
        i += 1;
    }
    assert(markets.take(i as int) =~= markets);
    sorted(picked)
}

/// The volumes of the listed markets.
pub open spec fn volumes_of(volumes: Map<Seq<char>, Number>, symbols: Seq<Seq<char>>) -> Map<
    Seq<char>,
    Number,
> {
    volumes.restrict(Set::new(|symbol: Seq<char>| symbols.contains(symbol)))
}

/// The volumes of the listed markets.
fn select_volumes(symbols: &Vec<String>, volumes: &TextMap<Number>) -> (result: TextMap<Number>)
    ensures
        result@ == volumes_of(volumes@, ordering::views(symbols@)),
{
    let ghost names = ordering::views(symbols@);
    let mut selected: TextMap<Number> = TextMap::new();
    let mut i: usize = 0;
    assert(selected@ =~= volumes_of(volumes@, names.take(0)));
    while i < symbols.len()
        invariant
            i <= symbols@.len(),
            names == ordering::views(symbols@),
            selected@ == volumes_of(volumes@, names.take(i as int)),
        decreases symbols@.len() - i,
    {
        let ghost before = selected@;
        proof {
            let earlier = names.take(i as int);
            assert(names.take(i + 1) =~= earlier.push(names[i as int]));
            assert(names[i as int] == symbols@[i as int]@);
            assert forall|symbol: Seq<char>| #[trigger]
                names.take(i + 1).contains(symbol) <==> earlier.contains(symbol) || symbol
                    == names[i as int] by {
                if earlier.contains(symbol) {
                    let k = choose|k: int| 0 <= k < earlier.len() && earlier[k] == symbol;
                    assert(names.take(i + 1)[k] == symbol);
                }
                assert(names.take(i + 1)[i as int] == names[i as int]);
            }
        }
        if let Some(volume) = volumes.get(symbols[i].as_str()) {
            selected.insert(symbols[i].clone(), *volume);
        }
        assert(selected@ =~= volumes_of(volumes@, names.take(i + 1)));
        i += 1;
    }
    assert(names.take(i as int) =~= names);
    selected
}

/// Makes the universe of the markets that are tracked, of which there must be one.
pub fn symbol_universe(
    symbols: &Vec<SymbolInfo>,
    volumes: &TextMap<Number>,
    min_quote_volume_24h: Number,
    max_quote_volume_24h: Number,
) -> (result: Result<SymbolUniverse, UniverseError>)
    ensures
        ({
            let picked = tracked_symbols(
                ordering::views(symbols@),
                volumes@,
                min_quote_volume_24h,
                max_quote_volume_24h,
            );
            match result {
                Ok(universe) => {
                    &&& picked.len() > 0
                    &&& ordering::views(universe.symbols@) == picked
                    &&& universe.quote_volumes@ == volumes_of(volumes@, picked)
                },
                Err(_) => picked.len() == 0,
            }
        }),
{
    let picked = select_tracked_symbols(
        symbols,
        volumes,
        min_quote_volume_24h,
        max_quote_volume_24h,
    );
    let quote_volumes = select_volumes(&picked, volumes);
    assert(ordering::views(picked@).len() == picked@.len());
    if picked.len() == 0 {
        return Err(UniverseError::NoSymbols);
    }
    Ok(SymbolUniverse { symbols: picked, quote_volumes })
}

/// A market is in the universe if and only if the exchange lists it and it is to be
/// tracked, and the universe is in order.
pub proof fn law_universe_is_what_qualifies(
    markets: Seq<SymbolView>,
    volumes: Map<Seq<char>, Number>,
    min_quote_volume_24h: Number,
    max_quote_volume_24h: Number,
    symbol: Seq<char>,
)
    ensures
        tracked_symbols(
            markets,
            volumes,
            min_quote_volume_24h,
            max_quote_volume_24h,
        ).contains(symbol) <==> exists|i: int|
            0 <= i < markets.len() && (#[trigger] markets[i]).symbol == symbol && is_tracked(
                volumes,
                min_quote_volume_24h,
                max_quote_volume_24h,
                markets[i],
            ),
        vstd::relations::sorted_by(
            tracked_symbols(markets, volumes, min_quote_volume_24h, max_quote_volume_24h),
            ordering::order::<String>(),
        ),
{
    let is_wanted = |market: SymbolView|
        is_tracked(volumes, min_quote_volume_24h, max_quote_volume_24h, market);
    let wanted = markets.filter(is_wanted);
    let names = tracked_names(markets, volumes, min_quote_volume_24h, max_quote_volume_24h);
    let ascending = tracked_symbols(markets, volumes, min_quote_volume_24h, max_quote_volume_24h);
    String::order_is_total();
    names.lemma_sort_by_ensures(ordering::order::<String>());
    broadcast use group_to_multiset_ensures;

    assert(ascending.contains(symbol) <==> names.contains(symbol)) by {
        assert(ascending.to_multiset().contains(symbol) <==> ascending.contains(symbol));
        assert(names.to_multiset().contains(symbol) <==> names.contains(symbol));
    }
    if names.contains(symbol) {
        let k = choose|k: int| 0 <= k < names.len() && names[k] == symbol;
        assert(wanted[k].symbol == symbol);
        markets.lemma_filter_pred(is_wanted, k);
        assert(wanted.contains(wanted[k]));
        markets.lemma_filter_contains_rev(is_wanted, wanted[k]);
        let i = choose|i: int| 0 <= i < markets.len() && markets[i] == wanted[k];
        assert(markets[i].symbol == symbol);
    }
    if exists|i: int|
        0 <= i < markets.len() && (#[trigger] markets[i]).symbol == symbol && is_tracked(
            volumes,
            min_quote_volume_24h,
            max_quote_volume_24h,
            markets[i],
        ) {
        let i = choose|i: int|
            0 <= i < markets.len() && (#[trigger] markets[i]).symbol == symbol && is_tracked(
                volumes,
                min_quote_volume_24h,
                max_quote_volume_24h,
                markets[i],
            );
        markets.lemma_filter_contains(is_wanted, i);
        let k = choose|k: int| 0 <= k < wanted.len() && wanted[k] == markets[i];
        assert(names[k] == symbol);
    }
}

/// What the detector is told by a configuration.
pub open spec fn settings_of(config: ConfigView, validated: ValidatedConfig) -> DetectorSettings {
    DetectorSettings {
        window_candles: validated.window_candles,
        interval_ms: validated.interval_ms,
        sideways_band_pct: config.sideways_band_pct,
        min_sideways_closes_pct: config.min_sideways_closes_pct,
        positive_spike_pct: config.positive_spike_pct,
        quiet_period_ms: validated.quiet_period_ms,
    }
}

/// What the detector is told by a configuration.
pub fn detector_settings(config: &Config, validated: &ValidatedConfig) -> (result: DetectorSettings)
    ensures
        result == settings_of(config@, *validated),
{
    DetectorSettings {
        window_candles: validated.window_candles,
        interval_ms: validated.interval_ms,
        sideways_band_pct: config.sideways_band_pct,
        min_sideways_closes_pct: config.min_sideways_closes_pct,
        positive_spike_pct: config.positive_spike_pct,
        quiet_period_ms: validated.quiet_period_ms,
    }
}

/// The volume of a market, or zero where it is not known.
pub open spec fn known_volume(volumes: Map<Seq<char>, Number>, symbol: Seq<char>) -> Number {
    if volumes.contains_key(symbol) {
        volumes[symbol]
    } else {
        number::pattern(0)
    }
}

/// The candidate that the history of a market makes, if there is a history.
pub open spec fn evaluation(
    calc: spec_fn(Operation) -> Number,
    histories: Map<Seq<char>, Vec<Candle>>,
    volumes: Map<Seq<char>, Number>,
    settings: DetectorSettings,
    symbol: Seq<char>,
) -> Option<CandidateView> {
    if histories.contains_key(symbol) {
        detector::detection(
            calc,
            symbol,
            histories[symbol]@,
            settings,
            known_volume(volumes, symbol),
        )
    } else {
        None
    }
}

/// Looks for a candidate in the history of a market.
pub fn evaluate_symbol<C: Fn(Operation) -> Number>(
    symbol: &str,
    histories: &TextMap<Vec<Candle>>,
    quote_volumes: &TextMap<Number>,
    config: &Config,
    validated: &ValidatedConfig,
    calc: &C,
) -> (result: Option<CandidateResult>)
    requires
        number::calculates(*calc),
        validated.valid(),
    ensures
        match result {
            Some(candidate) => evaluation(
                number::answers(*calc),
                histories@,
                quote_volumes@,
                settings_of(config@, *validated),
                symbol@,
            ) == Some(candidate@),
            None => evaluation(
                number::answers(*calc),
                histories@,
                quote_volumes@,
                settings_of(config@, *validated),
                symbol@,
            ) is None,
        },
{
    assert(validated.quiet_period_ms > 0) by (nonlinear_arith)
        requires
            validated.quiet_period_ms == validated.quiet_candles * validated.interval_ms,
            validated.quiet_candles > 0,
            validated.interval_ms > 0,
    ;
    match histories.get(symbol) {
        Some(candles) => {
            let volume = match quote_volumes.get(symbol) {
                Some(volume) => *volume,
                None => Number::from_bits(0),
            };
            detect_candidate(
                symbol,
                candles.as_slice(),
                detector_settings(config, validated),
                volume,
                calc,
            )
        },
        None => None,
    }
}

/// The candidates among the listed markets, in the order of the list.
pub open spec fn evaluations(
    calc: spec_fn(Operation) -> Number,
    histories: Map<Seq<char>, Vec<Candle>>,
    volumes: Map<Seq<char>, Number>,
    settings: DetectorSettings,
    symbols: Seq<Seq<char>>,
) -> Seq<CandidateView> {
    symbols.filter_map(
        |symbol: Seq<char>| evaluation(calc, histories, volumes, settings, symbol),
    )
}

/// Looks for candidates in all markets of the universe.
pub fn evaluate_all<C: Fn(Operation) -> Number>(
    universe: &SymbolUniverse,
    histories: &TextMap<Vec<Candle>>,
    config: &Config,
    validated: &ValidatedConfig,
    calc: &C,
) -> (result: Vec<CandidateResult>)
    requires
        number::calculates(*calc),
        validated.valid(),
    ensures
        ordering::views(result@) == evaluations(
            number::answers(*calc),
            histories@,
            universe.quote_volumes@,
            settings_of(config@, *validated),
            ordering::views(universe.symbols@),
        ),
{
    let ghost answers = number::answers(*calc);
    let ghost settings = settings_of(config@, *validated);
    let ghost names = ordering::views(universe.symbols@);
    let ghost find = |symbol: Seq<char>|
        evaluation(answers, histories@, universe.quote_volumes@, settings, symbol);
    let mut candidates: Vec<CandidateResult> = Vec::new();
    let mut i: usize = 0;
    proof {
        reveal(Seq::filter_map);
        assert(names.take(0) =~= Seq::<Seq<char>>::empty());
        assert(ordering::views(candidates@) =~= names.take(0).filter_map(find));
    }
    while i < universe.symbols.len()
        invariant
            i <= universe.symbols@.len(),
            number::calculates(*calc),
            validated.valid(),
            answers == number::answers(*calc),
            settings == settings_of(config@, *validated),
            names == ordering::views(universe.symbols@),
            find == (|symbol: Seq<char>|
                evaluation(answers, histories@, universe.quote_volumes@, settings, symbol)),
            ordering::views(candidates@) == names.take(i as int).filter_map(find),
        decreases universe.symbols@.len() - i,
    {
        let ghost before = ordering::views(candidates@);
        proof {
            reveal(Seq::filter_map);
            assert(names.take(i + 1).drop_last() =~= names.take(i as int));
            assert(names.take(i + 1).last() == names[i as int]);
        }
        match evaluate_symbol(
            universe.symbols[i].as_str(),
            histories,
            &universe.quote_volumes,
            config,
            validated,
            calc,
        ) {
            Some(candidate) => {
                candidates.push(candidate);
                assert(ordering::views(candidates@) =~= before.push(candidate@));
            },
            None => {},
        }
        i += 1;
    }
    assert(names.take(i as int) =~= names);
    candidates
}

/// Whether two lists name the same markets in the same order.
pub fn same_symbols(left: &Vec<String>, right: &Vec<String>) -> (result: bool)
    ensures
        result == (ordering::views(left@) == ordering::views(right@)),
{
    let ghost a = ordering::views(left@);
    let ghost b = ordering::views(right@);
    assert(a.len() == left@.len() && b.len() == right@.len());
    if left.len() != right.len() {
        return false;
    }
    let mut i: usize = 0;
    while i < left.len()
        invariant
            i <= left@.len(),
            left@.len() == right@.len(),
            a == ordering::views(left@),
            b == ordering::views(right@),
            forall|k: int| 0 <= k < i ==> a[k] == b[k],
        decreases left@.len() - i,
    {
        assert(a[i as int] == left@[i as int]@ && b[i as int] == right@[i as int]@);
        if !same_text(left[i].as_str(), right[i].as_str()) {
            return false;
        }
        i += 1;
    }
    assert(a =~= b);
    true
}

/// The names of one list that the other one does not have, in their order.
pub open spec fn names_missing(names: Seq<Seq<char>>, others: Seq<Seq<char>>) -> Seq<Seq<char>> {
    names.filter(|name: Seq<char>| !others.contains(name))
}

/// The names of one list that the other one does not have, in their order.
fn find_missing(names: &Vec<String>, others: &Vec<String>) -> (result: Vec<String>)
    ensures
        ordering::views(result@) == names_missing(ordering::views(names@), ordering::views(others@)),
{
    let ghost all = ordering::views(names@);
    let ghost known = ordering::views(others@);
    let mut missing: Vec<String> = Vec::new();
    let mut i: usize = 0;
    assert(all.take(0) =~= Seq::<Seq<char>>::empty());
    assert(ordering::views(missing@) =~= names_missing(all.take(0), known));
    while i < names.len()
        invariant
            i <= names@.len(),
            all == ordering::views(names@),
            known == ordering::views(others@),
            ordering::views(missing@) == names_missing(all.take(i as int), known),
        decreases names@.len() - i,
    {
        let ghost before = ordering::views(missing@);
        proof {
            broadcast use vstd::seq::Seq::lemma_filter_push;

            assert(all.take(i + 1) =~= all.take(i as int).push(all[i as int]));
            lemma_names_key(others@, names@[i as int]@);
        }
        if !lists_key(others, names[i].as_str()) {
            missing.push(names[i].clone());
            assert(ordering::views(missing@) =~= before.push(all[i as int]));
        }
        i += 1;
    }
    assert(all.take(i as int) =~= all);
    missing
}

/// A list names a key if its views hold it.
proof fn lemma_names_key(names: Seq<String>, name: Seq<char>)
    ensures
        text_map::names_key(names, name) == ordering::views(names).contains(name),
{
    let all = ordering::views(names);
    if all.contains(name) {
        let i = choose|i: int| 0 <= i < all.len() && all[i] == name;
        assert(names[i]@ == name);
    }
    if text_map::names_key(names, name) {
        let i = choose|i: int| 0 <= i < names.len() && (#[trigger] names[i])@ == name;
        assert(all[i] == name);
    }
}

/// How a universe differs from the one before it.
#[derive(PartialEq, Eq, Debug)]
pub struct UniverseChange {
    /// The markets that are new, in order.
    pub added: Vec<String>,
    /// How many markets are no longer tracked.
    pub removed_count: usize,
}

/// Compares a universe with the one before it; there is no change where both list the
/// same markets.
pub fn universe_change(previous: &Vec<String>, updated: &Vec<String>) -> (result: Option<
    UniverseChange,
>)
    ensures
        match result {
            None => ordering::views(previous@) == ordering::views(updated@),
            Some(change) => {
                &&& ordering::views(previous@) != ordering::views(updated@)
                &&& ordering::views(change.added@) == names_missing(
                    ordering::views(updated@),
                    ordering::views(previous@),
                )
                &&& change.removed_count == names_missing(
                    ordering::views(previous@),
                    ordering::views(updated@),
                ).len()
            },
        },
{
    if same_symbols(previous, updated) {
        return None;
    }
    let added = find_missing(updated, previous);
    let removed = find_missing(previous, updated);
    assert(ordering::views(removed@).len() == removed@.len());
    Some(UniverseChange { added, removed_count: removed.len() })
}

/// Where every market tracked so far has a history, each market of the updated universe
/// either keeps its history or is among those added, and no history is kept of another
/// market.
pub proof fn law_every_market_keeps_or_gets_a_history<V>(
    histories: Map<Seq<char>, V>,
    previous: Seq<Seq<char>>,
    updated: Seq<String>,
    symbol: Seq<char>,
)
    requires
        forall|i: int| 0 <= i < previous.len() ==> histories.contains_key(#[trigger] previous[i]),
    ensures
        ordering::views(updated).contains(symbol) ==> histories.restrict(
            text_map::keys_named(updated),
        ).contains_key(symbol) || names_missing(ordering::views(updated), previous).contains(
            symbol,
        ),
        histories.restrict(text_map::keys_named(updated)).contains_key(symbol)
            ==> ordering::views(updated).contains(symbol),
{
    let names = ordering::views(updated);
    lemma_names_key(updated, symbol);
    if names.contains(symbol) {
        if previous.contains(symbol) {
            let i = choose|i: int| 0 <= i < previous.len() && previous[i] == symbol;
            assert(histories.contains_key(previous[i]));
        } else {
            let i = choose|i: int| 0 <= i < names.len() && names[i] == symbol;
            names.lemma_filter_contains(|name: Seq<char>| !previous.contains(name), i);
        }
    }
}

/// Whether two configurations differ in what the search for candidates depends on.
pub open spec fn analysis_differs(left: ConfigView, right: ConfigView) -> bool {
    ||| left.rolling_window != right.rolling_window
    ||| left.candle_interval != right.candle_interval
    ||| !left.sideways_band_pct.equals(right.sideways_band_pct)
    ||| !left.min_sideways_closes_pct.equals(right.min_sideways_closes_pct)
    ||| !left.positive_spike_pct.equals(right.positive_spike_pct)
    ||| left.post_spike_quiet_period != right.post_spike_quiet_period
    ||| !left.min_quote_volume_24h.equals(right.min_quote_volume_24h)
    ||| !left.max_quote_volume_24h.equals(right.max_quote_volume_24h)
    ||| left.symbol_refresh_secs != right.symbol_refresh_secs
}

/// Whether two configurations differ in what the search for candidates depends on.
pub fn analysis_config_changed(left: &Config, right: &Config) -> (result: bool)
    ensures
        result == analysis_differs(left@, right@),
{
    !same_text(left.rolling_window.as_str(), right.rolling_window.as_str()) || !same_text(
        left.candle_interval.as_str(),
        right.candle_interval.as_str(),
    ) || !left.sideways_band_pct.is_equal(right.sideways_band_pct)
        || !left.min_sideways_closes_pct.is_equal(right.min_sideways_closes_pct)
        || !left.positive_spike_pct.is_equal(right.positive_spike_pct) || !same_text(
        left.post_spike_quiet_period.as_str(),
        right.post_spike_quiet_period.as_str(),
    ) || !left.min_quote_volume_24h.is_equal(right.min_quote_volume_24h)
        || !left.max_quote_volume_24h.is_equal(right.max_quote_volume_24h)
        || left.symbol_refresh_secs != right.symbol_refresh_secs
}

/// Settings that the search for candidates does not depend on may change without it
/// being begun anew: the credentials and the healthcheck URL.
pub proof fn law_credentials_do_not_restart_analysis(config: ConfigView, updated: ConfigView)
    requires
        !config.sideways_band_pct.nan(),
        !config.min_sideways_closes_pct.nan(),
        !config.positive_spike_pct.nan(),
        !config.min_quote_volume_24h.nan(),
        !config.max_quote_volume_24h.nan(),
        updated == (ConfigView {
            telegram_token: updated.telegram_token,
            telegram_chat_id: updated.telegram_chat_id,
            healthcheck_url: updated.healthcheck_url,
            ..config
        }),
    ensures
        !analysis_differs(config, updated),
{
}

} // verus!
