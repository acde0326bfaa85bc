//! Detection of markets that move sideways after an upward spike.

use crate::number;
use crate::number::{
    compute, Number, Operation, EPSILON_BITS, HUNDRED_BITS, ONE_BITS, TWO_BITS,
};
use crate::ordering;
use crate::ordering::{sorted, Ordered};
use crate::text::same_text;
use vstd::prelude::*;

verus! {

/// One closed interval of trading.
#[derive(Clone, Copy, Debug)]
pub struct Candle {
    pub open_time_ms: i64,
    pub close_time_ms: i64,
    pub open: Number,
    pub high: Number,
    pub low: Number,
    pub close: Number,
    pub quote_volume: Number,
}

impl PartialEq for Candle {
    fn eq(&self, other: &Self) -> (result: bool) {
        self.open_time_ms == other.open_time_ms && self.close_time_ms == other.close_time_ms
            && self.open.is_equal(other.open) && self.high.is_equal(other.high)
            && self.low.is_equal(other.low) && self.close.is_equal(other.close)
            && self.quote_volume.is_equal(other.quote_volume)
    }
}

/// `==` compares field by field, prices and volume by numeric equality.
impl vstd::std_specs::cmp::PartialEqSpecImpl for Candle {
    open spec fn obeys_eq_spec() -> bool {
        true
    }

    open spec fn eq_spec(&self, other: &Self) -> bool {
        &&& self.open_time_ms == other.open_time_ms
        &&& self.close_time_ms == other.close_time_ms
        &&& self.open.equals(other.open)
        &&& self.high.equals(other.high)
        &&& self.low.equals(other.low)
        &&& self.close.equals(other.close)
        &&& self.quote_volume.equals(other.quote_volume)
    }
}

/// A market that moves sideways after a spike, with the figures behind it.
#[derive(Debug)]
pub struct CandidateResult {
    pub symbol: String,
    pub median_price: Number,
    pub band_lower: Number,
    pub band_upper: Number,
    pub sideways_close_ratio: Number,
    pub latest_close: Number,
    pub latest_spike_time_ms: i64,
    pub latest_spike_high: Number,
    pub latest_spike_pct: Number,
    pub largest_spike_time_ms: i64,
    pub largest_spike_pct: Number,
    pub quiet_period_ms: i64,
    pub quote_volume_24h: Number,
}

/// The contents of a [`CandidateResult`].
pub struct CandidateView {
    pub symbol: Seq<char>,
    pub median_price: Number,
    pub band_lower: Number,
    pub band_upper: Number,
    pub sideways_close_ratio: Number,
    pub latest_close: Number,
    pub latest_spike_time_ms: i64,
    pub latest_spike_high: Number,
    pub latest_spike_pct: Number,
    pub largest_spike_time_ms: i64,
    pub largest_spike_pct: Number,
    pub quiet_period_ms: i64,
    pub quote_volume_24h: Number,
}

impl View for CandidateResult {
    type V = CandidateView;

    open spec fn view(&self) -> CandidateView {
        CandidateView {
            symbol: self.symbol@,
            median_price: self.median_price,
            band_lower: self.band_lower,
            band_upper: self.band_upper,
            sideways_close_ratio: self.sideways_close_ratio,
            latest_close: self.latest_close,
            latest_spike_time_ms: self.latest_spike_time_ms,
            latest_spike_high: self.latest_spike_high,
            latest_spike_pct: self.latest_spike_pct,
            largest_spike_time_ms: self.largest_spike_time_ms,
            largest_spike_pct: self.largest_spike_pct,
            quiet_period_ms: self.quiet_period_ms,
            quote_volume_24h: self.quote_volume_24h,
        }
    }
}

impl PartialEq for CandidateResult {
    fn eq(&self, other: &Self) -> (result: bool) {
        same_text(self.symbol.as_str(), other.symbol.as_str())
            && self.median_price.is_equal(other.median_price)
            && self.band_lower.is_equal(other.band_lower)
            && self.band_upper.is_equal(other.band_upper)
            && self.sideways_close_ratio.is_equal(other.sideways_close_ratio)
            && self.latest_close.is_equal(other.latest_close)
            && self.latest_spike_time_ms == other.latest_spike_time_ms
            && self.latest_spike_high.is_equal(other.latest_spike_high)
            && self.latest_spike_pct.is_equal(other.latest_spike_pct)
            && self.largest_spike_time_ms == other.largest_spike_time_ms
            && self.largest_spike_pct.is_equal(other.largest_spike_pct)
            && self.quiet_period_ms == other.quiet_period_ms
            && self.quote_volume_24h.is_equal(other.quote_volume_24h)
    }
}

/// `==` compares field by field, figures by numeric equality.
impl vstd::std_specs::cmp::PartialEqSpecImpl for CandidateResult {
    open spec fn obeys_eq_spec() -> bool {
        true
    }

    open spec fn eq_spec(&self, other: &Self) -> bool {
        &&& self@.symbol == other@.symbol
        &&& self.median_price.equals(other.median_price)
        &&& self.band_lower.equals(other.band_lower)
        &&& self.band_upper.equals(other.band_upper)
        &&& self.sideways_close_ratio.equals(other.sideways_close_ratio)
        &&& self.latest_close.equals(other.latest_close)
        &&& self.latest_spike_time_ms == other.latest_spike_time_ms
        &&& self.latest_spike_high.equals(other.latest_spike_high)
        &&& self.latest_spike_pct.equals(other.latest_spike_pct)
        &&& self.largest_spike_time_ms == other.largest_spike_time_ms
        &&& self.largest_spike_pct.equals(other.largest_spike_pct)
        &&& self.quiet_period_ms == other.quiet_period_ms
        &&& self.quote_volume_24h.equals(other.quote_volume_24h)
    }
}

impl Clone for CandidateResult {
    fn clone(&self) -> (result: Self)
        ensures
            result == *self,
    {
        CandidateResult {
            symbol: self.symbol.clone(),
            median_price: self.median_price,
            band_lower: self.band_lower,
            band_upper: self.band_upper,
            sideways_close_ratio: self.sideways_close_ratio,
            latest_close: self.latest_close,
            latest_spike_time_ms: self.latest_spike_time_ms,
            latest_spike_high: self.latest_spike_high,
            latest_spike_pct: self.latest_spike_pct,
            largest_spike_time_ms: self.largest_spike_time_ms,
            largest_spike_pct: self.largest_spike_pct,
            quiet_period_ms: self.quiet_period_ms,
            quote_volume_24h: self.quote_volume_24h,
        }
    }
}

/// What counts as sideways, as a spike and as quiet.
#[derive(Clone, Copy, Debug)]
pub struct DetectorSettings {
    pub window_candles: usize,
    pub interval_ms: i64,
    pub sideways_band_pct: Number,
    pub min_sideways_closes_pct: Number,
    pub positive_spike_pct: Number,
    pub quiet_period_ms: i64,
}

/// The prices against which the candles of a window are held.
#[derive(Clone, Copy, PartialEq, Debug)]
pub struct PriceLevels {
    pub median_price: Number,
    pub band_lower: Number,
    pub band_upper: Number,
    pub spike_level: Number,
}

/// Whether a price is a finite number above zero.
pub open spec fn is_price(value: Number) -> bool {
    value.finite() && number::pattern(0).below(value)
}

/// Whether the times and prices of a candle are consistent.
pub open spec fn consistent(candle: Candle) -> bool {
    &&& 0 <= candle.open_time_ms < candle.close_time_ms
    &&& is_price(candle.open)
    &&& is_price(candle.high)
    &&& is_price(candle.low)
    &&& is_price(candle.close)
    &&& candle.open.at_most(candle.high)
    &&& candle.close.at_most(candle.high)
    &&& candle.low.at_most(candle.open)
    &&& candle.low.at_most(candle.close)
    &&& candle.low.at_most(candle.high)
}

/// Whether every candle opens one interval after the one before it.
pub open spec fn gapless(window: Seq<Candle>, interval_ms: int) -> bool {
    forall|i: int, j: int|
        0 <= i && j == i + 1 && j < window.len() ==> (#[trigger] window[j]).open_time_ms - (
        #[trigger] window[i]).open_time_ms == interval_ms && window[j].open_time_ms
            > window[i].open_time_ms
}

/// Whether a window holds consistent candles without a gap.
pub open spec fn complete_window(window: Seq<Candle>, interval_ms: int) -> bool {
    &&& forall|i: int| 0 <= i < window.len() ==> consistent(#[trigger] window[i])
    &&& gapless(window, interval_ms)
}

/// The latest `size` candles.
pub open spec fn latest_candles(candles: Seq<Candle>, size: int) -> Seq<Candle> {
    candles.skip(candles.len() - size)
}

/// The closing prices of a window in ascending order.
pub open spec fn sorted_closes(window: Seq<Candle>) -> Seq<Number> {
    window.map_values(|candle: Candle| candle.close).sort_by(ordering::order::<Number>())
}

/// The middle of an ascending sequence, or half the sum of the two middle ones.
pub open spec fn median_of(calc: spec_fn(Operation) -> Number, ascending: Seq<Number>) -> Number {
    let middle = ascending.len() as int / 2;
    if ascending.len() % 2 == 0 {
        calc(
            Operation::Quotient(
                calc(Operation::Sum(ascending[middle - 1], ascending[middle])),
                number::pattern(TWO_BITS),
            ),
        )
    } else {
        ascending[middle]
    }
}

/// A percentage as a fraction.
pub open spec fn fraction(calc: spec_fn(Operation) -> Number, pct: Number) -> Number {
    calc(Operation::Quotient(pct, number::pattern(HUNDRED_BITS)))
}

/// `base` raised by a percentage.
pub open spec fn raised(calc: spec_fn(Operation) -> Number, base: Number, pct: Number) -> Number {
    calc(
        Operation::Product(
            base,
            calc(Operation::Sum(number::pattern(ONE_BITS), fraction(calc, pct))),
        ),
    )
}

/// `base` lowered by a percentage.
pub open spec fn lowered(calc: spec_fn(Operation) -> Number, base: Number, pct: Number) -> Number {
    calc(
        Operation::Product(
            base,
            calc(Operation::Difference(number::pattern(ONE_BITS), fraction(calc, pct))),
        ),
    )
}

/// By how many percent `value` lies above `baseline`.
pub open spec fn percent_above(
    calc: spec_fn(Operation) -> Number,
    value: Number,
    baseline: Number,
) -> Number {
    calc(
        Operation::Product(
            calc(
                Operation::Difference(
                    calc(Operation::Quotient(value, baseline)),
                    number::pattern(ONE_BITS),
                ),
            ),
            number::pattern(HUNDRED_BITS),
        ),
    )
}

/// The price levels of a window: its median close, the band around it and the
/// level that a spike reaches.
pub open spec fn levels_of(
    calc: spec_fn(Operation) -> Number,
    window: Seq<Candle>,
    settings: DetectorSettings,
) -> PriceLevels {
    let median = median_of(calc, sorted_closes(window));
    PriceLevels {
        median_price: median,
        band_lower: lowered(calc, median, settings.sideways_band_pct),
        band_upper: raised(calc, median, settings.sideways_band_pct),
        spike_level: raised(calc, median, settings.positive_spike_pct),
    }
}

/// Whether a candle closes inside the band, its edges included.
pub open spec fn closes_in_band(candle: Candle, levels: PriceLevels) -> bool {
    levels.band_lower.at_most(candle.close) && candle.close.at_most(levels.band_upper)
}

/// Whether a candle closes outside the band.
pub open spec fn closes_off_band(candle: Candle, levels: PriceLevels) -> bool {
    candle.close.below(levels.band_lower) || levels.band_upper.below(candle.close)
}

/// The candles of a window that close inside the band.
pub open spec fn in_band(window: Seq<Candle>, levels: PriceLevels) -> Seq<Candle> {
    window.filter(|candle: Candle| closes_in_band(candle, levels))
}

/// Whether the high of a candle reaches the spike level.
pub open spec fn is_spike(candle: Candle, levels: PriceLevels) -> bool {
    candle.high.finite() && levels.spike_level.at_most(candle.high)
}

/// The candles of a window that reach the spike level.
pub open spec fn spikes_in(window: Seq<Candle>, levels: PriceLevels) -> Seq<Candle> {
    window.filter(|candle: Candle| is_spike(candle, levels))
}

/// Of a non-empty sequence of candles, the last one with the largest high.
pub open spec fn largest_high(candles: Seq<Candle>) -> Candle
    decreases candles.len(),
{
    if candles.len() <= 1 {
        candles[0]
    } else {
        let best = largest_high(candles.drop_last());
        if best.high.total_rank() <= candles.last().high.total_rank() {
            candles.last()
        } else {
            best
        }
    }
}

/// `part` of `whole` in percent.
pub open spec fn percentage(calc: spec_fn(Operation) -> Number, part: usize, whole: usize) -> Number {
    calc(
        Operation::Product(
            calc(
                Operation::Quotient(calc(Operation::Count(part)), calc(Operation::Count(whole))),
            ),
            number::pattern(HUNDRED_BITS),
        ),
    )
}

/// Whether too few candles close inside the band, with a tolerance of the machine
/// precision.
pub open spec fn too_few_in_band(
    calc: spec_fn(Operation) -> Number,
    ratio: Number,
    settings: DetectorSettings,
) -> bool {
    calc(Operation::Sum(ratio, number::pattern(EPSILON_BITS))).below(settings.min_sideways_closes_pct)
}

/// Whether a candle that closes in the last `quiet_period_ms` closes off the band.
pub open spec fn disturbed(window: Seq<Candle>, levels: PriceLevels, quiet_period_ms: int) -> bool {
    exists|i: int|
        0 <= i < window.len() && (#[trigger] window[i]).close_time_ms > window.last().close_time_ms
            - quiet_period_ms && closes_off_band(window[i], levels)
}

/// The candidate that a complete window makes for given price levels, if any.
pub open spec fn judged(
    calc: spec_fn(Operation) -> Number,
    symbol: Seq<char>,
    window: Seq<Candle>,
    settings: DetectorSettings,
    levels: PriceLevels,
    quote_volume_24h: Number,
) -> Option<CandidateView> {
    let ratio = percentage(calc, in_band(window, levels).len() as usize, window.len() as usize);
    let spikes = spikes_in(window, levels);
    let quiet_period_ms = window.last().close_time_ms - spikes.last().close_time_ms;
    if too_few_in_band(calc, ratio, settings) || spikes.len() == 0 || quiet_period_ms
        < settings.quiet_period_ms || disturbed(window, levels, settings.quiet_period_ms as int) {
        None
    } else {
        Some(
            CandidateView {
                symbol,
                median_price: levels.median_price,
                band_lower: levels.band_lower,
                band_upper: levels.band_upper,
                sideways_close_ratio: ratio,
                latest_close: window.last().close,
                latest_spike_time_ms: spikes.last().open_time_ms,
                latest_spike_high: spikes.last().high,
                latest_spike_pct: percent_above(calc, spikes.last().high, levels.median_price),
                largest_spike_time_ms: largest_high(spikes).open_time_ms,
                largest_spike_pct: percent_above(
                    calc,
                    largest_high(spikes).high,
                    levels.median_price,
                ),
                quiet_period_ms: quiet_period_ms as i64,
                quote_volume_24h,
            },
        )
    }
}

/// The candidate that the latest candles of a market make, if any.
pub open spec fn detection(
    calc: spec_fn(Operation) -> Number,
    symbol: Seq<char>,
    candles: Seq<Candle>,
    settings: DetectorSettings,
    quote_volume_24h: Number,
) -> Option<CandidateView> {
    let window = latest_candles(candles, settings.window_candles as int);
    if candles.len() < settings.window_candles || !complete_window(
        window,
        settings.interval_ms as int,
    ) {
        None
    } else {
        judged(
            calc,
            symbol,
            window,
            settings,
            levels_of(calc, window, settings),
            quote_volume_24h,
        )
    }
}

/// Whether a price is a finite number above zero.
fn check_price(value: Number) -> (result: bool)
    ensures
        result == is_price(value),
{
    value.is_finite() && Number::from_bits(0).is_below(value)
}

/// Whether the times and prices of a candle are consistent.
fn check_candle(candle: &Candle) -> (result: bool)
    ensures
        result == consistent(*candle),
{
    candle.open_time_ms >= 0 && candle.close_time_ms > candle.open_time_ms && check_price(
        candle.open,
    ) && check_price(candle.high) && check_price(candle.low) && check_price(candle.close)
        && candle.open.is_at_most(candle.high) && candle.close.is_at_most(candle.high)
        && candle.low.is_at_most(candle.open) && candle.low.is_at_most(candle.close)
        && candle.low.is_at_most(candle.high)
}

/// Whether a window holds consistent candles, each one interval after the one
/// before it.
pub fn valid_complete_window(candles: &[Candle], interval_ms: i64) -> (result: bool)
    ensures
        result == complete_window(candles@, interval_ms as int),
{
    let mut i: usize = 0;
    while i < candles.len()
        invariant
            i <= candles.len(),
            forall|k: int| 0 <= k < i ==> consistent(#[trigger] candles@[k]),
        decreases candles.len() - i,
    {
        if !check_candle(&candles[i]) {
            assert(!consistent(candles@[i as int]));
            return false;
        }
        i += 1;
    }
    let mut j: usize = 1;
    while j < candles.len()
        invariant
            1 <= j,
            j <= candles.len() || candles.len() == 0,
            forall|k: int| 0 <= k < candles.len() ==> consistent(#[trigger] candles@[k]),
            forall|k: int, l: int|
                0 <= k && l == k + 1 && l < j && l < candles.len() ==> (#[trigger] candles@[l]).open_time_ms - (
                #[trigger] candles@[k]).open_time_ms == interval_ms && candles@[l].open_time_ms
                    > candles@[k].open_time_ms,
        decreases candles.len() - j,
    {
        let earlier = candles[j - 1].open_time_ms;
        let later = candles[j].open_time_ms;
        assert(consistent(candles@[j - 1]) && consistent(candles@[j as int]));
        if later - earlier != interval_ms || later <= earlier {
            assert(!gapless(candles@, interval_ms as int));
            return false;
        }
        j += 1;
    }
    true
}

/// The middle of an ascending sequence, or half the sum of the two middle ones.
pub fn median<C: Fn(Operation) -> Number>(ascending: &Vec<Number>, calc: &C) -> (result: Number)
    requires
        number::calculates(*calc),
        ascending@.len() > 0,
    ensures
        result == median_of(number::answers(*calc), ascending@),
{
    let middle: usize = ascending.len() / 2;
    if ascending.len() % 2 == 0 {
        let total = compute(calc, Operation::Sum(ascending[middle - 1], ascending[middle]));
        compute(calc, Operation::Quotient(total, Number::from_bits(TWO_BITS)))
    } else {
        ascending[middle]
    }
}

/// By how many percent `value` lies above `baseline`.
pub fn percentage_above<C: Fn(Operation) -> Number>(
    value: Number,
    baseline: Number,
    calc: &C,
) -> (result: Number)
    requires
        number::calculates(*calc),
    ensures
        result == percent_above(number::answers(*calc), value, baseline),
{
    let one = Number::from_bits(ONE_BITS);
    let hundred = Number::from_bits(HUNDRED_BITS);
    let quotient = compute(calc, Operation::Quotient(value, baseline));
    let excess = compute(calc, Operation::Difference(quotient, one));
    compute(calc, Operation::Product(excess, hundred))
}

/// The price levels of a window.
pub fn price_levels<C: Fn(Operation) -> Number>(
    window: &[Candle],
    settings: DetectorSettings,
    calc: &C,
) -> (result: PriceLevels)
    requires
        number::calculates(*calc),
        window@.len() > 0,
    ensures
        result == levels_of(number::answers(*calc), window@, settings),
{
    let mut closes: Vec<Number> = Vec::new();
    let mut i: usize = 0;
    while i < window.len()
        invariant
            i <= window.len(),
            closes@.len() == i,
            forall|k: int| 0 <= k < i ==> closes@[k] == (#[trigger] window@[k]).close,
        decreases window.len() - i,
    {
        closes.push(window[i].close);
        i += 1;
    }
    let ascending = sorted(closes);
    proof {
        assert(ordering::views(closes@) =~= window@.map_values(|candle: Candle| candle.close));
        assert(ordering::views(ascending@) =~= ascending@);
        Number::order_is_total();
        let all = window@.map_values(|candle: Candle| candle.close);
        all.lemma_sort_by_ensures(ordering::order::<Number>());
        vstd::seq_lib::to_multiset_len(all);
        vstd::seq_lib::to_multiset_len(ascending@);
    }
    let one = Number::from_bits(ONE_BITS);
    let hundred = Number::from_bits(HUNDRED_BITS);
    let median_price = median(&ascending, calc);
    let band_fraction = compute(calc, Operation::Quotient(settings.sideways_band_pct, hundred));
    let lower_factor = compute(calc, Operation::Difference(one, band_fraction));
    let upper_factor = compute(calc, Operation::Sum(one, band_fraction));
    let spike_fraction = compute(calc, Operation::Quotient(settings.positive_spike_pct, hundred));
    let spike_factor = compute(calc, Operation::Sum(one, spike_fraction));
    PriceLevels {
        median_price,
        band_lower: compute(calc, Operation::Product(median_price, lower_factor)),
        band_upper: compute(calc, Operation::Product(median_price, upper_factor)),
        spike_level: compute(calc, Operation::Product(median_price, spike_factor)),
    }
}

/// How many candles close inside the band.
pub fn count_in_band(window: &[Candle], levels: PriceLevels) -> (result: usize)
    ensures
        result == in_band(window@, levels).len(),
{
    let mut count: usize = 0;
    let mut i: usize = 0;
    assert(window@.take(0) =~= Seq::<Candle>::empty());
    while i < window.len()
        invariant
            i <= window.len(),
            count <= i,
            count == in_band(window@.take(i as int), levels).len(),
        decreases window.len() - i,
    {
        let close = window[i].close;
        proof {
            broadcast use vstd::seq::Seq::lemma_filter_push;

            assert(window@.take(i + 1) =~= window@.take(i as int).push(window@[i as int]));
        }
        if levels.band_lower.is_at_most(close) && close.is_at_most(levels.band_upper) {
            count += 1;
        }
        i += 1;
    }
    assert(window@.take(i as int) =~= window@);
    count
}

/// The candles that reach the spike level.
pub fn find_spikes(window: &[Candle], levels: PriceLevels) -> (result: Vec<Candle>)
    ensures
        result@ == spikes_in(window@, levels),
{
    let mut spikes: Vec<Candle> = Vec::new();
    let mut i: usize = 0;
    assert(window@.take(0) =~= Seq::<Candle>::empty());
    while i < window.len()
        invariant
            i <= window.len(),
            spikes@ == spikes_in(window@.take(i as int), levels),
        decreases window.len() - i,
    {
        let candle = window[i];
        proof {
            broadcast use vstd::seq::Seq::lemma_filter_push;

            assert(window@.take(i + 1) =~= window@.take(i as int).push(window@[i as int]));
        }
        if candle.high.is_finite() && levels.spike_level.is_at_most(candle.high) {
            spikes.push(candle);
        }
        i += 1;
    }
    assert(window@.take(i as int) =~= window@);
    spikes
}

/// Of a non-empty vector of candles, the last one with the largest high.
fn largest(candles: &Vec<Candle>) -> (result: Candle)
    requires
        candles@.len() > 0,
    ensures
        result == largest_high(candles@),
{
    let mut best = candles[0];
    let mut i: usize = 1;
    while i < candles.len()
        invariant
            1 <= i <= candles.len(),
            best == largest_high(candles@.take(i as int)),
        decreases candles.len() - i,
    {
        assert(candles@.take(i + 1).drop_last() =~= candles@.take(i as int));
        if best.high.is_ordered_before(candles[i].high) {
            best = candles[i];
        }
        i += 1;
    }
    assert(candles@.take(i as int) =~= candles@);
    best
}

/// Whether a candle that closes in the last `quiet_period_ms` closes off the band.
fn is_disturbed(window: &[Candle], levels: PriceLevels, quiet_start_ms: i128) -> (result: bool)
    requires
        window@.len() > 0,
    ensures
        result == disturbed(window@, levels, window@.last().close_time_ms - quiet_start_ms),
{
    let mut i: usize = 0;
    while i < window.len()
        invariant
            i <= window.len(),
            forall|k: int|
                0 <= k < i ==> !((#[trigger] window@[k]).close_time_ms > quiet_start_ms
                    && closes_off_band(window@[k], levels)),
        decreases window.len() - i,
    {
        let close = window[i].close;
        if window[i].close_time_ms as i128 > quiet_start_ms && (close.is_below(levels.band_lower)
            || levels.band_upper.is_below(close)) {
            assert(closes_off_band(window@[i as int], levels));
            return true;
        }
        i += 1;
    }
    false
}

/// Looks for a candidate in the latest candles of a market: enough of them close
/// inside the band around their median close, one of them has spiked above it, and
/// since the latest spike the market has been quiet for long enough.
pub fn detect_candidate<C: Fn(Operation) -> Number>(
    symbol: &str,
    candles: &[Candle],
    settings: DetectorSettings,
    quote_volume_24h: Number,
    calc: &C,
) -> (result: Option<CandidateResult>)
    requires
        number::calculates(*calc),
        settings.window_candles > 0,
    ensures
        match result {
            Some(candidate) => detection(
                number::answers(*calc),
                symbol@,
                candles@,
                settings,
                quote_volume_24h,
            ) == Some(candidate@),
            None => detection(number::answers(*calc), symbol@, candles@, settings, quote_volume_24h)
                is None,
        },
{
    if candles.len() < settings.window_candles {
        return None;
    }
    let (_, window) = candles.split_at(candles.len() - settings.window_candles);
    assert(window@ =~= latest_candles(candles@, settings.window_candles as int));
    if !valid_complete_window(window, settings.interval_ms) {
        return None;
    }
    let levels = price_levels(window, settings, calc);
    let hundred = Number::from_bits(HUNDRED_BITS);
    let part = compute(calc, Operation::Count(count_in_band(window, levels)));
    let whole = compute(calc, Operation::Count(window.len()));
    let share = compute(calc, Operation::Quotient(part, whole));
    let sideways_close_ratio = compute(calc, Operation::Product(share, hundred));
    let tolerated = compute(
        calc,
        Operation::Sum(sideways_close_ratio, Number::from_bits(EPSILON_BITS)),
    );
    if tolerated.is_below(settings.min_sideways_closes_pct) {
        return None;
    }
    let spikes = find_spikes(window, levels);
    if spikes.len() == 0 {
        return None;
    }
    proof {
        assert(spikes@.contains(spikes@.last()));
        window@.lemma_filter_contains_rev(
            |candle: Candle| is_spike(candle, levels),
            spikes@.last(),
        );
    }
    let latest_spike = spikes[spikes.len() - 1];
    let largest_spike = largest(&spikes);
    let latest = window[window.len() - 1];
    assert(consistent(latest) && consistent(latest_spike));
    let quiet_period_ms = latest.close_time_ms - latest_spike.close_time_ms;
    if quiet_period_ms < settings.quiet_period_ms {
        return None;
    }
    let quiet_start_ms: i128 = latest.close_time_ms as i128 - settings.quiet_period_ms as i128;
    if is_disturbed(window, levels, quiet_start_ms) {
        return None;
    }
    Some(
        CandidateResult {
            symbol: symbol.to_owned(),
            median_price: levels.median_price,
            band_lower: levels.band_lower,
            band_upper: levels.band_upper,
            sideways_close_ratio,
            latest_close: latest.close,
            latest_spike_time_ms: latest_spike.open_time_ms,
            latest_spike_high: latest_spike.high,
            latest_spike_pct: percentage_above(latest_spike.high, levels.median_price, calc),
            largest_spike_time_ms: largest_spike.open_time_ms,
            largest_spike_pct: percentage_above(largest_spike.high, levels.median_price, calc),
            quiet_period_ms,
            quote_volume_24h,
        },
    )
}

/// In a gapless window later candles open later.
proof fn lemma_gapless_ascends(window: Seq<Candle>, interval_ms: int, i: int, j: int)
    requires
        gapless(window, interval_ms),
        0 <= i < j < window.len(),
    ensures
        window[i].open_time_ms < window[j].open_time_ms,
    decreases j - i,
{
    assert(window[j].open_time_ms > window[j - 1].open_time_ms);
    if i < j - 1 {
        lemma_gapless_ascends(window, interval_ms, i, j - 1);
    }
}

/// The place in a window of its last spike: no later candle is one.
pub proof fn lemma_last_spike(window: Seq<Candle>, levels: PriceLevels) -> (place: int)
    requires
        spikes_in(window, levels).len() > 0,
    ensures
        0 <= place < window.len(),
        window[place] == spikes_in(window, levels).last(),
        is_spike(window[place], levels),
        forall|k: int| place < k < window.len() ==> !is_spike(#[trigger] window[k], levels),
    decreases window.len(),
{
    reveal(Seq::filter);
    let last = window.len() - 1;
    if window.len() == 0 {
        0
    } else if is_spike(window[last], levels) {
        last
    } else {
        let place = lemma_last_spike(window.drop_last(), levels);
        assert forall|k: int| place < k < window.len() implies !is_spike(
            #[trigger] window[k],
            levels,
        ) by {
            if k < last {
                assert(!is_spike(window.drop_last()[k], levels));
            }
        }
        place
    }
}

/// The largest high is that of one of the candles, and no candle has a larger one.
pub proof fn lemma_largest_high(candles: Seq<Candle>)
    requires
        candles.len() > 0,
    ensures
        candles.contains(largest_high(candles)),
        forall|i: int|
            0 <= i < candles.len() ==> (#[trigger] candles[i]).high.total_rank() <= largest_high(
                candles,
            ).high.total_rank(),
    decreases candles.len(),
{
    if candles.len() == 1 {
        assert(candles[0] == largest_high(candles));
    } else {
        let rest = candles.drop_last();
        lemma_largest_high(rest);
        let best = largest_high(rest);
        let place = choose|i: int| 0 <= i < rest.len() && rest[i] == best;
        assert(candles[place] == best);
        assert(candles[candles.len() - 1] == candles.last());
        assert forall|i: int| 0 <= i < candles.len() implies (#[trigger] candles[i]).high.total_rank()
            <= largest_high(candles).high.total_rank() by {
            if i < rest.len() {
                assert(rest[i].high.total_rank() <= best.high.total_rank());
            }
        }
    }
}

/// A candidate is what the settings ask for: the window is complete, enough candles close
/// inside the band, and since the latest spike it has been quiet for long enough, with no
/// close off the band in the quiet period.
pub proof fn law_candidate_meets_settings(
    calc: spec_fn(Operation) -> Number,
    symbol: Seq<char>,
    candles: Seq<Candle>,
    settings: DetectorSettings,
    quote_volume_24h: Number,
)
    requires
        detection(calc, symbol, candles, settings, quote_volume_24h) is Some,
    ensures
        ({
            let window = latest_candles(candles, settings.window_candles as int);
            let levels = levels_of(calc, window, settings);
            let candidate = detection(calc, symbol, candles, settings, quote_volume_24h)->0;
            &&& complete_window(window, settings.interval_ms as int)
            &&& !too_few_in_band(calc, candidate.sideways_close_ratio, settings)
            &&& candidate.quiet_period_ms >= settings.quiet_period_ms
            &&& forall|i: int|
                0 <= i < window.len() && (#[trigger] window[i]).close_time_ms
                    > window.last().close_time_ms - settings.quiet_period_ms ==> !closes_off_band(
                    window[i],
                    levels,
                )
        }),
{
    let window = latest_candles(candles, settings.window_candles as int);
    let levels = levels_of(calc, window, settings);
    let place = lemma_last_spike(window, levels);
    assert(consistent(window[place]));
    assert(window.last() == window[window.len() - 1]);
    assert(consistent(window[window.len() - 1]));
}

/// The latest spike of a candidate is a candle of the window that reaches the spike level,
/// and none that does opens later: a newer spike makes the quiet period begin anew.
pub proof fn law_latest_spike_is_latest(
    calc: spec_fn(Operation) -> Number,
    symbol: Seq<char>,
    candles: Seq<Candle>,
    settings: DetectorSettings,
    quote_volume_24h: Number,
)
    requires
        detection(calc, symbol, candles, settings, quote_volume_24h) is Some,
    ensures
        ({
            let window = latest_candles(candles, settings.window_candles as int);
            let levels = levels_of(calc, window, settings);
            let candidate = detection(calc, symbol, candles, settings, quote_volume_24h)->0;
            &&& exists|i: int|
                0 <= i < window.len() && (#[trigger] window[i]).open_time_ms
                    == candidate.latest_spike_time_ms && window[i].high
                    == candidate.latest_spike_high && is_spike(window[i], levels)
                    && candidate.quiet_period_ms == window.last().close_time_ms
                    - window[i].close_time_ms
            &&& forall|i: int|
                0 <= i < window.len() && is_spike(#[trigger] window[i], levels)
                    ==> window[i].open_time_ms <= candidate.latest_spike_time_ms
        }),
{
    let window = latest_candles(candles, settings.window_candles as int);
    let levels = levels_of(calc, window, settings);
    let candidate = detection(calc, symbol, candles, settings, quote_volume_24h)->0;
    let place = lemma_last_spike(window, levels);
    assert(window[place].open_time_ms == candidate.latest_spike_time_ms);
    assert(consistent(window[place]));
    assert(window.last() == window[window.len() - 1]);
    assert(consistent(window[window.len() - 1]));
    assert forall|i: int| 0 <= i < window.len() && is_spike(#[trigger] window[i], levels) implies window[i].open_time_ms
        <= candidate.latest_spike_time_ms by {
        if i < place {
            lemma_gapless_ascends(window, settings.interval_ms as int, i, place);
        }
    }
}

/// The largest spike of a candidate is a candle of the window that reaches the spike
/// level, and none that does is higher.
pub proof fn law_largest_spike_is_largest(
    calc: spec_fn(Operation) -> Number,
    symbol: Seq<char>,
    candles: Seq<Candle>,
    settings: DetectorSettings,
    quote_volume_24h: Number,
)
    requires
        detection(calc, symbol, candles, settings, quote_volume_24h) is Some,
    ensures
        ({
            let window = latest_candles(candles, settings.window_candles as int);
            let levels = levels_of(calc, window, settings);
            let candidate = detection(calc, symbol, candles, settings, quote_volume_24h)->0;
            exists|best: int|
                0 <= best < window.len() && (#[trigger] window[best]).open_time_ms
                    == candidate.largest_spike_time_ms && is_spike(window[best], levels)
                    && candidate.largest_spike_pct == percent_above(
                    calc,
                    window[best].high,
                    levels.median_price,
                ) && forall|i: int|
                    0 <= i < window.len() && is_spike(#[trigger] window[i], levels)
                        ==> window[i].high.at_most(window[best].high)
        }),
{
    let window = latest_candles(candles, settings.window_candles as int);
    let levels = levels_of(calc, window, settings);
    let spikes = spikes_in(window, levels);
    let reaches = |candle: Candle| is_spike(candle, levels);
    lemma_largest_high(spikes);
    let largest = largest_high(spikes);
    let k = choose|k: int| 0 <= k < spikes.len() && spikes[k] == largest;
    window.lemma_filter_pred(reaches, k);
    window.lemma_filter_contains_rev(reaches, largest);
    let best = choose|i: int| 0 <= i < window.len() && window[i] == largest;
    assert(consistent(window[best]));
    assert forall|i: int| 0 <= i < window.len() && is_spike(#[trigger] window[i], levels) implies window[i].high.at_most(
    window[best].high) by {
        window.lemma_filter_contains(reaches, i);
        let m = choose|m: int| 0 <= m < spikes.len() && spikes[m] == window[i];
        assert(spikes[m].high.total_rank() <= largest.high.total_rank());
        assert(consistent(window[i]));
    }
    assert(window[best].open_time_ms == largest.open_time_ms);
}

/// A window in which no candle reaches the spike level makes no candidate.
pub proof fn law_no_candidate_without_spike(
    calc: spec_fn(Operation) -> Number,
    symbol: Seq<char>,
    candles: Seq<Candle>,
    settings: DetectorSettings,
    quote_volume_24h: Number,
)
    requires
        ({
            let window = latest_candles(candles, settings.window_candles as int);
            let levels = levels_of(calc, window, settings);
            forall|i: int| 0 <= i < window.len() ==> !is_spike(#[trigger] window[i], levels)
        }),
    ensures
        detection(calc, symbol, candles, settings, quote_volume_24h) is None,
{
    let window = latest_candles(candles, settings.window_candles as int);
    let levels = levels_of(calc, window, settings);
    if spikes_in(window, levels).len() > 0 {
        let place = lemma_last_spike(window, levels);
        assert(!is_spike(window[place], levels));
    }
}

/// Candles before the window do not matter.
pub proof fn law_older_candles_do_not_matter(
    calc: spec_fn(Operation) -> Number,
    symbol: Seq<char>,
    older: Seq<Candle>,
    candles: Seq<Candle>,
    settings: DetectorSettings,
    quote_volume_24h: Number,
)
    requires
        candles.len() >= settings.window_candles,
    ensures
        detection(calc, symbol, older + candles, settings, quote_volume_24h) == detection(
            calc,
            symbol,
            candles,
            settings,
            quote_volume_24h,
        ),
{
    let size = settings.window_candles as int;
    assert(latest_candles(older + candles, size) =~= latest_candles(candles, size));
}

} // verus!
