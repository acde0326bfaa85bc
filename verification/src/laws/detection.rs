//! What makes a candidate, said of candles and settings.

use crate::detector;
use crate::detector::{
    count_in_band, detect_candidate, find_spikes, median, percentage_above, price_levels,
    valid_complete_window, CandidateResult, Candle, DetectorSettings, PriceLevels,
};
use crate::number;
use crate::number::{Number, Operation};
use crate::ordering;
use crate::ordering::{sorted, Ordered};
use vstd::prelude::*;

verus! {

/// How many numbers lie below a number.
pub open spec fn count_below(numbers: Seq<Number>, limit: Number) -> nat
    decreases numbers.len(),
{
    if numbers.len() == 0 {
        0
    } else if numbers.last().below(limit) {
        count_below(numbers.drop_last(), limit) + 1
    } else {
        count_below(numbers.drop_last(), limit)
    }
}

/// How many numbers lie above a number.
pub open spec fn count_above(numbers: Seq<Number>, limit: Number) -> nat
    decreases numbers.len(),
{
    if numbers.len() == 0 {
        0
    } else if limit.below(numbers.last()) {
        count_above(numbers.drop_last(), limit) + 1
    } else {
        count_above(numbers.drop_last(), limit)
    }
}

/// Whether half the sum of two of the numbers lies between them, as it does unless the sum
/// is too large.
pub open spec fn half_sums_lie_between(
    arithmetic: spec_fn(Operation) -> Number,
    numbers: Seq<Number>,
) -> bool {
    forall|i: int, j: int|
        0 <= i < numbers.len() && 0 <= j < numbers.len() && (#[trigger] numbers[i]).at_most(
            #[trigger] numbers[j],
        ) ==> {
            let half = arithmetic(
                Operation::Quotient(
                    arithmetic(Operation::Sum(numbers[i], numbers[j])),
                    number::pattern(0x4000_0000_0000_0000),
                ),
            );
            numbers[i].at_most(half) && half.at_most(numbers[j])
        }
}

/// Numbers of which none from a place on lies below a limit: no more lie below it than
/// stand before that place.
proof fn lemma_few_below(numbers: Seq<Number>, limit: Number, place: int)
    requires
        0 <= place <= numbers.len(),
        forall|i: int| place <= i < numbers.len() ==> !(#[trigger] numbers[i]).below(limit),
    ensures
        count_below(numbers, limit) <= place,
    decreases numbers.len(),
{
    if numbers.len() > 0 {
        let rest = numbers.drop_last();
        assert(numbers.last() == numbers[numbers.len() - 1]);
        if place == numbers.len() {
            lemma_few_below(rest, limit, place - 1);
        } else {
            lemma_few_below(rest, limit, place);
        }
    }
}

/// Numbers of which none up to a place lies above a limit: no more lie above it than stand
/// from that place on.
proof fn lemma_few_above(numbers: Seq<Number>, limit: Number, place: int)
    requires
        0 <= place <= numbers.len(),
        forall|i: int| 0 <= i < place ==> !limit.below(#[trigger] numbers[i]),
    ensures
        count_above(numbers, limit) <= numbers.len() - place,
    decreases numbers.len(),
{
    if numbers.len() > 0 {
        let rest = numbers.drop_last();
        assert(numbers.last() == numbers[numbers.len() - 1]);
        if place == numbers.len() {
            lemma_few_above(rest, limit, place - 1);
        } else {
            lemma_few_above(rest, limit, place);
        }
    }
}

/// The median parts ascending numbers: at most half of them lie below it and at most half
/// above it. It is the middle one of an odd count, and half the sum of the middle two of an
/// even one.
pub proof fn law_median_parts_numbers<C: Fn(Operation) -> Number>(
    ascending: Vec<Number>,
    calc: C,
    result: Number,
)
    requires
        number::calculates(calc),
        ascending@.len() > 0,
        forall|i: int, j: int|
            0 <= i <= j < ascending@.len() ==> (#[trigger] ascending@[i]).at_most(
                #[trigger] ascending@[j],
            ),
        half_sums_lie_between(number::answers(calc), ascending@),
        call_ensures(median::<C>, (&ascending, &calc), result),
    ensures
        2 * count_below(ascending@, result) <= ascending@.len(),
        2 * count_above(ascending@, result) <= ascending@.len(),
        forall|k: int|
            ascending@.len() == 2 * k + 1 ==> result == #[trigger] ascending@[k],
        forall|k: int|
            #![trigger ascending@[k]]
            ascending@.len() == 2 * k ==> result == number::answers(calc)(
                Operation::Quotient(
                    number::answers(calc)(Operation::Sum(ascending@[k - 1], ascending@[k])),
                    number::pattern(0x4000_0000_0000_0000),
                ),
            ),
{
    lemma_median(number::answers(calc), ascending@, result);
}

/// The middle of ascending numbers parts them.
proof fn lemma_median(
    arithmetic: spec_fn(Operation) -> Number,
    ascending: Seq<Number>,
    result: Number,
)
    requires
        ascending.len() > 0,
        forall|i: int, j: int|
            0 <= i <= j < ascending.len() ==> (#[trigger] ascending[i]).at_most(
                #[trigger] ascending[j],
            ),
        half_sums_lie_between(arithmetic, ascending),
        result == detector::median_of(arithmetic, ascending),
    ensures
        2 * count_below(ascending, result) <= ascending.len(),
        2 * count_above(ascending, result) <= ascending.len(),
{
    let middle = ascending.len() as int / 2;
    if ascending.len() % 2 == 0 {
        assert(ascending[middle - 1].at_most(ascending[middle]));
        assert(ascending[middle - 1].at_most(result) && result.at_most(ascending[middle]));
        assert forall|i: int| middle <= i < ascending.len() implies !(#[trigger] ascending[i]).below(
        result) by {
            assert(ascending[middle].at_most(ascending[i]));
        }
        assert forall|i: int| 0 <= i < middle implies !result.below(#[trigger] ascending[i]) by {
            assert(ascending[i].at_most(ascending[middle - 1]));
        }
        lemma_few_below(ascending, result, middle);
        lemma_few_above(ascending, result, middle);
    } else {
        assert forall|i: int| middle <= i < ascending.len() implies !(#[trigger] ascending[i]).below(
        result) by {
            assert(ascending[middle].at_most(ascending[i]));
        }
        assert forall|i: int| 0 <= i < middle + 1 implies !result.below(#[trigger] ascending[i]) by {
            assert(ascending[i].at_most(ascending[middle]));
        }
        lemma_few_below(ascending, result, middle);
        lemma_few_above(ascending, result, middle + 1);
    }
}

/// The closes of candles.
pub open spec fn closes_of(candles: Seq<Candle>) -> Seq<Number> {
    candles.map_values(|candle: Candle| candle.close)
}

/// How many numbers lie below a limit is a matter of which numbers there are.
proof fn lemma_below_by_content(numbers: Seq<Number>, limit: Number)
    ensures
        count_below(numbers, limit) == numbers.to_multiset().filter(
            |n: Number| n.below(limit),
        ).len(),
    decreases numbers.len(),
{
    broadcast use vstd::seq_lib::group_to_multiset_ensures;

    let is_below = |n: Number| n.below(limit);
    if numbers.len() == 0 {
        assert(numbers.to_multiset().filter(is_below) =~= vstd::multiset::Multiset::empty());
    } else {
        let rest = numbers.drop_last();
        let last = numbers.last();
        lemma_below_by_content(rest, limit);
        assert(numbers =~= rest.push(last));
        let before = rest.to_multiset().filter(is_below);
        if last.below(limit) {
            assert(numbers.to_multiset().filter(is_below) =~= before.insert(last));
        } else {
            assert(numbers.to_multiset().filter(is_below) =~= before);
        }
    }
}

/// How many numbers lie above a limit is a matter of which numbers there are.
proof fn lemma_above_by_content(numbers: Seq<Number>, limit: Number)
    ensures
        count_above(numbers, limit) == numbers.to_multiset().filter(
            |n: Number| limit.below(n),
        ).len(),
    decreases numbers.len(),
{
    broadcast use vstd::seq_lib::group_to_multiset_ensures;

    let is_above = |n: Number| limit.below(n);
    if numbers.len() == 0 {
        assert(numbers.to_multiset().filter(is_above) =~= vstd::multiset::Multiset::empty());
    } else {
        let rest = numbers.drop_last();
        let last = numbers.last();
        lemma_above_by_content(rest, limit);
        assert(numbers =~= rest.push(last));
        let before = rest.to_multiset().filter(is_above);
        if limit.below(last) {
            assert(numbers.to_multiset().filter(is_above) =~= before.insert(last));
        } else {
            assert(numbers.to_multiset().filter(is_above) =~= before);
        }
    }
}

/// Whether every number is finite and above zero.
pub open spec fn all_prices(numbers: Seq<Number>) -> bool {
    forall|i: int|
        0 <= i < numbers.len() ==> (#[trigger] numbers[i]).finite() && number::pattern(0).below(
            numbers[i],
        )
}

/// Whether numbers ascend.
pub open spec fn all_ascend(numbers: Seq<Number>) -> bool {
    forall|i: int, j: int|
        0 <= i <= j < numbers.len() ==> (#[trigger] numbers[i]).at_most(#[trigger] numbers[j])
}

/// Sorted prices: they ascend, they are the same prices, and every other ascending
/// arrangement of them is the same.
proof fn lemma_sorted_prices(prices: Seq<Number>, ascending: Seq<Number>)
    requires
        all_prices(prices),
        ascending == prices.sort_by(ordering::order::<Number>()),
    ensures
        ascending.to_multiset() == prices.to_multiset(),
        ascending.len() == prices.len(),
        all_prices(ascending),
        all_ascend(ascending),
        forall|i: int| 0 <= i < ascending.len() ==> prices.contains(#[trigger] ascending[i]),
        forall|other: Seq<Number>|
            #[trigger] other.to_multiset() == prices.to_multiset() && all_ascend(other) ==> other
                == ascending,
{
    broadcast use vstd::seq_lib::group_to_multiset_ensures;

    Number::order_is_total();
    prices.lemma_sort_by_ensures(ordering::order::<Number>());
    vstd::seq_lib::to_multiset_len(prices);
    vstd::seq_lib::to_multiset_len(ascending);
    assert forall|i: int| 0 <= i < ascending.len() implies prices.contains(#[trigger] ascending[i]) by {
        assert(ascending.contains(ascending[i]));
        assert(ascending.to_multiset().contains(ascending[i]));
    }
    assert forall|i: int| 0 <= i < ascending.len() implies (#[trigger] ascending[i]).finite()
        && number::pattern(0).below(ascending[i]) by {
        let k = choose|k: int| 0 <= k < prices.len() && prices[k] == ascending[i];
        assert(prices[k].finite());
    }
    assert forall|i: int, j: int| 0 <= i <= j < ascending.len() implies (#[trigger] ascending[i]).at_most(
    #[trigger] ascending[j]) by {
        if i < j {
            assert(ordering::order::<Number>()(ascending[i], ascending[j]));
        }
    }
    assert forall|other: Seq<Number>|
        #[trigger] other.to_multiset() == prices.to_multiset() && all_ascend(other) implies other
        == ascending by {
        assert forall|i: int, j: int| 0 <= i < j < other.len() implies #[trigger] ordering::order::<
            Number,
        >()(other[i], other[j]) by {
            assert(other.contains(other[i]) && other.contains(other[j]));
            assert(other.to_multiset().contains(other[i]) && other.to_multiset().contains(
                other[j],
            ));
            let k = choose|k: int| 0 <= k < prices.len() && prices[k] == other[i];
            let m = choose|m: int| 0 <= m < prices.len() && prices[m] == other[j];
            assert(prices[k].finite() && prices[m].finite());
            assert(other[i].at_most(other[j]));
        }
        vstd::seq_lib::lemma_sorted_unique(other, ascending, ordering::order::<Number>());
    }
}

/// The median price of a window parts its closes: at most half of them lie below it and at
/// most half above it. However the closes are put in ascending order, it is the middle one
/// of an odd count, and half the sum of the middle two of an even one.
pub proof fn law_median_price_parts_closes<C: Fn(Operation) -> Number>(
    window: &[Candle],
    settings: DetectorSettings,
    calc: C,
    levels: PriceLevels,
)
    requires
        number::calculates(calc),
        window@.len() > 0,
        all_prices(closes_of(window@)),
        half_sums_lie_between(number::answers(calc), closes_of(window@)),
        call_ensures(price_levels::<C>, (window, settings, &calc), levels),
    ensures
        2 * count_below(closes_of(window@), levels.median_price) <= window@.len(),
        2 * count_above(closes_of(window@), levels.median_price) <= window@.len(),
        forall|ascending: Seq<Number>, k: int|
            #![trigger ascending.to_multiset(), ascending[k]]
            ascending.to_multiset() == closes_of(window@).to_multiset() && all_ascend(ascending)
                ==> (window@.len() == 2 * k + 1 ==> levels.median_price == ascending[k]) && (
            window@.len() == 2 * k ==> levels.median_price == number::answers(calc)(
                Operation::Quotient(
                    number::answers(calc)(Operation::Sum(ascending[k - 1], ascending[k])),
                    number::pattern(0x4000_0000_0000_0000),
                ),
            )),
{
    let arithmetic = number::answers(calc);
    let closes = closes_of(window@);
    let median_price = levels.median_price;
    let ascending = closes.sort_by(ordering::order::<Number>());
    assert(closes =~= window@.map_values(|candle: Candle| candle.close));
    lemma_sorted_prices(closes, ascending);
    assert(half_sums_lie_between(arithmetic, ascending)) by {
        assert forall|i: int, j: int|
            0 <= i < ascending.len() && 0 <= j < ascending.len() && (#[trigger] ascending[i]).at_most(
            #[trigger] ascending[j]) implies {
            let half = arithmetic(
                Operation::Quotient(
                    arithmetic(Operation::Sum(ascending[i], ascending[j])),
                    number::pattern(0x4000_0000_0000_0000),
                ),
            );
            ascending[i].at_most(half) && half.at_most(ascending[j])
        } by {
            let k = choose|k: int| 0 <= k < closes.len() && closes[k] == ascending[i];
            let m = choose|m: int| 0 <= m < closes.len() && closes[m] == ascending[j];
            assert(closes[k].at_most(closes[m]));
        }
    }
    lemma_median(arithmetic, ascending, median_price);
    lemma_below_by_content(closes, median_price);
    lemma_below_by_content(ascending, median_price);
    lemma_above_by_content(closes, median_price);
    lemma_above_by_content(ascending, median_price);
}

/// The band and the spike level are shares of the median price: the band reaches the given
/// percentage below and above it, the spike level lies the given percentage above it.
pub proof fn law_levels_are_shares_of_median<C: Fn(Operation) -> Number>(
    window: &[Candle],
    settings: DetectorSettings,
    calc: C,
    levels: PriceLevels,
)
    requires
        number::calculates(calc),
        window@.len() > 0,
        call_ensures(price_levels::<C>, (window, settings, &calc), levels),
    ensures
        ({
            let arithmetic = number::answers(calc);
            let one = number::pattern(0x3ff0_0000_0000_0000);
            let hundred = number::pattern(0x4059_0000_0000_0000);
            let band = arithmetic(Operation::Quotient(settings.sideways_band_pct, hundred));
            let spike = arithmetic(Operation::Quotient(settings.positive_spike_pct, hundred));
            let below = arithmetic(Operation::Difference(one, band));
            let above = arithmetic(Operation::Sum(one, band));
            let far_above = arithmetic(Operation::Sum(one, spike));
            &&& levels.band_lower == arithmetic(Operation::Product(levels.median_price, below))
            &&& levels.band_upper == arithmetic(Operation::Product(levels.median_price, above))
            &&& levels.spike_level == arithmetic(
                Operation::Product(levels.median_price, far_above),
            )
        }),
{
}

/// How many candles close inside a band, its edges included.
pub open spec fn count_within(candles: Seq<Candle>, lower: Number, upper: Number) -> nat
    decreases candles.len(),
{
    if candles.len() == 0 {
        0
    } else if lower.at_most(candles.last().close) && candles.last().close.at_most(upper) {
        count_within(candles.drop_last(), lower, upper) + 1
    } else {
        count_within(candles.drop_last(), lower, upper)
    }
}

proof fn lemma_count_within(candles: Seq<Candle>, levels: PriceLevels)
    ensures
        count_within(candles, levels.band_lower, levels.band_upper) == detector::in_band(
            candles,
            levels,
        ).len(),
    decreases candles.len(),
{
    reveal(Seq::filter);
    if candles.len() > 0 {
        lemma_count_within(candles.drop_last(), levels);
    }
}

/// Whether prices and times of a candle go together.
pub open spec fn is_sound(candle: Candle) -> bool {
    let zero = number::pattern(0);
    &&& candle.open_time_ms >= 0
    &&& candle.close_time_ms > candle.open_time_ms
    &&& candle.open.finite() && zero.below(candle.open)
    &&& candle.high.finite() && zero.below(candle.high)
    &&& candle.low.finite() && zero.below(candle.low)
    &&& candle.close.finite() && zero.below(candle.close)
    &&& candle.low.at_most(candle.open) && candle.open.at_most(candle.high)
    &&& candle.low.at_most(candle.close) && candle.close.at_most(candle.high)
}

/// Whether candles are sound and each opens one interval after the one before it.
pub open spec fn is_unbroken(window: Seq<Candle>, interval_ms: int) -> bool {
    &&& forall|i: int| 0 <= i < window.len() ==> is_sound(#[trigger] window[i])
    &&& forall|i: int|
        #![trigger window[i]]
        0 <= i < window.len() - 1 ==> window[i + 1].open_time_ms == window[i].open_time_ms
            + interval_ms
    &&& window.len() > 1 ==> interval_ms > 0
}

/// A window is accepted if and only if its candles are sound and follow each other without
/// a gap.
pub proof fn law_windows_are_unbroken(window: &[Candle], interval_ms: i64, accepted: bool)
    requires
        call_ensures(valid_complete_window, (window, interval_ms), accepted),
    ensures
        accepted <==> is_unbroken(window@, interval_ms as int),
{
    lemma_windows(window, interval_ms);
}

/// The share of the candles that close inside the band, in percent.
pub open spec fn share_within(
    arithmetic: spec_fn(Operation) -> Number,
    window: Seq<Candle>,
    levels: PriceLevels,
) -> Number {
    let part = arithmetic(
        Operation::Count(count_within(window, levels.band_lower, levels.band_upper) as usize),
    );
    let whole = arithmetic(Operation::Count(window.len() as usize));
    arithmetic(
        Operation::Product(
            arithmetic(Operation::Quotient(part, whole)),
            number::pattern(0x4059_0000_0000_0000),
        ),
    )
}

/// Whether a candle is the latest one of a window whose high reaches the spike level.
pub open spec fn is_latest_spike(window: Seq<Candle>, level: Number, place: int) -> bool {
    &&& 0 <= place < window.len()
    &&& level.at_most(window[place].high)
    &&& forall|later: int|
        place < later < window.len() ==> !level.at_most((#[trigger] window[later]).high)
}

/// Whether a candle is the last one of those with the highest high of a window.
pub open spec fn is_largest_spike(window: Seq<Candle>, place: int) -> bool {
    &&& 0 <= place < window.len()
    &&& forall|other: int|
        0 <= other < window.len() ==> (#[trigger] window[other]).high.at_most(window[place].high)
    &&& forall|later: int|
        place < later < window.len() ==> (#[trigger] window[later]).high.below(window[place].high)
}

/// By how many percent one number lies above another.
pub open spec fn excess(
    arithmetic: spec_fn(Operation) -> Number,
    value: Number,
    base: Number,
) -> Number {
    arithmetic(
        Operation::Product(
            arithmetic(
                Operation::Difference(
                    arithmetic(Operation::Quotient(value, base)),
                    number::pattern(0x3ff0_0000_0000_0000),
                ),
            ),
            number::pattern(0x4059_0000_0000_0000),
        ),
    )
}

/// What is told by how many percent one number lies above another is the quotient less one,
/// times a hundred.
pub proof fn law_percentages_are_quotients<C: Fn(Operation) -> Number>(
    value: Number,
    base: Number,
    calc: C,
    result: Number,
)
    requires
        number::calculates(calc),
        call_ensures(percentage_above::<C>, (value, base, &calc), result),
    ensures
        result == excess(number::answers(calc), value, base),
{
}

/// A market is a candidate if and only if there are enough candles, the latest ones make a
/// window without a gap, not too few of them close inside the band, one of them reaches the
/// spike level, the latest one to do so has closed early enough, and in the quiet period
/// none has closed off the band.
pub proof fn law_candidate_if_and_only_if<C: Fn(Operation) -> Number>(
    symbol: &str,
    candles: &[Candle],
    window: &[Candle],
    settings: DetectorSettings,
    quote_volume_24h: Number,
    calc: C,
    levels: PriceLevels,
    result: Option<CandidateResult>,
)
    requires
        number::calculates(calc),
        settings.window_candles > 0,
        call_ensures(
            detect_candidate::<C>,
            (symbol, candles, settings, quote_volume_24h, &calc),
            result,
        ),
        candles@.len() >= settings.window_candles ==> window@ == candles@.skip(
            candles@.len() - settings.window_candles,
        ),
        window@.len() > 0,
        call_ensures(price_levels::<C>, (window, settings, &calc), levels),
    ensures
        result is Some <==> {
            let arithmetic = number::answers(calc);
            let end_ms = window@[window@.len() - 1].close_time_ms;
            &&& candles@.len() >= settings.window_candles
            &&& is_unbroken(window@, settings.interval_ms as int)
            &&& !arithmetic(
                Operation::Sum(
                    share_within(arithmetic, window@, levels),
                    number::pattern(0x3cb0_0000_0000_0000),
                ),
            ).below(settings.min_sideways_closes_pct)
            &&& exists|place: int| #[trigger]
                is_latest_spike(window@, levels.spike_level, place) && end_ms
                    - window@[place].close_time_ms >= settings.quiet_period_ms
            &&& forall|i: int|
                0 <= i < window@.len() && (#[trigger] window@[i]).close_time_ms > end_ms
                    - settings.quiet_period_ms ==> !window@[i].close.below(levels.band_lower)
                    && !levels.band_upper.below(window@[i].close)
        },
{
    let arithmetic = number::answers(calc);
    let w = window@;
    lemma_windows(window, settings.interval_ms);
    lemma_count_within(w, levels);
    if candles@.len() >= settings.window_candles && is_unbroken(w, settings.interval_ms as int) {
        let last = w.len() - 1;
        assert(w[last] == w.last());
        assert(is_sound(w[last]));
        assert(w == detector::latest_candles(candles@, settings.window_candles as int));
        let spikes = detector::spikes_in(w, levels);
        assert forall|i: int| 0 <= i < w.len() implies (detector::is_spike(#[trigger] w[i], levels)
            <==> levels.spike_level.at_most(w[i].high)) by {
            assert(is_sound(w[i]));
        }
        if spikes.len() > 0 {
            let place = detector::lemma_last_spike(w, levels);
            assert(is_sound(w[place]));
            assert(is_latest_spike(w, levels.spike_level, place)) by {
                assert forall|later: int| place < later < w.len() implies !levels.spike_level.at_most(
                (#[trigger] w[later]).high) by {
                    assert(!detector::is_spike(w[later], levels));
                }
            }
            assert forall|other: int| #[trigger]
                is_latest_spike(w, levels.spike_level, other) implies other == place by {
                if other < place {
                    assert(!levels.spike_level.at_most(w[place].high));
                }
                if place < other {
                    assert(!levels.spike_level.at_most(w[other].high));
                }
            }
        } else {
            assert forall|place: int| !(#[trigger] is_latest_spike(w, levels.spike_level, place)) by {
                if is_latest_spike(w, levels.spike_level, place) {
                    w.lemma_filter_contains(
                        |candle: Candle| detector::is_spike(candle, levels),
                        place,
                    );
                }
            }
        }
    }
}

proof fn lemma_windows(window: &[Candle], interval_ms: i64)
    ensures
        detector::complete_window(window@, interval_ms as int) <==> is_unbroken(
            window@,
            interval_ms as int,
        ),
{
    let w = window@;
    if detector::complete_window(w, interval_ms as int) {
        assert forall|i: int| 0 <= i < w.len() implies is_sound(#[trigger] w[i]) by {
            assert(detector::consistent(w[i]));
        }
        assert forall|i: int|
            #![trigger w[i]]
            0 <= i < w.len() - 1 implies w[i + 1].open_time_ms == w[i].open_time_ms
            + interval_ms by {
            assert(w[i + 1].open_time_ms - w[i].open_time_ms == interval_ms);
        }
        if w.len() > 1 {
            assert(w[1].open_time_ms > w[0].open_time_ms);
        }
    }
    if is_unbroken(w, interval_ms as int) {
        assert forall|i: int| 0 <= i < w.len() implies detector::consistent(#[trigger] w[i]) by {
            assert(is_sound(w[i]));
        }
        assert forall|i: int, j: int| 0 <= i && j == i + 1 && j < w.len() implies (#[trigger] w[j]).open_time_ms
            - (#[trigger] w[i]).open_time_ms == interval_ms && w[j].open_time_ms
            > w[i].open_time_ms by {
            assert(w[i + 1].open_time_ms == w[i].open_time_ms + interval_ms);
        }
    }
}

/// A candidate carries the figures of its window: market and volume as given, the price
/// levels, the share of closes inside the band, the latest close, the latest spike with the
/// time since it, and the largest spike.
pub proof fn law_candidate_carries_its_figures<C: Fn(Operation) -> Number>(
    symbol: &str,
    candles: &[Candle],
    window: &[Candle],
    settings: DetectorSettings,
    quote_volume_24h: Number,
    calc: C,
    levels: PriceLevels,
    candidate: CandidateResult,
    latest: int,
    largest: int,
)
    requires
        number::calculates(calc),
        settings.window_candles > 0,
        call_ensures(
            detect_candidate::<C>,
            (symbol, candles, settings, quote_volume_24h, &calc),
            Some(candidate),
        ),
        candles@.len() >= settings.window_candles,
        window@ == candles@.skip(candles@.len() - settings.window_candles),
        call_ensures(price_levels::<C>, (window, settings, &calc), levels),
        is_latest_spike(window@, levels.spike_level, latest),
        is_largest_spike(window@, largest),
    ensures
        candidate.symbol@ == symbol@,
        candidate.quote_volume_24h == quote_volume_24h,
        candidate.median_price == levels.median_price,
        candidate.band_lower == levels.band_lower,
        candidate.band_upper == levels.band_upper,
        candidate.sideways_close_ratio == share_within(number::answers(calc), window@, levels),
        candidate.latest_close == window@[window@.len() - 1].close,
        candidate.latest_spike_time_ms == window@[latest].open_time_ms,
        candidate.latest_spike_high == window@[latest].high,
        candidate.latest_spike_pct == excess(
            number::answers(calc),
            window@[latest].high,
            levels.median_price,
        ),
        candidate.quiet_period_ms == window@[window@.len() - 1].close_time_ms
            - window@[latest].close_time_ms,
        candidate.largest_spike_time_ms == window@[largest].open_time_ms,
        candidate.largest_spike_pct == excess(
            number::answers(calc),
            window@[largest].high,
            levels.median_price,
        ),
{
    let w = window@;
    lemma_windows(window, settings.interval_ms);
    lemma_count_within(w, levels);
    let last = w.len() - 1;
    assert(w[last] == w.last());
    assert(is_sound(w[last]));
    assert(w == detector::latest_candles(candles@, settings.window_candles as int));
    let spikes = detector::spikes_in(w, levels);
    let reaches = |candle: Candle| detector::is_spike(candle, levels);
    assert(is_sound(w[latest]) && is_sound(w[largest]));
    w.lemma_filter_contains(reaches, latest);
    let place = detector::lemma_last_spike(w, levels);
    assert(is_sound(w[place]));
    if place < latest {
        assert(!detector::is_spike(w[latest], levels));
    }
    if latest < place {
        assert(!levels.spike_level.at_most(w[place].high));
    }
    lemma_largest_of_filtered(w, levels, largest);
}

/// The largest of the spikes is the largest of all, where there is one.
proof fn lemma_largest_of_filtered(window: Seq<Candle>, levels: PriceLevels, largest: int)
    requires
        forall|i: int| 0 <= i < window.len() ==> is_sound(#[trigger] window[i]),
        is_largest_spike(window, largest),
        detector::spikes_in(window, levels).len() > 0,
    ensures
        detector::largest_high(detector::spikes_in(window, levels)) == window[largest],
    decreases window.len(),
{
    reveal(Seq::filter);
    let last = window.len() - 1;
    let rest = window.drop_last();
    let spikes = detector::spikes_in(window, levels);
    let before = detector::spikes_in(rest, levels);
    let reaches = |candle: Candle| detector::is_spike(candle, levels);
    assert(is_sound(window[last]) && is_sound(window[largest]));
    assert forall|i: int| 0 <= i < rest.len() implies is_sound(#[trigger] rest[i]) by {
        assert(is_sound(window[i]));
    }
    if largest < last {
        assert(is_largest_spike(rest, largest)) by {
            assert forall|other: int| 0 <= other < rest.len() implies (#[trigger] rest[other]).high.at_most(
            rest[largest].high) by {
                assert(window[other].high.at_most(window[largest].high));
            }
            assert forall|later: int| largest < later < rest.len() implies (#[trigger] rest[later]).high.below(
            rest[largest].high) by {
                assert(window[later].high.below(window[largest].high));
            }
        }
        assert(window[last].high.below(window[largest].high));
        if before.len() == 0 {
            assert(spikes =~= seq![window[last]]);
            assert(detector::is_spike(window[last], levels));
            assert(detector::is_spike(rest[largest], levels));
            rest.lemma_filter_contains(reaches, largest);
        } else {
            lemma_largest_of_filtered(rest, levels, largest);
            if detector::is_spike(window[last], levels) {
                assert(spikes =~= before.push(window[last]));
                assert(spikes.drop_last() =~= before);
            }
        }
    } else {
        let k: int = 0;
        assert(spikes.contains(spikes[k]));
        window.lemma_filter_pred(reaches, k);
        window.lemma_filter_contains_rev(reaches, spikes[k]);
        let i = choose|i: int| 0 <= i < window.len() && window[i] == spikes[k];
        assert(window[i].high.at_most(window[last].high));
        assert(is_sound(window[i]));
        assert(detector::is_spike(window[last], levels));
        assert(spikes =~= before.push(window[last]));
        assert(spikes.drop_last() =~= before);
        if before.len() > 0 {
            detector::lemma_largest_high(before);
            let best = detector::largest_high(before);
            let m = choose|m: int| 0 <= m < before.len() && before[m] == best;
            assert(before.contains(best));
            rest.lemma_filter_contains_rev(reaches, best);
            let n = choose|n: int| 0 <= n < rest.len() && rest[n] == best;
            assert(window[n].high.at_most(window[last].high));
            assert(is_sound(window[n]));
        }
    }
}

/// One more candle counts if and only if it closes within the band, both ends included.
pub proof fn law_closes_are_counted_one_by_one(
    window: &[Candle],
    more: &[Candle],
    candle: Candle,
    levels: PriceLevels,
    count: usize,
    next: usize,
)
    requires
        more@ == window@.push(candle),
        call_ensures(count_in_band, (window, levels), count),
        call_ensures(count_in_band, (more, levels), next),
    ensures
        next == count + if levels.band_lower.at_most(candle.close) && candle.close.at_most(
            levels.band_upper,
        ) {
            1int
        } else {
            0
        },
        window@.len() == 0 ==> count == 0,
{
    broadcast use vstd::seq::Seq::lemma_filter_push;

    reveal(Seq::filter);
}

/// One more candle is a spike, behind the others, if and only if its high is finite and
/// reaches the spike level.
pub proof fn law_spikes_are_found_one_by_one(
    window: &[Candle],
    more: &[Candle],
    candle: Candle,
    levels: PriceLevels,
    spikes: Vec<Candle>,
    next: Vec<Candle>,
)
    requires
        more@ == window@.push(candle),
        call_ensures(find_spikes, (window, levels), spikes),
        call_ensures(find_spikes, (more, levels), next),
    ensures
        next@ == if candle.high.finite() && levels.spike_level.at_most(candle.high) {
            spikes@.push(candle)
        } else {
            spikes@
        },
        window@.len() == 0 ==> spikes@.len() == 0,
{
    broadcast use vstd::seq::Seq::lemma_filter_push;

    reveal(Seq::filter);
}

/// Whatever the numbers are, the median is the one in the middle, or half the sum of the two
/// in the middle.
pub proof fn law_median_is_the_middle<C: Fn(Operation) -> Number>(
    numbers: Vec<Number>,
    calc: C,
    result: Number,
    before: int,
)
    requires
        number::calculates(calc),
        numbers@.len() > 0,
        call_ensures(median::<C>, (&numbers, &calc), result),
    ensures
        numbers@.len() == before + 1 + before ==> result == numbers@[before],
        numbers@.len() == before + 1 + 1 + before ==> result == number::answers(calc)(
            Operation::Quotient(
                number::answers(calc)(Operation::Sum(numbers@[before], numbers@[before + 1])),
                number::pattern(0x4000_0000_0000_0000),
            ),
        ),
{
}

/// The median price of a window is the median of its sorted closes, whatever the closes are.
pub proof fn law_median_price_is_that_of_sorted_closes<C: Fn(Operation) -> Number>(
    window: &[Candle],
    settings: DetectorSettings,
    calc: C,
    levels: PriceLevels,
    closes: Vec<Number>,
    ascending: Vec<Number>,
    result: Number,
)
    requires
        number::calculates(calc),
        window@.len() > 0,
        call_ensures(price_levels::<C>, (window, settings, &calc), levels),
        closes@.len() == window@.len(),
        forall|i: int| 0 <= i < window@.len() ==> #[trigger] closes@[i] == window@[i].close,
        call_ensures(sorted::<Number>, (closes,), ascending),
        call_ensures(median::<C>, (&ascending, &calc), result),
    ensures
        levels.median_price == result,
{
    assert(ordering::views(closes@) =~= window@.map_values(|candle: Candle| candle.close));
    assert(ordering::views(ascending@) =~= ascending@);
}

} // verus!
