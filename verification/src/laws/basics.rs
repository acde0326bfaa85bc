//! Numbers, texts and maps: what everything else is made of.

use crate::cli::CliError;
use crate::config::{Config, ConfigError};
use crate::detector::{CandidateResult, Candle};
use crate::number;
use crate::number::{Number, Operation};
use crate::ordering;
use crate::ordering::{sorted, Ordered};
use crate::text;
use crate::text::{
    byte_len, chars_of, decimal_text, read_unsigned, same_text, strip_suffix, NumeralFault,
};
use crate::text_map;
use crate::text_map::{lists_key, TextMap};
use crate::time_utils;
use crate::time_utils::{format_epoch_ms, format_with_offset};
use vstd::prelude::*;
use vstd::relations::*;
use vstd::utf8::*;

verus! {

/// Whether a bit pattern is none of a number: all bits of the exponent are set, and some bit
/// of the fraction.
pub open spec fn is_no_number(bits: u64) -> bool {
    0x7ff0_0000_0000_0000 < bits < 0x8000_0000_0000_0000 || bits > 0xfff0_0000_0000_0000
}

/// Patterns without a sign are ordered as integers, those with a sign the other way round,
/// and those with a sign stand before those without. Only the two zeros are equal though
/// their patterns differ. What is no number is neither below nor above nor equal to
/// anything.
pub proof fn law_numbers_are_ordered_by_their_patterns(
    a: Number,
    b: Number,
    below: bool,
    at_most: bool,
    equal: bool,
)
    requires
        call_ensures(Number::is_below, (a, b), below),
        call_ensures(Number::is_at_most, (a, b), at_most),
        call_ensures(Number::is_equal, (a, b), equal),
    ensures
        ({
            let sign: u64 = 0x8000_0000_0000_0000;
            let zeros = (a.bits == 0 || a.bits == sign) && (b.bits == 0 || b.bits == sign);
            &&& is_no_number(a.bits) || is_no_number(b.bits) ==> !below && !at_most && !equal
            &&& !is_no_number(a.bits) && !is_no_number(b.bits) ==> {
                &&& equal <==> a.bits == b.bits || zeros
                &&& at_most <==> below || equal
                &&& zeros ==> !below
                &&& a.bits < sign && b.bits < sign ==> (below <==> a.bits < b.bits)
                &&& a.bits >= sign && b.bits >= sign ==> (below <==> a.bits > b.bits)
                &&& a.bits >= sign && b.bits < sign && !zeros ==> below
                &&& a.bits < sign && b.bits >= sign ==> !below
            }
        }),
{
}

/// A number is infinite or none at all if and only if all bits of its exponent are set.
pub proof fn law_finite_numbers_have_a_smaller_exponent(n: Number, finite: bool, nan: bool)
    requires
        call_ensures(Number::is_finite, (n,), finite),
        call_ensures(Number::is_nan, (n,), nan),
    ensures
        finite <==> n.bits < 0x7ff0_0000_0000_0000 || 0x8000_0000_0000_0000 <= n.bits
            < 0xfff0_0000_0000_0000,
        nan <==> is_no_number(n.bits),
{
}

/// In the total order, patterns with a sign come first, the larger ones before the smaller
/// ones, and then those without a sign, the smaller ones before the larger ones.
pub proof fn law_every_pattern_has_its_place(a: Number, b: Number, result: bool)
    requires
        call_ensures(Number::is_ordered_before, (a, b), result) || call_ensures(
            <Number as Ordered>::is_before,
            (&a, &b),
            result,
        ),
    ensures
        ({
            let sign: u64 = 0x8000_0000_0000_0000;
            &&& a.bits < sign && b.bits < sign ==> (result <==> a.bits <= b.bits)
            &&& a.bits >= sign && b.bits >= sign ==> (result <==> a.bits >= b.bits)
            &&& a.bits >= sign && b.bits < sign ==> result
            &&& a.bits < sign && b.bits >= sign ==> !result
        }),
{
}

/// Of two texts the one with the smaller byte where they first differ comes first, and a
/// text comes before every longer one that begins with it.
pub proof fn law_first_different_byte_decides(
    a: String,
    b: String,
    result: bool,
    same: Seq<u8>,
    left: Seq<u8>,
    right: Seq<u8>,
)
    requires
        call_ensures(<String as Ordered>::is_before, (&a, &b), result),
        encode_utf8(a@) == same + left,
        encode_utf8(b@) == same + right,
    ensures
        left.len() == 0 ==> result,
        left.len() > 0 && right.len() == 0 ==> !result,
        left.len() > 0 && right.len() > 0 && left[0] != right[0] ==> (result <==> left[0]
            < right[0]),
{
    lemma_common_start(same, left, right);
}

proof fn lemma_common_start(same: Seq<u8>, left: Seq<u8>, right: Seq<u8>)
    ensures
        ordering::bytes_precede(same + left, same + right) == ordering::bytes_precede(left, right),
    decreases same.len(),
{
    if same.len() == 0 {
        assert(same + left =~= left);
        assert(same + right =~= right);
    } else {
        lemma_common_start(same.drop_first(), left, right);
        assert((same + left).drop_first() =~= same.drop_first() + left);
        assert((same + right).drop_first() =~= same.drop_first() + right);
    }
}

/// Sorting keeps every item as often as it is there, and puts none before one that comes
/// before it.
pub proof fn law_sorting_keeps_items_and_orders_them<T: Ordered>(
    items: Vec<T>,
    result: Vec<T>,
)
    requires
        call_ensures(sorted::<T>, (items,), result),
    ensures
        ordering::views(result@).to_multiset() == ordering::views(items@).to_multiset(),
        forall|i: int, j: int|
            0 <= i < j < result@.len() ==> T::precedes(
                (#[trigger] result@[i])@,
                (#[trigger] result@[j])@,
            ),
{
    T::order_is_total();
    let all = ordering::views(items@);
    all.lemma_sort_by_ensures(ordering::order::<T>());
    let ordered = ordering::views(result@);
    assert forall|i: int, j: int| 0 <= i < j < result@.len() implies T::precedes(
        (#[trigger] result@[i])@,
        (#[trigger] result@[j])@,
    ) by {
        assert(ordering::order::<T>()(ordered[i], ordered[j]));
    }
}

/// Two texts are the same if and only if they have the same characters.
pub proof fn law_texts_are_compared(a: &str, b: &str, result: bool)
    requires
        call_ensures(same_text, (a, b), result),
    ensures
        result <==> a@.len() == b@.len() && forall|i: int| 0 <= i < a@.len() ==> a@[i] == b@[i],
{
    if a@.len() == b@.len() && forall|i: int| 0 <= i < a@.len() ==> a@[i] == b@[i] {
        assert(a@ =~= b@);
    }
}

/// A text without another one at its end is what stands before it.
pub proof fn law_ends_are_cut_off(text: &str, end: &str, result: Option<String>, start: Seq<char>)
    requires
        call_ensures(strip_suffix, (text, end), result),
    ensures
        text@ == start + end@ ==> result is Some && result->0@ == start,
        result is Some ==> text@ == result->0@ + end@,
{
    if text@ == start + end@ {
        assert(text@.skip(text@.len() - end@.len()) =~= end@);
        assert(text@.take(text@.len() - end@.len()) =~= start);
    }
    if result is Some {
        let cut = text@.len() - end@.len();
        assert(text@ =~= text@.take(cut) + text@.skip(cut));
    }
}

/// The value of a numeral, read from the left.
pub open spec fn value_of(numeral: Seq<char>) -> int
    decreases numeral.len(),
{
    if numeral.len() == 0 {
        0
    } else {
        10 * value_of(numeral.drop_last()) + (numeral.last() as int - 48)
    }
}

/// The numeral of an integer has its value, is made of digits and begins with no needless
/// zero; that of a negative one is that of its opposite behind a minus sign.
pub proof fn law_numerals_have_their_value(value: i128, result: String)
    requires
        value > i128::MIN,
        call_ensures(decimal_text, (value,), result),
    ensures
        ({
            let numeral = if value < 0 {
                result@.drop_first()
            } else {
                result@
            };
            &&& value < 0 ==> result@.len() > 1 && result@[0] == '-'
            &&& value_of(numeral) == if value < 0 {
                -value as int
            } else {
                value as int
            }
            &&& forall|i: int| 0 <= i < numeral.len() ==> '0' <= #[trigger] numeral[i] <= '9'
            &&& numeral.len() > 0
            &&& numeral[0] == '0' ==> numeral.len() == 1
        }),
{
    let size: nat = (if value < 0 {
        -value
    } else {
        value as int
    }) as nat;
    lemma_numeral(size);
    let numeral = if value < 0 {
        result@.drop_first()
    } else {
        result@
    };
    assert(numeral =~= text::digits(size));
}

proof fn lemma_numeral(value: nat)
    ensures
        value_of(text::digits(value)) == value,
        text::digits(value).len() > 0,
        forall|i: int|
            0 <= i < text::digits(value).len() ==> '0' <= #[trigger] text::digits(value)[i] <= '9',
        text::digits(value)[0] == '0' ==> value == 0 && text::digits(value).len() == 1,
    decreases value,
{
    let numeral = text::digits(value);
    if value < 10 {
        assert(numeral.drop_last() =~= Seq::<char>::empty());
        assert(value_of(numeral.drop_last()) == 0);
        assert(numeral[0] as int == 48 + value);
    } else {
        lemma_numeral(value / 10);
        assert(numeral.drop_last() =~= text::digits(value / 10));
        let low = (value % 10) as int;
        assert(text::digit(low) as int == 48 + low);
    }
}

/// A point in time is told by day, month, year, hour and minute in its zone, where a calendar
/// date can be given for it, and by its number everywhere else.
pub proof fn law_times_are_told(timestamp_ms: i64, offset_secs: i32, result: String)
    requires
        call_ensures(format_with_offset, (timestamp_ms, offset_secs), result),
    ensures
        -8_334_601_228_800_000 <= timestamp_ms <= 8_210_266_876_799_999 ==> result@
            == time_utils::written_date(timestamp_ms, offset_secs, "%d.%m.%Y %H:%M"@),
        timestamp_ms < -8_334_601_228_800_000 || timestamp_ms > 8_210_266_876_799_999 ==> result@
            == text::decimal(timestamp_ms as int),
{
}

/// What a map is given under a key is found under it, and every other key is as before.
pub proof fn law_maps_keep_what_they_are_given<V>(
    map: &mut TextMap<V>,
    key: String,
    value: V,
    other: Seq<char>,
)
    requires
        call_ensures(TextMap::<V>::insert, (map, key, value), ()),
    ensures
        final(map)@.contains_key(key@) && final(map)@[key@] == value,
        other != key@ ==> (final(map)@.contains_key(other) <==> old(map)@.contains_key(other)),
        other != key@ && old(map)@.contains_key(other) ==> final(map)@[other] == old(map)@[other],
{
}

/// What is taken out of a map is what it had under the key, which it has no longer, and every
/// other key is as before.
pub proof fn law_maps_give_back_what_they_have<V>(
    map: &mut TextMap<V>,
    key: &str,
    result: Option<V>,
    other: Seq<char>,
)
    requires
        call_ensures(TextMap::<V>::remove, (map, key), result),
    ensures
        result is Some <==> old(map)@.contains_key(key@),
        result is Some ==> result->0 == old(map)@[key@],
        !final(map)@.contains_key(key@),
        other != key@ ==> (final(map)@.contains_key(other) <==> old(map)@.contains_key(other)),
        other != key@ && old(map)@.contains_key(other) ==> final(map)@[other] == old(map)@[other],
{
}

/// A map that keeps the keys of a list has those of its keys that the list names, as before.
pub proof fn law_maps_keep_the_keys_of_a_list<V>(
    map: &mut TextMap<V>,
    keys: Vec<String>,
    key: &str,
    listed: bool,
)
    requires
        call_ensures(TextMap::<V>::retain_keys, (map, &keys), ()),
        call_ensures(lists_key, (&keys, key), listed),
    ensures
        listed <==> exists|i: int| 0 <= i < keys@.len() && (#[trigger] keys@[i])@ == key@,
        final(map)@.contains_key(key@) <==> old(map)@.contains_key(key@) && listed,
        final(map)@.contains_key(key@) ==> final(map)@[key@] == old(map)@[key@],
{
}

/// Looking at a map finds what it has, and a new map has nothing.
pub proof fn law_maps_are_looked_at<V>(
    map: TextMap<V>,
    fresh: TextMap<V>,
    key: &str,
    found: Option<&V>,
    contained: bool,
)
    requires
        call_ensures(TextMap::<V>::new, (), fresh),
        call_ensures(TextMap::<V>::get, (&map, key), found),
        call_ensures(TextMap::<V>::contains_key, (&map, key), contained),
    ensures
        contained <==> map@.contains_key(key@),
        found is Some <==> contained,
        found matches Some(value) ==> *value == map@[key@],
        !fresh@.contains_key(key@),
{
}

/// A map lists each of its keys once, with its value.
pub proof fn law_maps_list_each_key_once<V: Copy>(
    map: TextMap<V>,
    pairs: Vec<(String, V)>,
    key: Seq<char>,
)
    requires
        call_ensures(TextMap::<V>::pairs, (&map,), pairs),
    ensures
        map@.contains_key(key) <==> exists|i: int|
            0 <= i < pairs@.len() && (#[trigger] pairs@[i]).0@ == key,
        forall|i: int|
            0 <= i < pairs@.len() ==> map@[(#[trigger] pairs@[i]).0@] == pairs@[i].1,
        forall|i: int, j: int|
            0 <= i < j < pairs@.len() ==> (#[trigger] pairs@[i]).0@ != (#[trigger] pairs@[j]).0@,
{
    let views = text_map::pair_views(pairs@);
    assert forall|i: int| 0 <= i < pairs@.len() implies map@[(#[trigger] pairs@[i]).0@]
        == pairs@[i].1 by {
        assert(views[i] == (pairs@[i].0@, pairs@[i].1));
        lemma_last_of(views, views[i].0, i);
        assert forall|j: int| i < j < views.len() implies (#[trigger] views[j]).0 != views[i].0 by {
        }
    }
    lemma_keys_of(views, key);
    if map@.contains_key(key) {
        let i = choose|i: int| 0 <= i < views.len() && (#[trigger] views[i]).0 == key;
        assert(pairs@[i].0@ == key);
    }
    if exists|i: int| 0 <= i < pairs@.len() && (#[trigger] pairs@[i]).0@ == key {
        let i = choose|i: int| 0 <= i < pairs@.len() && (#[trigger] pairs@[i]).0@ == key;
        assert(views[i].0 == key);
    }
    assert forall|i: int, j: int| 0 <= i < j < pairs@.len() implies (#[trigger] pairs@[i]).0@ != (
    #[trigger] pairs@[j]).0@ by {
        assert(views[i].0 != views[j].0);
    }
}

/// A map made of pairs has their keys, each with the value of the last pair that has it.
pub proof fn law_later_pairs_count<V: Copy>(
    pairs: Vec<(String, V)>,
    map: TextMap<V>,
    key: Seq<char>,
    place: int,
)
    requires
        call_ensures(TextMap::<V>::from_pairs, (pairs,), map),
    ensures
        map@.contains_key(key) <==> exists|i: int|
            0 <= i < pairs@.len() && (#[trigger] pairs@[i]).0@ == key,
        0 <= place < pairs@.len() && pairs@[place].0@ == key && (forall|j: int|
            place < j < pairs@.len() ==> (#[trigger] pairs@[j]).0@ != key) ==> map@[key]
            == pairs@[place].1,
{
    let views = text_map::pair_views(pairs@);
    lemma_keys_of(views, key);
    if map@.contains_key(key) {
        let i = choose|i: int| 0 <= i < views.len() && (#[trigger] views[i]).0 == key;
        assert(pairs@[i].0@ == key);
    }
    if exists|i: int| 0 <= i < pairs@.len() && (#[trigger] pairs@[i]).0@ == key {
        let i = choose|i: int| 0 <= i < pairs@.len() && (#[trigger] pairs@[i]).0@ == key;
        assert(views[i].0 == key);
    }
    if 0 <= place < pairs@.len() && pairs@[place].0@ == key && (forall|j: int|
        place < j < pairs@.len() ==> (#[trigger] pairs@[j]).0@ != key) {
        assert forall|j: int| place < j < views.len() implies (#[trigger] views[j]).0 != key by {
            assert(pairs@[j].0@ != key);
        }
        assert(views[place] == (pairs@[place].0@, pairs@[place].1));
        lemma_last_of(views, key, place);
    }
}

proof fn lemma_keys_of<V>(pairs: Seq<(Seq<char>, V)>, key: Seq<char>)
    ensures
        text_map::map_of(pairs).contains_key(key) <==> exists|i: int|
            0 <= i < pairs.len() && (#[trigger] pairs[i]).0 == key,
    decreases pairs.len(),
{
    if pairs.len() > 0 {
        let rest = pairs.drop_last();
        lemma_keys_of(rest, key);
        assert(pairs[pairs.len() - 1] == pairs.last());
        if exists|i: int| 0 <= i < rest.len() && (#[trigger] rest[i]).0 == key {
            let i = choose|i: int| 0 <= i < rest.len() && (#[trigger] rest[i]).0 == key;
            assert(pairs[i].0 == key);
        }
        if exists|i: int| 0 <= i < pairs.len() && (#[trigger] pairs[i]).0 == key {
            let i = choose|i: int| 0 <= i < pairs.len() && (#[trigger] pairs[i]).0 == key;
            if i < rest.len() {
                assert(rest[i].0 == key);
            }
        }
    }
}

proof fn lemma_last_of<V>(pairs: Seq<(Seq<char>, V)>, key: Seq<char>, place: int)
    requires
        0 <= place < pairs.len(),
        pairs[place].0 == key,
    ensures
        (forall|j: int| place < j < pairs.len() ==> (#[trigger] pairs[j]).0 != key)
            ==> text_map::map_of(pairs)[key] == pairs[place].1,
    decreases pairs.len(),
{
    if forall|j: int| place < j < pairs.len() ==> (#[trigger] pairs[j]).0 != key {
        let rest = pairs.drop_last();
        assert(pairs[pairs.len() - 1] == pairs.last());
        if place < rest.len() {
            assert(pairs.last().0 != key);
            assert(rest[place] == pairs[place]);
            assert forall|j: int| place < j < rest.len() implies (#[trigger] rest[j]).0 != key by {
                assert(pairs[j].0 != key);
            }
            lemma_last_of(rest, key, place);
        }
    }
}

/// Why a text is no numeral, in words.
pub open spec fn told_fault(fault: NumeralFault) -> Seq<char> {
    match fault {
        NumeralFault::Empty => "cannot parse integer from empty string"@,
        NumeralFault::InvalidDigit => "invalid digit found in string"@,
        NumeralFault::TooLarge => "number too large to fit in target type"@,
    }
}

/// Why a command line cannot be followed is told with the argument or with what is wrong with
/// the value.
pub proof fn law_command_line_faults_are_told(
    error: CliError,
    message: String,
    fault: NumeralFault,
    words: String,
)
    requires
        call_ensures(CliError::message, (&error,), message),
        call_ensures(NumeralFault::message, (fault,), words),
    ensures
        words@ == told_fault(fault),
        match error {
            CliError::MissingValue(name) => message@ == "missing value for "@ + name@,
            CliError::NotANumber(empty) => message@ == if empty {
                "cannot parse float from empty string"@
            } else {
                "invalid float literal"@
            },
            CliError::NotAnInteger(fault) => message@ == told_fault(fault),
            CliError::UnknownArgument(name) => message@ == "unknown argument: "@ + name@,
        },
{
}

/// Why a configuration is refused is told with the setting and with what it has to be.
pub proof fn law_configuration_faults_are_told(error: ConfigError, message: String)
    requires
        call_ensures(ConfigError::message, (&error,), message),
    ensures
        match error {
            ConfigError::InvalidDuration(value) => message@ == "invalid duration: "@ + value@,
            ConfigError::MalformedAmount(fault) => message@ == told_fault(fault),
            ConfigError::ZeroDuration(value) => message@ == "duration must be positive: "@ + value@,
            ConfigError::UnknownUnit(value) => message@ == "unsupported duration unit in "@ + value@ + "; use m, h, d or w"@,
            ConfigError::DurationTooLarge(value) => message@ == "duration is too large: "@ + value@,
            ConfigError::MonthInterval => message@ == "candle interval 1M is unsupported because calendar months vary in length"@,
            ConfigError::UnsupportedInterval(value) => message@ == "unsupported Binance candle interval: "@ + value@,
            ConfigError::WindowNotDivisible => message@ == "rolling_window must be exactly divisible by candle_interval"@,
            ConfigError::QuietPeriodNotDivisible => message@ == "post_spike_quiet_period must be exactly divisible by candle_interval"@,
            ConfigError::QuietPeriodTooLong => message@ == "post_spike_quiet_period must be shorter than rolling_window"@,
            ConfigError::CountOutOfRange => message@ == "out of range integral type conversion attempted"@,
            ConfigError::WindowSize(candles) => message@ == "rolling window must contain between 20 and 10000 candles, got "@ + text::decimal(candles as int),
            ConfigError::BandRange => message@ == "sideways_band_pct must be at least 0 and below 100"@,
            ConfigError::MinClosesRange => message@ == "min_sideways_closes_pct must be above 0 and at most 100"@,
            ConfigError::SpikeNotAboveBand => message@ == "positive_spike_pct must be greater than sideways_band_pct"@,
            ConfigError::MinVolume => message@ == "min_quote_volume_24h must be a finite, non-negative number"@,
            ConfigError::MaxVolume => message@ == "max_quote_volume_24h must be finite and greater than or equal to min_quote_volume_24h"@,
            ConfigError::RefreshInterval => message@ == "symbol_refresh_secs must be at least 1"@,
            ConfigError::HealthcheckUrl(reason) => message@ == "invalid healthcheck_url: "@ + reason@,
            ConfigError::HealthcheckScheme => message@ == "healthcheck_url must use http or https"@,
            ConfigError::MissingCredentials => message@ == "missing Telegram credentials; set TELEGRAM_BOT_TOKEN and TELEGRAM_CHAT_ID or use --dry-run"@,
        },
{
}

/// What a function answers is what is counted as its answer: for arithmetic, for reading a
/// number and for showing one.
pub proof fn law_answers_are_those_of_the_function<
    C: Fn(Operation) -> Number,
    R: Fn(&str) -> Option<Number>,
    S: Fn(Number, usize) -> String,
>(
    calc: C,
    op: Operation,
    answer: Number,
    read: R,
    text: &str,
    reading: Option<Number>,
    show: S,
    n: Number,
    decimals: usize,
    showing: String,
)
    requires
        number::calculates(calc),
        call_ensures(calc, (op,), answer),
        number::reads(read),
        call_ensures(read, (text,), reading),
        number::shows(show),
        call_ensures(show, (n, decimals), showing),
    ensures
        number::answers(calc)(op) == answer,
        number::readings(read)(text@) == reading,
        number::showings(show)(n, decimals) == showing@,
{
    assert(number::reads_as(read, text@, reading));
    assert(number::shows_as(show, n, decimals, showing@));
}

/// A point in time is told in some zone less than a day away from universal time, where a
/// calendar date can be given for it, and by its number everywhere else.
pub proof fn law_times_are_told_in_some_zone(timestamp_ms: i64, result: String)
    requires
        call_ensures(format_epoch_ms, (timestamp_ms,), result),
    ensures
        -8_334_601_228_800_000 <= timestamp_ms <= 8_210_266_876_799_999 ==> exists|offset: i32|
            -86_400 < offset < 86_400 && result@ == #[trigger] time_utils::written_date(
                timestamp_ms,
                offset,
                "%d.%m.%Y %H:%M"@,
            ),
        timestamp_ms < -8_334_601_228_800_000 || timestamp_ms > 8_210_266_876_799_999 ==> result@
            == text::decimal(timestamp_ms as int),
{
    if time_utils::is_dated(timestamp_ms) {
        let offset = choose|offset: i32| #[trigger]
            time_utils::is_local_offset(timestamp_ms, offset) && time_utils::is_offset(
                offset as int,
            ) && result@ == time_utils::told(timestamp_ms, offset);
        assert(result@ == time_utils::written_date(timestamp_ms, offset, "%d.%m.%Y %H:%M"@));
    }
}

/// A text is made of its characters, and a number of its pattern.
pub proof fn law_nothing_is_lost(
    text: &str,
    chars: Vec<char>,
    numeral: &[char],
    value: Result<u64, NumeralFault>,
    bits: u64,
    n: Number,
)
    requires
        call_ensures(chars_of, (text,), chars),
        call_ensures(read_unsigned, (numeral,), value),
        call_ensures(Number::from_bits, (bits,), n),
    ensures
        chars@ == text@,
        value == text::unsigned_numeral(numeral@),
        n.bits == bits,
{
}

/// Two candles are equal if and only if their times are and their prices and volumes are as
/// numbers.
pub proof fn law_candles_are_compared(a: Candle, b: Candle, result: bool)
    requires
        call_ensures(<Candle as PartialEq>::eq, (&a, &b), result),
    ensures
        result <==> a.open_time_ms == b.open_time_ms && a.close_time_ms == b.close_time_ms
            && a.open.equals(b.open) && a.high.equals(b.high) && a.low.equals(b.low)
            && a.close.equals(b.close) && a.quote_volume.equals(b.quote_volume),
{
}

/// Two candidates are equal if and only if their markets and times are and their figures are
/// as numbers.
pub proof fn law_candidates_are_compared(a: CandidateResult, b: CandidateResult, result: bool)
    requires
        call_ensures(<CandidateResult as PartialEq>::eq, (&a, &b), result),
    ensures
        result <==> {
            &&& a.symbol@ == b.symbol@
            &&& a.median_price.equals(b.median_price)
            &&& a.band_lower.equals(b.band_lower)
            &&& a.band_upper.equals(b.band_upper)
            &&& a.sideways_close_ratio.equals(b.sideways_close_ratio)
            &&& a.latest_close.equals(b.latest_close)
            &&& a.latest_spike_time_ms == b.latest_spike_time_ms
            &&& a.latest_spike_high.equals(b.latest_spike_high)
            &&& a.latest_spike_pct.equals(b.latest_spike_pct)
            &&& a.largest_spike_time_ms == b.largest_spike_time_ms
            &&& a.largest_spike_pct.equals(b.largest_spike_pct)
            &&& a.quiet_period_ms == b.quiet_period_ms
            &&& a.quote_volume_24h.equals(b.quote_volume_24h)
        },
{
}

/// A copy is what it was made of.
pub proof fn law_copies_are_the_same(
    candidate: CandidateResult,
    candidate_copy: CandidateResult,
    config: Config,
    config_copy: Config,
)
    requires
        call_ensures(<CandidateResult as Clone>::clone, (&candidate,), candidate_copy),
        call_ensures(<Config as Clone>::clone, (&config,), config_copy),
    ensures
        candidate_copy == candidate,
        config_copy == config,
{
}

/// A text is as long as its UTF-8 encoding, and two texts one after the other are as long as
/// both together.
pub proof fn law_texts_are_measured_in_bytes(
    text: &str,
    length: usize,
    end: &str,
    end_length: usize,
    whole: &str,
    whole_length: usize,
)
    requires
        call_ensures(byte_len, (text,), length),
        call_ensures(byte_len, (end,), end_length),
        call_ensures(byte_len, (whole,), whole_length),
        whole@ == text@ + end@,
    ensures
        length == encode_utf8(text@).len(),
        whole_length == length + end_length,
{
    text::lemma_byte_length_concat(text@, end@);
}

/// Whether the first characters of a text are digits.
pub open spec fn begins_with_digits(chars: Seq<char>, count: int) -> bool {
    forall|k: int| 0 <= k < count ==> '0' <= #[trigger] chars[k] <= '9'
}

proof fn lemma_value_of(numeral: Seq<char>)
    requires
        begins_with_digits(numeral, numeral.len() as int),
    ensures
        value_of(numeral) == text::numeral_value(numeral),
    decreases numeral.len(),
{
    if numeral.len() > 0 {
        let rest = numeral.drop_last();
        assert forall|k: int| 0 <= k < rest.len() implies '0' <= #[trigger] rest[k] <= '9' by {
            assert('0' <= numeral[k] <= '9');
        }
        lemma_value_of(rest);
        assert('0' <= numeral[numeral.len() - 1] <= '9');
    }
}

/// A text is read from the left, behind a plus sign that has something behind it. Where its
/// digits come to more than 64 bits can hold, it is too large; otherwise the first character
/// that is no digit is invalid; and where there is none, the value is that of the digits.
/// Nothing at all is told as such.
pub proof fn law_numerals_are_read_from_the_left(
    chars: &[char],
    result: Result<u64, NumeralFault>,
    body: Seq<char>,
    count: int,
)
    requires
        call_ensures(read_unsigned, (chars,), result),
        body == (if chars@.len() > 1 && chars@[0] == '+' {
            chars@.skip(1)
        } else {
            chars@
        }),
        0 <= count <= body.len(),
        begins_with_digits(body, count),
    ensures
        chars@.len() == 0 ==> result == Err::<u64, NumeralFault>(NumeralFault::Empty),
        value_of(body.take(count)) > 0xffff_ffff_ffff_ffff ==> result == Err::<u64, NumeralFault>(
            NumeralFault::TooLarge,
        ),
        value_of(body.take(count)) <= 0xffff_ffff_ffff_ffff && count < body.len() && !('0'
            <= body[count] <= '9') ==> result == Err::<u64, NumeralFault>(
            NumeralFault::InvalidDigit,
        ),
        value_of(body.take(count)) <= 0xffff_ffff_ffff_ffff && count == body.len() && count > 0
            ==> (result matches Ok(value) && value == value_of(body)),
{
    assert(body =~= text::without_plus(chars@));
    let digits = body.take(count);
    assert forall|k: int| 0 <= k < count implies text::is_digit(#[trigger] body[k]) by {
        assert('0' <= body[k] <= '9');
    }
    assert forall|k: int| 0 <= k < digits.len() implies '0' <= #[trigger] digits[k] <= '9' by {
        assert('0' <= body[k] <= '9');
    }
    lemma_value_of(digits);
    text::lemma_leading_digits(body, count);
    let run = body.take(text::leading_digits(body) as int);
    assert(run.take(count) =~= digits);
    assert forall|k: int| 0 <= k < run.len() implies text::is_digit(#[trigger] run[k]) by {
        assert(text::is_digit(body[k]));
    }
    text::lemma_value_grows(run, count);
    if count == body.len() {
        assert(digits =~= body);
    }
    if chars@.len() == 0 {
        assert(digits =~= Seq::<char>::empty());
    }
}

} // verus!
