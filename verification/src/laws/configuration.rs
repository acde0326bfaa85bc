//! Which configurations are accepted, what they come to, and where their parts come from.

use crate::config;
use crate::config::{
    candle_interval_secs, check_url, duration_secs, validate_config, Config, ConfigError, ConfigFault,
    ConfigView, ValidatedConfig,
};
use crate::number;
use crate::text;
use crate::text::NumeralFault;
use vstd::prelude::*;

verus! {

/// The times of an accepted configuration are those of its durations and its interval: in
/// milliseconds a thousand times as many as in seconds, and in candles as many as the
/// interval goes into them, without a rest.
pub proof fn law_times_are_those_of_the_durations(
    config: Config,
    dry_run: bool,
    validated: ValidatedConfig,
    window: &str,
    quiet: &str,
    interval: &str,
    window_secs: u64,
    quiet_secs: u64,
    interval_secs: u64,
)
    requires
        config::durations_split(config@),
        window@ == config.rolling_window@,
        quiet@ == config.post_spike_quiet_period@,
        interval@ == config.candle_interval@,
        call_ensures(validate_config, (&config, dry_run), Ok(validated)),
        call_ensures(duration_secs, (window,), Ok(window_secs)),
        call_ensures(duration_secs, (quiet,), Ok(quiet_secs)),
        call_ensures(candle_interval_secs, (interval,), Ok(interval_secs)),
    ensures
        validated.interval_ms == 1000 * interval_secs,
        validated.window_ms == 1000 * window_secs,
        validated.quiet_period_ms == 1000 * quiet_secs,
        validated.window_candles * interval_secs == window_secs,
        validated.quiet_candles * interval_secs == quiet_secs,
{
    config::law_valid_times_are_whole_intervals(config@, dry_run);
    config::lemma_duration_positive(config.post_spike_quiet_period@);
    config::lemma_timing_valid(window_secs, quiet_secs, interval_secs);
    let w = (window_secs / interval_secs) as int;
    let q = (quiet_secs / interval_secs) as int;
    let n = interval_secs as int;
    assert(window_secs == w * n && quiet_secs == q * n) by (nonlinear_arith)
        requires
            window_secs % interval_secs == 0,
            quiet_secs % interval_secs == 0,
            n == interval_secs,
            n > 0,
            w == window_secs / interval_secs,
            q == quiet_secs / interval_secs,
    ;
}

/// Whether a configuration that has these durations is to be accepted.
pub open spec fn is_acceptable(
    config: ConfigView,
    dry_run: bool,
    window_secs: u64,
    quiet_secs: u64,
    interval_secs: u64,
) -> bool {
    let zero = number::pattern(0);
    let hundred = number::pattern(0x4059_0000_0000_0000);
    &&& window_secs % interval_secs == 0
    &&& quiet_secs % interval_secs == 0
    &&& quiet_secs < window_secs
    &&& 20 <= window_secs / interval_secs <= 10_000
    &&& zero.at_most(config.sideways_band_pct) && config.sideways_band_pct.below(hundred)
    &&& zero.below(config.min_sideways_closes_pct) && config.min_sideways_closes_pct.at_most(
        hundred,
    )
    &&& !config.positive_spike_pct.at_most(config.sideways_band_pct)
    &&& config.min_quote_volume_24h.finite() && zero.at_most(config.min_quote_volume_24h)
    &&& config.max_quote_volume_24h.finite() && config.min_quote_volume_24h.at_most(
        config.max_quote_volume_24h,
    )
    &&& config.symbol_refresh_secs > 0
    &&& config.healthcheck_url != ""@ ==> config::parsed_url(config.healthcheck_url) == Ok::<
        Seq<char>,
        Seq<char>,
    >("http"@) || config::parsed_url(config.healthcheck_url) == Ok::<Seq<char>, Seq<char>>(
        "https"@,
    )
    &&& !dry_run ==> config.telegram_token != ""@ && config.telegram_chat_id != ""@
}

/// A configuration is accepted if and only if its durations and its interval can be read
/// and it is acceptable with them.
pub proof fn law_acceptable_configurations_are_accepted(
    config: Config,
    dry_run: bool,
    result: Result<ValidatedConfig, ConfigError>,
    window: &str,
    quiet: &str,
    interval: &str,
    window_secs: Result<u64, ConfigError>,
    quiet_secs: Result<u64, ConfigError>,
    interval_secs: Result<u64, ConfigError>,
)
    requires
        config::durations_split(config@),
        config::splits_before_unit(config.post_spike_quiet_period@),
        window@ == config.rolling_window@,
        quiet@ == config.post_spike_quiet_period@,
        interval@ == config.candle_interval@,
        call_ensures(validate_config, (&config, dry_run), result),
        call_ensures(duration_secs, (window,), window_secs),
        call_ensures(duration_secs, (quiet,), quiet_secs),
        call_ensures(candle_interval_secs, (interval,), interval_secs),
    ensures
        result is Ok <==> window_secs is Ok && quiet_secs is Ok && interval_secs is Ok
            && is_acceptable(
            config@,
            dry_run,
            window_secs->Ok_0,
            quiet_secs->Ok_0,
            interval_secs->Ok_0,
        ),
{
    lemma_empty(config@.healthcheck_url);
    lemma_empty(config@.telegram_token);
    lemma_empty(config@.telegram_chat_id);
}

/// The empty text is the one without characters.
proof fn lemma_empty(chars: Seq<char>)
    ensures
        chars == ""@ <==> chars.len() == 0,
{
    reveal_strlit("");
    if chars.len() == 0 {
        assert(chars =~= ""@);
    }
}

/// Which fault is reported of a configuration that has several: the first one in the order
/// of durations, interval, times, percentages, volumes, refresh, URL and credentials.
pub proof fn law_first_fault_is_reported(
    config: ConfigView,
    dry_run: bool,
    window_secs: u64,
    quiet_secs: u64,
    interval_secs: u64,
)
    requires
        config::duration(config.rolling_window) == Ok::<u64, ConfigFault>(window_secs),
        config::duration(config.post_spike_quiet_period) == Ok::<u64, ConfigFault>(quiet_secs),
        config::interval_length(config.candle_interval) == Ok::<u64, ConfigFault>(interval_secs),
    ensures
        ({
            let zero = number::pattern(0);
            let hundred = number::pattern(0x4059_0000_0000_0000);
            let candles = window_secs / interval_secs;
            let url = config::parsed_url(config.healthcheck_url);
            let fault = config::validation(config, dry_run);
            if window_secs % interval_secs != 0 {
                fault == Err::<ValidatedConfig, ConfigFault>(ConfigFault::WindowNotDivisible)
            } else if quiet_secs % interval_secs != 0 {
                fault == Err::<ValidatedConfig, ConfigFault>(ConfigFault::QuietPeriodNotDivisible)
            } else if quiet_secs >= window_secs {
                fault == Err::<ValidatedConfig, ConfigFault>(ConfigFault::QuietPeriodTooLong)
            } else if candles > usize::MAX {
                fault == Err::<ValidatedConfig, ConfigFault>(ConfigFault::CountOutOfRange)
            } else if candles < 20 || candles > 10_000 {
                fault == Err::<ValidatedConfig, ConfigFault>(
                    ConfigFault::WindowSize(candles as usize),
                )
            } else if !(zero.at_most(config.sideways_band_pct) && config.sideways_band_pct.below(
                hundred,
            )) {
                fault == Err::<ValidatedConfig, ConfigFault>(ConfigFault::BandRange)
            } else if !(zero.below(config.min_sideways_closes_pct)
                && config.min_sideways_closes_pct.at_most(hundred)) {
                fault == Err::<ValidatedConfig, ConfigFault>(ConfigFault::MinClosesRange)
            } else if config.positive_spike_pct.at_most(config.sideways_band_pct) {
                fault == Err::<ValidatedConfig, ConfigFault>(ConfigFault::SpikeNotAboveBand)
            } else if !(config.min_quote_volume_24h.finite() && zero.at_most(
                config.min_quote_volume_24h,
            )) {
                fault == Err::<ValidatedConfig, ConfigFault>(ConfigFault::MinVolume)
            } else if !(config.max_quote_volume_24h.finite()
                && config.min_quote_volume_24h.at_most(config.max_quote_volume_24h)) {
                fault == Err::<ValidatedConfig, ConfigFault>(ConfigFault::MaxVolume)
            } else if config.symbol_refresh_secs == 0 {
                fault == Err::<ValidatedConfig, ConfigFault>(ConfigFault::RefreshInterval)
            } else if config.healthcheck_url.len() > 0 && url is Err {
                fault == Err::<ValidatedConfig, ConfigFault>(
                    ConfigFault::HealthcheckUrl(url->Err_0),
                )
            } else if config.healthcheck_url.len() > 0 && url->Ok_0 != "http"@ && url->Ok_0
                != "https"@ {
                fault == Err::<ValidatedConfig, ConfigFault>(ConfigFault::HealthcheckScheme)
            } else if !dry_run && (config.telegram_token.len() == 0
                || config.telegram_chat_id.len() == 0) {
                fault == Err::<ValidatedConfig, ConfigFault>(ConfigFault::MissingCredentials)
            } else {
                fault is Ok
            }
        }),
{
}

/// A fault in a duration or in the interval is reported before any other: that of the
/// window before that of the quiet period, and that before that of the interval.
pub proof fn law_unreadable_times_come_first(config: ConfigView, dry_run: bool)
    ensures
        ({
            let window = config::duration(config.rolling_window);
            let quiet = config::duration(config.post_spike_quiet_period);
            let interval = config::interval_length(config.candle_interval);
            let result = config::validation(config, dry_run);
            &&& window is Err ==> result is Err && result->Err_0 == window->Err_0
            &&& window is Ok && quiet is Err ==> result is Err && result->Err_0 == quiet->Err_0
            &&& window is Ok && quiet is Ok && interval is Err ==> result is Err && result->Err_0
                == interval->Err_0
        }),
{
}

/// A number of zeros.
pub open spec fn zeros(count: nat) -> Seq<char> {
    Seq::new(count, |i: int| '0')
}

/// Digits are a number of zeros and the numeral of their value.
proof fn lemma_digits_are_a_numeral(chars: Seq<char>) -> (count: nat)
    requires
        chars.len() > 0,
        forall|i: int| 0 <= i < chars.len() ==> '0' <= #[trigger] chars[i] <= '9',
    ensures
        chars == zeros(count) + text::digits(text::numeral_value(chars)),
    decreases chars.len(),
{
    let rest = chars.drop_last();
    let last = chars.last();
    assert('0' <= chars[chars.len() - 1] <= '9');
    let low = last as int - 48;
    assert(text::digit(low) == last);
    if rest.len() == 0 {
        assert(text::numeral_value(rest) == 0);
        assert(text::numeral_value(chars) == low);
        assert(chars =~= zeros(0) + text::digits(low as nat));
        0
    } else {
        assert forall|i: int| 0 <= i < rest.len() implies '0' <= #[trigger] rest[i] <= '9' by {
            assert('0' <= chars[i] <= '9');
        }
        let count = lemma_digits_are_a_numeral(rest);
        let value = text::numeral_value(rest);
        assert(text::numeral_value(chars) == value * 10 + low);
        assert(chars =~= rest.push(last));
        if value == 0 {
            assert(text::digits(0) =~= seq!['0']);
            assert(chars =~= zeros(count + 1) + text::digits(low as nat));
            count + 1
        } else {
            let whole = (value * 10 + low) as nat;
            assert(whole / 10 == value && whole % 10 == low);
            assert(text::digits(whole) == text::digits(value).push(last));
            assert(chars =~= zeros(count) + text::digits(whole));
            count
        }
    }
}

/// What is read as an integer is its numeral, with nothing before it but zeros and one plus
/// sign at most.
pub proof fn law_only_numerals_are_read(chars: Seq<char>, value: u64)
    requires
        text::unsigned_numeral(chars) == Ok::<u64, NumeralFault>(value),
    ensures
        exists|count: nat|
            chars == #[trigger] zeros(count) + text::decimal(value as int) || chars == seq!['+']
                + zeros(count) + text::decimal(value as int),
{
    let body = text::without_plus(chars);
    text::lemma_leading_digits(body, 0);
    let run = body.take(text::leading_digits(body) as int);
    assert(run =~= body);
    assert forall|i: int| 0 <= i < body.len() implies '0' <= #[trigger] body[i] <= '9' by {
        assert(text::is_digit(body[i]));
    }
    let count = lemma_digits_are_a_numeral(body);
    if body != chars {
        assert(chars =~= seq!['+'] + body);
        assert(seq!['+'] + zeros(count) + text::decimal(value as int) =~= seq!['+'] + (zeros(count)
            + text::decimal(value as int)));
    }
    assert(zeros(count) + text::decimal(value as int) == body);
}

/// The units of time, in seconds.
pub open spec fn secs_of(unit: char) -> nat {
    if unit == 'm' {
        60
    } else if unit == 'h' {
        60 * 60
    } else if unit == 'd' {
        24 * 60 * 60
    } else {
        7 * 24 * 60 * 60
    }
}

/// A duration that is read is a positive integer and one of the units minute, hour, day and
/// week; it has so many seconds as that makes.
pub proof fn law_durations_are_amounts_of_units(value: &str, secs: u64)
    requires
        config::splits_before_unit(value@),
        call_ensures(duration_secs, (value,), Ok(secs)),
    ensures
        value@.len() >= 2,
        exists|amount: u64|
            amount > 0 && #[trigger] text::unsigned_numeral(value@.drop_last()) == Ok::<
                u64,
                NumeralFault,
            >(amount) && secs == amount * secs_of(value@.last()),
        value@.last() == 'm' || value@.last() == 'h' || value@.last() == 'd' || value@.last()
            == 'w',
{
    config::lemma_short_text(value@);
    let amount = text::unsigned_numeral(value@.drop_last())->Ok_0;
    assert(text::unsigned_numeral(value@.drop_last()) == Ok::<u64, NumeralFault>(amount));
}

/// Every positive integer with a unit behind it is a duration, unless it has more seconds
/// than can be counted.
pub proof fn law_amounts_of_units_are_durations(amount: u64, unit: char, value: Seq<char>)
    requires
        amount > 0,
        unit == 'm' || unit == 'h' || unit == 'd' || unit == 'w',
        value == text::decimal(amount as int).push(unit),
    ensures
        amount * secs_of(unit) <= u64::MAX ==> config::duration(value) == Ok::<u64, ConfigFault>(
            (amount * secs_of(unit)) as u64,
        ),
        amount * secs_of(unit) > u64::MAX ==> config::duration(value) == Err::<u64, ConfigFault>(
            ConfigFault::DurationTooLarge(value),
        ),
{
    let numeral = text::decimal(amount as int);
    text::law_numerals_are_read_back(amount);
    text::lemma_digits_value(amount as nat);
    assert(value.drop_last() =~= numeral);
    config::lemma_ascii_bytes(numeral, unit);
}

/// Why a duration is refused: it is too short, its amount cannot be read, its amount is
/// zero, its unit is none, or it is too long.
pub proof fn law_refused_durations_are_told_why(value: Seq<char>)
    ensures
        ({
            let amount = text::unsigned_numeral(value.drop_last());
            let unit = value.last();
            let known = unit == 'm' || unit == 'h' || unit == 'd' || unit == 'w';
            let result = config::duration(value);
            if text::byte_length(value) < 2 {
                result == Err::<u64, ConfigFault>(ConfigFault::InvalidDuration(value))
            } else if amount is Err {
                result == Err::<u64, ConfigFault>(ConfigFault::MalformedAmount(amount->Err_0))
            } else if amount->Ok_0 == 0 {
                result == Err::<u64, ConfigFault>(ConfigFault::ZeroDuration(value))
            } else if !known {
                result == Err::<u64, ConfigFault>(ConfigFault::UnknownUnit(value))
            } else if amount->Ok_0 * secs_of(unit) > u64::MAX {
                result == Err::<u64, ConfigFault>(ConfigFault::DurationTooLarge(value))
            } else {
                result is Ok
            }
        }),
{
}

/// The intervals that can be used and their seconds.
pub open spec fn is_interval(interval: Seq<char>, secs: u64) -> bool {
    ||| interval == "1s"@ && secs == 1
    ||| interval == "1m"@ && secs == 60
    ||| interval == "3m"@ && secs == 3 * 60
    ||| interval == "5m"@ && secs == 5 * 60
    ||| interval == "15m"@ && secs == 15 * 60
    ||| interval == "30m"@ && secs == 30 * 60
    ||| interval == "1h"@ && secs == 60 * 60
    ||| interval == "2h"@ && secs == 2 * 60 * 60
    ||| interval == "4h"@ && secs == 4 * 60 * 60
    ||| interval == "6h"@ && secs == 6 * 60 * 60
    ||| interval == "8h"@ && secs == 8 * 60 * 60
    ||| interval == "12h"@ && secs == 12 * 60 * 60
    ||| interval == "1d"@ && secs == 24 * 60 * 60
    ||| interval == "3d"@ && secs == 3 * 24 * 60 * 60
    ||| interval == "1w"@ && secs == 7 * 24 * 60 * 60
}

/// An interval is accepted if and only if it is one of those that can be used, with its own
/// length.
pub proof fn law_intervals_have_their_lengths(
    interval: &str,
    result: Result<u64, ConfigError>,
    secs: u64,
)
    requires
        call_ensures(candle_interval_secs, (interval,), result),
    ensures
        result matches Ok(found) ==> is_interval(interval@, found),
        is_interval(interval@, secs) ==> result == Ok::<u64, ConfigError>(secs),
        result matches Err(error) ==> error@ == (if interval@ == "1M"@ {
            ConfigFault::MonthInterval
        } else {
            ConfigFault::UnsupportedInterval(interval@)
        }),
{
    reveal_strlit("1s");
    assert("1s"@.len() == 2 && "1s"@[0] == '1' && "1s"@[1] == 's');
    reveal_strlit("1m");
    assert("1m"@.len() == 2 && "1m"@[0] == '1' && "1m"@[1] == 'm');
    reveal_strlit("3m");
    assert("3m"@.len() == 2 && "3m"@[0] == '3' && "3m"@[1] == 'm');
    reveal_strlit("5m");
    assert("5m"@.len() == 2 && "5m"@[0] == '5' && "5m"@[1] == 'm');
    reveal_strlit("15m");
    assert("15m"@.len() == 3 && "15m"@[0] == '1' && "15m"@[1] == '5' && "15m"@[2] == 'm');
    reveal_strlit("30m");
    assert("30m"@.len() == 3 && "30m"@[0] == '3' && "30m"@[1] == '0' && "30m"@[2] == 'm');
    reveal_strlit("1h");
    assert("1h"@.len() == 2 && "1h"@[0] == '1' && "1h"@[1] == 'h');
    reveal_strlit("2h");
    assert("2h"@.len() == 2 && "2h"@[0] == '2' && "2h"@[1] == 'h');
    reveal_strlit("4h");
    assert("4h"@.len() == 2 && "4h"@[0] == '4' && "4h"@[1] == 'h');
    reveal_strlit("6h");
    assert("6h"@.len() == 2 && "6h"@[0] == '6' && "6h"@[1] == 'h');
    reveal_strlit("8h");
    assert("8h"@.len() == 2 && "8h"@[0] == '8' && "8h"@[1] == 'h');
    reveal_strlit("12h");
    assert("12h"@.len() == 3 && "12h"@[0] == '1' && "12h"@[1] == '2' && "12h"@[2] == 'h');
    reveal_strlit("1d");
    assert("1d"@.len() == 2 && "1d"@[0] == '1' && "1d"@[1] == 'd');
    reveal_strlit("3d");
    assert("3d"@.len() == 2 && "3d"@[0] == '3' && "3d"@[1] == 'd');
    reveal_strlit("1w");
    assert("1w"@.len() == 2 && "1w"@[0] == '1' && "1w"@[1] == 'w');
    reveal_strlit("1M");
    assert("1M"@.len() == 2 && "1M"@[0] == '1' && "1M"@[1] == 'M');
}

/// A healthcheck address is accepted if and only if it is a URL with the scheme http or
/// https. Why it is none is handed on.
pub proof fn law_healthcheck_addresses_are_urls(
    parsed: Result<String, String>,
    result: Result<(), ConfigError>,
)
    requires
        call_ensures(check_url, (parsed,), result),
    ensures
        match parsed {
            Ok(scheme) => if scheme@ == "http"@ || scheme@ == "https"@ {
                result is Ok
            } else {
                result matches Err(ConfigError::HealthcheckScheme)
            },
            Err(reason) => result matches Err(ConfigError::HealthcheckUrl(told)) && told@
                == reason@,
        },
{
}

/// Two configurations are equal if and only if all their settings are, texts by their
/// characters and numbers as numbers.
pub proof fn law_configurations_are_compared(a: Config, b: Config, result: bool)
    requires
        call_ensures(<Config as PartialEq>::eq, (&a, &b), result),
    ensures
        result <==> {
            &&& a.rolling_window@ == b.rolling_window@
            &&& a.candle_interval@ == b.candle_interval@
            &&& a.sideways_band_pct.equals(b.sideways_band_pct)
            &&& a.min_sideways_closes_pct.equals(b.min_sideways_closes_pct)
            &&& a.positive_spike_pct.equals(b.positive_spike_pct)
            &&& a.post_spike_quiet_period@ == b.post_spike_quiet_period@
            &&& a.min_quote_volume_24h.equals(b.min_quote_volume_24h)
            &&& a.max_quote_volume_24h.equals(b.max_quote_volume_24h)
            &&& a.symbol_refresh_secs == b.symbol_refresh_secs
            &&& a.telegram_token@ == b.telegram_token@
            &&& a.telegram_chat_id@ == b.telegram_chat_id@
            &&& a.healthcheck_url@ == b.healthcheck_url@
        },
{
}

} // verus!
