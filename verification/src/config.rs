//! Configuration: its parts, where they come from and when they are valid.

use crate::number;
use crate::number::{Number, HUNDRED_BITS};
use crate::text;
use crate::text::{byte_len, chars_of, decimal_text, read_unsigned, same_text, NumeralFault};
use vstd::prelude::*;
use vstd::string::*;

verus! {

/// The bit pattern of 95.
pub const NINETY_FIVE_BITS: u64 = 0x4057_c000_0000_0000;

/// The bit pattern of 5.
pub const FIVE_BITS: u64 = 0x4014_0000_0000_0000;

/// The bit pattern of a hundred million.
pub const HUNDRED_MILLION_BITS: u64 = 0x4197_d784_0000_0000;

/// The bit pattern of a thousand million.
pub const THOUSAND_MILLION_BITS: u64 = 0x41cd_cd65_0000_0000;

/// The fewest candles that a window may have.
pub const MIN_WINDOW_CANDLES: usize = 20;

/// The most candles that a window may have.
pub const MAX_WINDOW_CANDLES: usize = 10_000;

/// What the scanner is told: what to look for, where, and whom to tell.
#[derive(Debug)]
pub struct Config {
    pub rolling_window: String,
    pub candle_interval: String,
    pub sideways_band_pct: Number,
    pub min_sideways_closes_pct: Number,
    pub positive_spike_pct: Number,
    pub post_spike_quiet_period: String,
    pub min_quote_volume_24h: Number,
    pub max_quote_volume_24h: Number,
    pub symbol_refresh_secs: u64,
    pub telegram_token: String,
    pub telegram_chat_id: String,
    pub healthcheck_url: String,
}

/// The contents of a [`Config`].
pub struct ConfigView {
    pub rolling_window: Seq<char>,
    pub candle_interval: Seq<char>,
    pub sideways_band_pct: Number,
    pub min_sideways_closes_pct: Number,
    pub positive_spike_pct: Number,
    pub post_spike_quiet_period: Seq<char>,
    pub min_quote_volume_24h: Number,
    pub max_quote_volume_24h: Number,
    pub symbol_refresh_secs: u64,
    pub telegram_token: Seq<char>,
    pub telegram_chat_id: Seq<char>,
    pub healthcheck_url: Seq<char>,
}

impl View for Config {
    type V = ConfigView;

    open spec fn view(&self) -> ConfigView {
        ConfigView {
            rolling_window: self.rolling_window@,
            candle_interval: self.candle_interval@,
            sideways_band_pct: self.sideways_band_pct,
            min_sideways_closes_pct: self.min_sideways_closes_pct,
            positive_spike_pct: self.positive_spike_pct,
            post_spike_quiet_period: self.post_spike_quiet_period@,
            min_quote_volume_24h: self.min_quote_volume_24h,
            max_quote_volume_24h: self.max_quote_volume_24h,
            symbol_refresh_secs: self.symbol_refresh_secs,
            telegram_token: self.telegram_token@,
            telegram_chat_id: self.telegram_chat_id@,
            healthcheck_url: self.healthcheck_url@,
        }
    }
}

impl PartialEq for Config {
    fn eq(&self, other: &Self) -> (result: bool) {
        same_text(self.rolling_window.as_str(), other.rolling_window.as_str())
            && same_text(self.candle_interval.as_str(), other.candle_interval.as_str())
            && self.sideways_band_pct.is_equal(other.sideways_band_pct)
            && self.min_sideways_closes_pct.is_equal(other.min_sideways_closes_pct)
            && self.positive_spike_pct.is_equal(other.positive_spike_pct)
            && same_text(self.post_spike_quiet_period.as_str(), other.post_spike_quiet_period.as_str())
            && self.min_quote_volume_24h.is_equal(other.min_quote_volume_24h)
            && self.max_quote_volume_24h.is_equal(other.max_quote_volume_24h)
            && self.symbol_refresh_secs == other.symbol_refresh_secs
            && same_text(self.telegram_token.as_str(), other.telegram_token.as_str())
            && same_text(self.telegram_chat_id.as_str(), other.telegram_chat_id.as_str())
            && same_text(self.healthcheck_url.as_str(), other.healthcheck_url.as_str())
    }
}

/// `==` compares field by field, numbers by numeric equality.
impl vstd::std_specs::cmp::PartialEqSpecImpl for Config {
    open spec fn obeys_eq_spec() -> bool {
        true
    }

    open spec fn eq_spec(&self, other: &Self) -> bool {
        &&& self@.rolling_window == other@.rolling_window
        &&& self@.candle_interval == other@.candle_interval
        &&& self.sideways_band_pct.equals(other.sideways_band_pct)
        &&& self.min_sideways_closes_pct.equals(other.min_sideways_closes_pct)
        &&& self.positive_spike_pct.equals(other.positive_spike_pct)
        &&& self@.post_spike_quiet_period == other@.post_spike_quiet_period
        &&& self.min_quote_volume_24h.equals(other.min_quote_volume_24h)
        &&& self.max_quote_volume_24h.equals(other.max_quote_volume_24h)
        &&& self.symbol_refresh_secs == other.symbol_refresh_secs
        &&& self@.telegram_token == other@.telegram_token
        &&& self@.telegram_chat_id == other@.telegram_chat_id
        &&& self@.healthcheck_url == other@.healthcheck_url
    }
}

impl Clone for Config {
    fn clone(&self) -> (result: Self)
        ensures
            result == *self,
    {
        Config {
            rolling_window: self.rolling_window.clone(),
            candle_interval: self.candle_interval.clone(),
            sideways_band_pct: self.sideways_band_pct,
            min_sideways_closes_pct: self.min_sideways_closes_pct,
            positive_spike_pct: self.positive_spike_pct,
            post_spike_quiet_period: self.post_spike_quiet_period.clone(),
            min_quote_volume_24h: self.min_quote_volume_24h,
            max_quote_volume_24h: self.max_quote_volume_24h,
            symbol_refresh_secs: self.symbol_refresh_secs,
            telegram_token: self.telegram_token.clone(),
            telegram_chat_id: self.telegram_chat_id.clone(),
            healthcheck_url: self.healthcheck_url.clone(),
        }
    }
}

/// The configuration without any file or option.
pub open spec fn default_config() -> ConfigView {
    ConfigView {
        rolling_window: "30d"@,
        candle_interval: "1h"@,
        sideways_band_pct: number::pattern(number::TWO_BITS),
        min_sideways_closes_pct: number::pattern(NINETY_FIVE_BITS),
        positive_spike_pct: number::pattern(FIVE_BITS),
        post_spike_quiet_period: "3d"@,
        min_quote_volume_24h: number::pattern(HUNDRED_MILLION_BITS),
        max_quote_volume_24h: number::pattern(THOUSAND_MILLION_BITS),
        symbol_refresh_secs: 900,
        telegram_token: ""@,
        telegram_chat_id: ""@,
        healthcheck_url: ""@,
    }
}

impl Default for Config {
    fn default() -> (result: Self)
        ensures
            result@ == default_config(),
    {
        Config {
            rolling_window: "30d".to_owned(),
            candle_interval: "1h".to_owned(),
            sideways_band_pct: Number::from_bits(number::TWO_BITS),
            min_sideways_closes_pct: Number::from_bits(NINETY_FIVE_BITS),
            positive_spike_pct: Number::from_bits(FIVE_BITS),
            post_spike_quiet_period: "3d".to_owned(),
            min_quote_volume_24h: Number::from_bits(HUNDRED_MILLION_BITS),
            max_quote_volume_24h: Number::from_bits(THOUSAND_MILLION_BITS),
            symbol_refresh_secs: 900,
            telegram_token: "".to_owned(),
            telegram_chat_id: "".to_owned(),
            healthcheck_url: "".to_owned(),
        }
    }
}

/// The times of a valid configuration, in candles and in milliseconds.
#[derive(Clone, Copy, PartialEq, Eq, Structural, Debug)]
pub struct ValidatedConfig {
    pub window_candles: usize,
    pub quiet_candles: usize,
    pub interval_ms: i64,
    pub window_ms: i64,
    pub quiet_period_ms: i64,
}

impl ValidatedConfig {
    /// Window and quiet period are whole numbers of intervals, the quiet period is
    /// the shorter one, and the window has a permitted number of candles.
    pub open spec fn valid(self) -> bool {
        &&& MIN_WINDOW_CANDLES <= self.window_candles <= MAX_WINDOW_CANDLES
        &&& 0 < self.quiet_candles < self.window_candles
        &&& 0 < self.interval_ms
        &&& self.window_ms == self.window_candles * self.interval_ms
        &&& self.quiet_period_ms == self.quiet_candles * self.interval_ms
    }
}

/// Why a configuration is not valid.
#[derive(PartialEq, Eq, Debug)]
pub enum ConfigError {
    InvalidDuration(String),
    MalformedAmount(NumeralFault),
    ZeroDuration(String),
    UnknownUnit(String),
    DurationTooLarge(String),
    MonthInterval,
    UnsupportedInterval(String),
    WindowNotDivisible,
    QuietPeriodNotDivisible,
    QuietPeriodTooLong,
    CountOutOfRange,
    WindowSize(usize),
    BandRange,
    MinClosesRange,
    SpikeNotAboveBand,
    MinVolume,
    MaxVolume,
    RefreshInterval,
    HealthcheckUrl(String),
    HealthcheckScheme,
    MissingCredentials,
}

/// The contents of a [`ConfigError`].
pub enum ConfigFault {
    InvalidDuration(Seq<char>),
    MalformedAmount(NumeralFault),
    ZeroDuration(Seq<char>),
    UnknownUnit(Seq<char>),
    DurationTooLarge(Seq<char>),
    MonthInterval,
    UnsupportedInterval(Seq<char>),
    WindowNotDivisible,
    QuietPeriodNotDivisible,
    QuietPeriodTooLong,
    CountOutOfRange,
    WindowSize(usize),
    BandRange,
    MinClosesRange,
    SpikeNotAboveBand,
    MinVolume,
    MaxVolume,
    RefreshInterval,
    HealthcheckUrl(Seq<char>),
    HealthcheckScheme,
    MissingCredentials,
}

impl View for ConfigError {
    type V = ConfigFault;

    open spec fn view(&self) -> ConfigFault {
        match self {
            ConfigError::InvalidDuration(value) => ConfigFault::InvalidDuration(value@),
            ConfigError::MalformedAmount(fault) => ConfigFault::MalformedAmount(*fault),
            ConfigError::ZeroDuration(value) => ConfigFault::ZeroDuration(value@),
            ConfigError::UnknownUnit(value) => ConfigFault::UnknownUnit(value@),
            ConfigError::DurationTooLarge(value) => ConfigFault::DurationTooLarge(value@),
            ConfigError::MonthInterval => ConfigFault::MonthInterval,
            ConfigError::UnsupportedInterval(value) => ConfigFault::UnsupportedInterval(value@),
            ConfigError::WindowNotDivisible => ConfigFault::WindowNotDivisible,
            ConfigError::QuietPeriodNotDivisible => ConfigFault::QuietPeriodNotDivisible,
            ConfigError::QuietPeriodTooLong => ConfigFault::QuietPeriodTooLong,
            ConfigError::CountOutOfRange => ConfigFault::CountOutOfRange,
            ConfigError::WindowSize(candles) => ConfigFault::WindowSize(*candles),
            ConfigError::BandRange => ConfigFault::BandRange,
            ConfigError::MinClosesRange => ConfigFault::MinClosesRange,
            ConfigError::SpikeNotAboveBand => ConfigFault::SpikeNotAboveBand,
            ConfigError::MinVolume => ConfigFault::MinVolume,
            ConfigError::MaxVolume => ConfigFault::MaxVolume,
            ConfigError::RefreshInterval => ConfigFault::RefreshInterval,
            ConfigError::HealthcheckUrl(reason) => ConfigFault::HealthcheckUrl(reason@),
            ConfigError::HealthcheckScheme => ConfigFault::HealthcheckScheme,
            ConfigError::MissingCredentials => ConfigFault::MissingCredentials,
        }
    }
}

impl ConfigFault {
    /// The fault in words.
    pub open spec fn words(self) -> Seq<char> {
        match self {
            ConfigFault::InvalidDuration(value) => "invalid duration: "@ + value,
            ConfigFault::MalformedAmount(fault) => fault.words(),
            ConfigFault::ZeroDuration(value) => "duration must be positive: "@ + value,
            ConfigFault::UnknownUnit(value) => "unsupported duration unit in "@ + value
                + "; use m, h, d or w"@,
            ConfigFault::DurationTooLarge(value) => "duration is too large: "@ + value,
            ConfigFault::MonthInterval =>
                "candle interval 1M is unsupported because calendar months vary in length"@,
            ConfigFault::UnsupportedInterval(value) => "unsupported Binance candle interval: "@
                + value,
            ConfigFault::WindowNotDivisible =>
                "rolling_window must be exactly divisible by candle_interval"@,
            ConfigFault::QuietPeriodNotDivisible =>
                "post_spike_quiet_period must be exactly divisible by candle_interval"@,
            ConfigFault::QuietPeriodTooLong =>
                "post_spike_quiet_period must be shorter than rolling_window"@,
            ConfigFault::CountOutOfRange => "out of range integral type conversion attempted"@,
            ConfigFault::WindowSize(candles) =>
                "rolling window must contain between 20 and 10000 candles, got "@ + text::decimal(
                candles as int,
            ),
            ConfigFault::BandRange => "sideways_band_pct must be at least 0 and below 100"@,
            ConfigFault::MinClosesRange =>
                "min_sideways_closes_pct must be above 0 and at most 100"@,
            ConfigFault::SpikeNotAboveBand =>
                "positive_spike_pct must be greater than sideways_band_pct"@,
            ConfigFault::MinVolume =>
                "min_quote_volume_24h must be a finite, non-negative number"@,
            ConfigFault::MaxVolume =>
                "max_quote_volume_24h must be finite and greater than or equal to min_quote_volume_24h"@,
            ConfigFault::RefreshInterval => "symbol_refresh_secs must be at least 1"@,
            ConfigFault::HealthcheckUrl(reason) => "invalid healthcheck_url: "@ + reason,
            ConfigFault::HealthcheckScheme => "healthcheck_url must use http or https"@,
            ConfigFault::MissingCredentials =>
                "missing Telegram credentials; set TELEGRAM_BOT_TOKEN and TELEGRAM_CHAT_ID or use --dry-run"@,
        }
    }
}

impl ConfigError {
    /// The error in words.
    pub fn message(&self) -> (result: String)
        ensures
            result@ == self@.words(),
    {
        match self {
            ConfigError::InvalidDuration(value) => "invalid duration: ".to_owned().concat(
                value.as_str(),
            ),
            ConfigError::MalformedAmount(fault) => fault.message(),
            ConfigError::ZeroDuration(value) => "duration must be positive: ".to_owned().concat(
                value.as_str(),
            ),
            ConfigError::UnknownUnit(value) => "unsupported duration unit in ".to_owned().concat(
                value.as_str(),
            ).concat("; use m, h, d or w"),
            ConfigError::DurationTooLarge(value) => "duration is too large: ".to_owned().concat(
                value.as_str(),
            ),
            ConfigError::MonthInterval =>
                "candle interval 1M is unsupported because calendar months vary in length".to_owned(),
            ConfigError::UnsupportedInterval(value) =>
                "unsupported Binance candle interval: ".to_owned().concat(value.as_str()),
            ConfigError::WindowNotDivisible =>
                "rolling_window must be exactly divisible by candle_interval".to_owned(),
            ConfigError::QuietPeriodNotDivisible =>
                "post_spike_quiet_period must be exactly divisible by candle_interval".to_owned(),
            ConfigError::QuietPeriodTooLong =>
                "post_spike_quiet_period must be shorter than rolling_window".to_owned(),
            ConfigError::CountOutOfRange =>
                "out of range integral type conversion attempted".to_owned(),
            ConfigError::WindowSize(candles) =>
                "rolling window must contain between 20 and 10000 candles, got ".to_owned().concat(
                decimal_text(*candles as i128).as_str(),
            ),
            ConfigError::BandRange =>
                "sideways_band_pct must be at least 0 and below 100".to_owned(),
            ConfigError::MinClosesRange =>
                "min_sideways_closes_pct must be above 0 and at most 100".to_owned(),
            ConfigError::SpikeNotAboveBand =>
                "positive_spike_pct must be greater than sideways_band_pct".to_owned(),
            ConfigError::MinVolume =>
                "min_quote_volume_24h must be a finite, non-negative number".to_owned(),
            ConfigError::MaxVolume =>
                "max_quote_volume_24h must be finite and greater than or equal to min_quote_volume_24h".to_owned(),
            ConfigError::RefreshInterval => "symbol_refresh_secs must be at least 1".to_owned(),
            ConfigError::HealthcheckUrl(reason) => "invalid healthcheck_url: ".to_owned().concat(
                reason.as_str(),
            ),
            ConfigError::HealthcheckScheme => "healthcheck_url must use http or https".to_owned(),
            ConfigError::MissingCredentials =>
                "missing Telegram credentials; set TELEGRAM_BOT_TOKEN and TELEGRAM_CHAT_ID or use --dry-run".to_owned(),
        }
    }
}

/// The seconds of a unit of duration.
pub open spec fn unit_secs(unit: char) -> Option<u64> {
    if unit == 'm' {
        Some(60)
    } else if unit == 'h' {
        Some(3_600)
    } else if unit == 'd' {
        Some(86_400)
    } else if unit == 'w' {
        Some(604_800)
    } else {
        None
    }
}

/// Whether the last byte of a text of two bytes or more is a character of its own.
pub open spec fn splits_before_unit(value: Seq<char>) -> bool {
    text::byte_length(value) < 2 || value.last() <= '\u{7f}'
}

/// The seconds of a duration such as `30d`: a positive amount and a unit.
pub open spec fn duration(value: Seq<char>) -> Result<u64, ConfigFault> {
    if text::byte_length(value) < 2 {
        Err(ConfigFault::InvalidDuration(value))
    } else {
        match text::unsigned_numeral(value.drop_last()) {
            Err(fault) => Err(ConfigFault::MalformedAmount(fault)),
            Ok(amount) => {
                if amount == 0 {
                    Err(ConfigFault::ZeroDuration(value))
                } else {
                    match unit_secs(value.last()) {
                        None => Err(ConfigFault::UnknownUnit(value)),
                        Some(secs) => if amount * secs > u64::MAX {
                            Err(ConfigFault::DurationTooLarge(value))
                        } else {
                            Ok((amount * secs) as u64)
                        },
                    }
                }
            },
        }
    }
}

/// No character stands before the null character.
proof fn lemma_lowest_char(c: char)
    ensures
        '\0' <= c,
{
}

/// A text of one ASCII character has one byte, and an empty one has none.
pub proof fn lemma_short_text(value: Seq<char>)
    requires
        text::byte_length(value) >= 2,
        value.last() <= '\u{7f}',
    ensures
        value.len() >= 2,
{
    if value.len() < 2 {
        assert forall|i: int| 0 <= i < value.len() implies '\0' <= #[trigger] value[i]
            <= '\u{7f}' by {
            lemma_lowest_char(value[i]);
        }
        vstd::utf8::is_ascii_chars_encode_utf8(value);
    }
}

/// The seconds of a duration such as `30d`.
pub fn duration_secs(value: &str) -> (result: Result<u64, ConfigError>)
    requires
        splits_before_unit(value@),
    ensures
        match result {
            Ok(secs) => duration(value@) == Ok::<u64, ConfigFault>(secs),
            Err(error) => duration(value@) == Err::<u64, ConfigFault>(error@),
        },
{
    if byte_len(value) < 2 {
        return Err(ConfigError::InvalidDuration(value.to_owned()));
    }
    let chars = chars_of(value);
    proof {
        lemma_short_text(value@);
    }
    let (head, tail) = chars.as_slice().split_at(chars.len() - 1);
    assert(head@ =~= value@.drop_last());
    let amount: u64 = match read_unsigned(head) {
        Ok(amount) => amount,
        Err(fault) => return Err(ConfigError::MalformedAmount(fault)),
    };
    if amount == 0 {
        return Err(ConfigError::ZeroDuration(value.to_owned()));
    }
    let multiplier: u64 = match tail[0] {
        'm' => 60,
        'h' => 60 * 60,
        'd' => 60 * 60 * 24,
        'w' => 60 * 60 * 24 * 7,
        _ => return Err(ConfigError::UnknownUnit(value.to_owned())),
    };
    match amount.checked_mul(multiplier) {
        Some(secs) => Ok(secs),
        None => Err(ConfigError::DurationTooLarge(value.to_owned())),
    }
}

/// The seconds of a candle interval of fixed length.
pub open spec fn interval_secs(interval: Seq<char>) -> Option<u64> {
    if interval == "1s"@ {
        Some(1)
    } else if interval == "1m"@ {
        Some(60)
    } else if interval == "3m"@ {
        Some(180)
    } else if interval == "5m"@ {
        Some(300)
    } else if interval == "15m"@ {
        Some(900)
    } else if interval == "30m"@ {
        Some(1_800)
    } else if interval == "1h"@ {
        Some(3_600)
    } else if interval == "2h"@ {
        Some(7_200)
    } else if interval == "4h"@ {
        Some(14_400)
    } else if interval == "6h"@ {
        Some(21_600)
    } else if interval == "8h"@ {
        Some(28_800)
    } else if interval == "12h"@ {
        Some(43_200)
    } else if interval == "1d"@ {
        Some(86_400)
    } else if interval == "3d"@ {
        Some(259_200)
    } else if interval == "1w"@ {
        Some(604_800)
    } else {
        None
    }
}

/// The seconds of a candle interval, or why it cannot be used.
pub open spec fn interval_length(interval: Seq<char>) -> Result<u64, ConfigFault> {
    match interval_secs(interval) {
        Some(secs) => Ok(secs),
        None => if interval == "1M"@ {
            Err(ConfigFault::MonthInterval)
        } else {
            Err(ConfigFault::UnsupportedInterval(interval))
        },
    }
}

/// The seconds of a candle interval.
pub fn candle_interval_secs(interval: &str) -> (result: Result<u64, ConfigError>)
    ensures
        match result {
            Ok(secs) => interval_length(interval@) == Ok::<u64, ConfigFault>(secs),
            Err(error) => interval_length(interval@) == Err::<u64, ConfigFault>(error@),
        },
{
    let seconds: u64 = if same_text(interval, "1s") {
        1
    } else if same_text(interval, "1m") {
        60
    } else if same_text(interval, "3m") {
        3 * 60
    } else if same_text(interval, "5m") {
        5 * 60
    } else if same_text(interval, "15m") {
        15 * 60
    } else if same_text(interval, "30m") {
        30 * 60
    } else if same_text(interval, "1h") {
        60 * 60
    } else if same_text(interval, "2h") {
        2 * 60 * 60
    } else if same_text(interval, "4h") {
        4 * 60 * 60
    } else if same_text(interval, "6h") {
        6 * 60 * 60
    } else if same_text(interval, "8h") {
        8 * 60 * 60
    } else if same_text(interval, "12h") {
        12 * 60 * 60
    } else if same_text(interval, "1d") {
        24 * 60 * 60
    } else if same_text(interval, "3d") {
        3 * 24 * 60 * 60
    } else if same_text(interval, "1w") {
        7 * 24 * 60 * 60
    } else if same_text(interval, "1M") {
        return Err(ConfigError::MonthInterval);
    } else {
        return Err(ConfigError::UnsupportedInterval(interval.to_owned()));
    };
    Ok(seconds)
}

/// The scheme of the URL that a text stands for, or the reason why it is none.
pub uninterp spec fn parsed_url(text: Seq<char>) -> Result<Seq<char>, Seq<char>>;

/// A result of parsing a URL by the characters in it.
pub open spec fn url_result(parsed: Result<String, String>) -> Result<Seq<char>, Seq<char>> {
    match parsed {
        Ok(scheme) => Ok(scheme@),
        Err(reason) => Err(reason@),
    }
}

/// `reqwest::Url::parse` reads a URL. The result is the URL's scheme or the text of
/// the parse error; both are a function of the text alone, which the contract names.
#[verifier::external_body]
fn parse_url(text: &str) -> (result: Result<String, String>)
    ensures
        url_result(result) == parsed_url(text@),
{
    match reqwest::Url::parse(text) {
        Ok(url) => Ok(url.scheme().to_string()),
        Err(error) => Err(error.to_string()),
    }
}

/// Whether a parsed healthcheck URL can be called.
pub open spec fn url_fault(parsed: Result<Seq<char>, Seq<char>>) -> Option<ConfigFault> {
    match parsed {
        Ok(scheme) => if scheme == "http"@ || scheme == "https"@ {
            None
        } else {
            Some(ConfigFault::HealthcheckScheme)
        },
        Err(reason) => Some(ConfigFault::HealthcheckUrl(reason)),
    }
}

/// Judges a parsed healthcheck URL.
pub fn check_url(parsed: Result<String, String>) -> (result: Result<(), ConfigError>)
    ensures
        match result {
            Ok(_) => url_fault(url_result(parsed)) is None,
            Err(error) => url_fault(url_result(parsed)) == Some(error@),
        },
{
    match parsed {
        Ok(scheme) => if same_text(scheme.as_str(), "http") || same_text(
            scheme.as_str(),
            "https",
        ) {
            Ok(())
        } else {
            Err(ConfigError::HealthcheckScheme)
        },
        Err(reason) => Err(ConfigError::HealthcheckUrl(reason)),
    }
}

/// Whether a number is at least zero and below a hundred.
pub open spec fn band_in_range(value: Number) -> bool {
    number::pattern(0).at_most(value) && value.below(number::pattern(HUNDRED_BITS))
}

/// Whether a number is above zero and at most a hundred.
pub open spec fn closes_in_range(value: Number) -> bool {
    number::pattern(0).at_most(value) && value.at_most(number::pattern(HUNDRED_BITS))
        && !value.equals(number::pattern(0))
}

/// The first fault in what is left once the durations have been found to fit.
pub open spec fn settings_fault(config: ConfigView, dry_run: bool) -> Option<ConfigFault> {
    if !band_in_range(config.sideways_band_pct) {
        Some(ConfigFault::BandRange)
    } else if !closes_in_range(config.min_sideways_closes_pct) {
        Some(ConfigFault::MinClosesRange)
    } else if config.positive_spike_pct.at_most(config.sideways_band_pct) {
        Some(ConfigFault::SpikeNotAboveBand)
    } else if !config.min_quote_volume_24h.finite() || config.min_quote_volume_24h.below(
        number::pattern(0),
    ) {
        Some(ConfigFault::MinVolume)
    } else if !config.max_quote_volume_24h.finite() || config.max_quote_volume_24h.below(
        config.min_quote_volume_24h,
    ) {
        Some(ConfigFault::MaxVolume)
    } else if config.symbol_refresh_secs == 0 {
        Some(ConfigFault::RefreshInterval)
    } else if config.healthcheck_url.len() > 0 && url_fault(parsed_url(config.healthcheck_url))
        is Some {
        url_fault(parsed_url(config.healthcheck_url))
    } else if !dry_run && (config.telegram_token.len() == 0 || config.telegram_chat_id.len() == 0) {
        Some(ConfigFault::MissingCredentials)
    } else {
        None
    }
}

/// The fault in how window, quiet period and interval fit together.
pub open spec fn timing_fault(window: u64, quiet: u64, interval: u64) -> Option<ConfigFault> {
    if window % interval != 0 {
        Some(ConfigFault::WindowNotDivisible)
    } else if quiet % interval != 0 {
        Some(ConfigFault::QuietPeriodNotDivisible)
    } else if quiet >= window {
        Some(ConfigFault::QuietPeriodTooLong)
    } else if window / interval > usize::MAX {
        Some(ConfigFault::CountOutOfRange)
    } else if !(MIN_WINDOW_CANDLES <= window / interval <= MAX_WINDOW_CANDLES) {
        Some(ConfigFault::WindowSize((window / interval) as usize))
    } else {
        None
    }
}

/// The times of a configuration whose window, quiet period and interval fit together.
pub open spec fn timing(window: u64, quiet: u64, interval: u64) -> ValidatedConfig {
    ValidatedConfig {
        window_candles: (window / interval) as usize,
        quiet_candles: (quiet / interval) as usize,
        interval_ms: (interval * 1000) as i64,
        window_ms: (window * 1000) as i64,
        quiet_period_ms: (quiet * 1000) as i64,
    }
}

/// The times of a configuration, or its first fault.
pub open spec fn validation(config: ConfigView, dry_run: bool) -> Result<
    ValidatedConfig,
    ConfigFault,
> {
    match duration(config.rolling_window) {
        Err(fault) => Err(fault),
        Ok(window) => match duration(config.post_spike_quiet_period) {
            Err(fault) => Err(fault),
            Ok(quiet) => match interval_length(config.candle_interval) {
                Err(fault) => Err(fault),
                Ok(interval) => match timing_fault(window, quiet, interval) {
                    Some(fault) => Err(fault),
                    None => match settings_fault(config, dry_run) {
                        Some(fault) => Err(fault),
                        None => Ok(timing(window, quiet, interval)),
                    },
                },
            },
        },
    }
}

/// Whether the durations of a configuration can be split into amount and unit.
pub open spec fn durations_split(config: ConfigView) -> bool {
    &&& splits_before_unit(config.rolling_window)
    &&& duration(config.rolling_window) is Ok ==> splits_before_unit(
        config.post_spike_quiet_period,
    )
}

/// Whether the last byte of a text of two bytes or more is a character of its own.
fn check_split(value: &str) -> (result: bool)
    ensures
        result == splits_before_unit(value@),
{
    if byte_len(value) < 2 {
        return true;
    }
    let chars = chars_of(value);
    proof {
        if value@.len() == 0 {
            assert(value@ =~= Seq::<char>::empty());
        }
    }
    chars[chars.len() - 1] <= '\u{7f}'
}

/// Whether the durations of a configuration can be split into amount and unit.
pub fn can_split_durations(config: &Config) -> (result: bool)
    ensures
        result == durations_split(config@),
{
    if !check_split(config.rolling_window.as_str()) {
        return false;
    }
    match duration_secs(config.rolling_window.as_str()) {
        Ok(_) => check_split(config.post_spike_quiet_period.as_str()),
        Err(_) => true,
    }
}

/// What passes the checks of the timing is valid.
pub proof fn lemma_timing_valid(window: u64, quiet: u64, interval: u64)
    requires
        0 < interval <= 604_800,
        0 < quiet,
        timing_fault(window, quiet, interval) is None,
    ensures
        timing(window, quiet, interval).valid(),
        quiet < window <= 6_048_000_000,
        window / interval <= usize::MAX,
        quiet / interval <= usize::MAX,
{
    let w = (window / interval) as int;
    let q = (quiet / interval) as int;
    let n = interval as int;
    assert(window == w * n && quiet == q * n) by (nonlinear_arith)
        requires
            window % interval == 0,
            quiet % interval == 0,
            n == interval,
            n > 0,
            w == window / interval,
            q == quiet / interval,
    ;
    assert(0 < q < w) by (nonlinear_arith)
        requires
            window == w * n,
            quiet == q * n,
            0 < quiet < window,
            n > 0,
    ;
    assert(w * n <= 10_000 * 604_800) by (nonlinear_arith)
        requires
            0 <= w <= 10_000,
            0 < n <= 604_800,
    ;
    assert(w * (n * 1000) == (w * n) * 1000 && q * (n * 1000) == (q * n) * 1000)
        by (nonlinear_arith);
}

/// Checks everything that does not depend on the durations.
fn check_settings(config: &Config, dry_run: bool) -> (result: Result<(), ConfigError>)
    ensures
        match result {
            Ok(_) => settings_fault(config@, dry_run) is None,
            Err(error) => settings_fault(config@, dry_run) == Some(error@),
        },
{
    let zero = Number::from_bits(0);
    let hundred = Number::from_bits(HUNDRED_BITS);
    if !(zero.is_at_most(config.sideways_band_pct) && config.sideways_band_pct.is_below(hundred)) {
        return Err(ConfigError::BandRange);
    }
    if !(zero.is_at_most(config.min_sideways_closes_pct)
        && config.min_sideways_closes_pct.is_at_most(hundred))
        || config.min_sideways_closes_pct.is_equal(zero) {
        return Err(ConfigError::MinClosesRange);
    }
    if config.positive_spike_pct.is_at_most(config.sideways_band_pct) {
        return Err(ConfigError::SpikeNotAboveBand);
    }
    if !config.min_quote_volume_24h.is_finite() || config.min_quote_volume_24h.is_below(zero) {
        return Err(ConfigError::MinVolume);
    }
    if !config.max_quote_volume_24h.is_finite() || config.max_quote_volume_24h.is_below(
        config.min_quote_volume_24h,
    ) {
        return Err(ConfigError::MaxVolume);
    }
    if config.symbol_refresh_secs == 0 {
        return Err(ConfigError::RefreshInterval);
    }
    if !config.healthcheck_url.as_str().is_empty() {
        match check_url(parse_url(config.healthcheck_url.as_str())) {
            Ok(_) => {},
            Err(error) => return Err(error),
        }
    }
    if !dry_run && (config.telegram_token.as_str().is_empty()
        || config.telegram_chat_id.as_str().is_empty()) {
        return Err(ConfigError::MissingCredentials);
    }
    Ok(())
}

/// Checks a configuration and reckons its times.
pub fn validate_config(config: &Config, dry_run: bool) -> (result: Result<
    ValidatedConfig,
    ConfigError,
>)
    requires
        durations_split(config@),
    ensures
        match result {
            Ok(validated) => validation(config@, dry_run) == Ok::<ValidatedConfig, ConfigFault>(
                validated,
            ) && validated.valid(),
            Err(error) => validation(config@, dry_run) == Err::<ValidatedConfig, ConfigFault>(
                error@,
            ),
        },
{
    let window_secs: u64 = match duration_secs(config.rolling_window.as_str()) {
        Ok(secs) => secs,
        Err(error) => return Err(error),
    };
    let quiet_secs: u64 = match duration_secs(config.post_spike_quiet_period.as_str()) {
        Ok(secs) => secs,
        Err(error) => return Err(error),
    };
    let interval_secs: u64 = match candle_interval_secs(config.candle_interval.as_str()) {
        Ok(secs) => secs,
        Err(error) => return Err(error),
    };
    if window_secs % interval_secs != 0 {
        return Err(ConfigError::WindowNotDivisible);
    }
    if quiet_secs % interval_secs != 0 {
        return Err(ConfigError::QuietPeriodNotDivisible);
    }
    if quiet_secs >= window_secs {
        return Err(ConfigError::QuietPeriodTooLong);
    }
    let window_count: u64 = window_secs / interval_secs;
    if window_count > usize::MAX as u64 {
        return Err(ConfigError::CountOutOfRange);
    }
    let window_candles = window_count as usize;
    if window_candles < MIN_WINDOW_CANDLES || window_candles > MAX_WINDOW_CANDLES {
        return Err(ConfigError::WindowSize(window_candles));
    }
    proof {
        lemma_timing_valid(window_secs, quiet_secs, interval_secs);
    }
    match check_settings(config, dry_run) {
        Ok(_) => {},
        Err(error) => return Err(error),
    }
    Ok(
        ValidatedConfig {
            window_candles,
            quiet_candles: (quiet_secs / interval_secs) as usize,
            interval_ms: (interval_secs * 1000) as i64,
            window_ms: (window_secs * 1000) as i64,
            quiet_period_ms: (quiet_secs * 1000) as i64,
        },
    )
}

/// A duration is its amount times its unit: for every positive amount and every unit, as
/// long as the seconds fit.
pub proof fn law_durations_count_units(amount: u64, unit: char)
    requires
        amount > 0,
        unit_secs(unit) is Some,
        amount * unit_secs(unit)->0 <= u64::MAX,
    ensures
        duration(text::decimal(amount as int).push(unit)) == Ok::<u64, ConfigFault>(
            (amount * unit_secs(unit)->0) as u64,
        ),
{
    let numeral = text::decimal(amount as int);
    let value = numeral.push(unit);
    text::law_numerals_are_read_back(amount);
    text::lemma_digits_value(amount as nat);
    assert(value.drop_last() =~= numeral);
    lemma_ascii_bytes(numeral, unit);
}

/// Digits and an ASCII character behind them have two bytes at least.
pub proof fn lemma_ascii_bytes(numeral: Seq<char>, unit: char)
    requires
        numeral.len() > 0,
        forall|i: int| 0 <= i < numeral.len() ==> text::is_digit(#[trigger] numeral[i]),
        unit <= '\u{7f}',
    ensures
        text::byte_length(numeral.push(unit)) >= 2,
{
    let value = numeral.push(unit);
    assert forall|i: int| 0 <= i < value.len() implies '\0' <= #[trigger] value[i] <= '\u{7f}' by {
        lemma_lowest_char(value[i]);
        if i < numeral.len() {
            assert(text::is_digit(numeral[i]));
        }
    }
    vstd::utf8::is_ascii_chars_encode_utf8(value);
}

/// Only a window and a quiet period that are whole numbers of intervals are accepted, the
/// quiet period being the shorter one.
pub proof fn law_valid_times_are_whole_intervals(config: ConfigView, dry_run: bool)
    requires
        validation(config, dry_run) is Ok,
    ensures
        ({
            let window = duration(config.rolling_window);
            let quiet = duration(config.post_spike_quiet_period);
            let interval = interval_length(config.candle_interval);
            &&& window is Ok && quiet is Ok && interval is Ok
            &&& window->Ok_0 % interval->Ok_0 == 0
            &&& quiet->Ok_0 % interval->Ok_0 == 0
            &&& quiet->Ok_0 < window->Ok_0
            &&& validation(config, dry_run)->Ok_0.window_candles == window->Ok_0 / interval->Ok_0
            &&& validation(config, dry_run)->Ok_0.valid()
        }),
{
    let window = duration(config.rolling_window)->Ok_0;
    let quiet = duration(config.post_spike_quiet_period)->Ok_0;
    let interval = interval_length(config.candle_interval)->Ok_0;
    lemma_duration_positive(config.post_spike_quiet_period);
    lemma_timing_valid(window, quiet, interval);
}

/// A duration is positive.
pub proof fn lemma_duration_positive(value: Seq<char>)
    requires
        duration(value) is Ok,
    ensures
        duration(value)->Ok_0 > 0,
{
    let amount = text::unsigned_numeral(value.drop_last())->Ok_0;
    let secs = unit_secs(value.last())->0;
    assert(amount * secs > 0) by (nonlinear_arith)
        requires
            amount > 0,
            secs > 0,
    ;
}

} // verus!
