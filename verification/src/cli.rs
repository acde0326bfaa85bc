//! Command line, environment and file: where a configuration comes from.

use crate::config;
use crate::config::{
    can_split_durations, validate_config, Config, ConfigError, ConfigView, ValidatedConfig,
};
use crate::number;
use crate::number::{read_number, Number};
use crate::ordering;
use crate::text;
use crate::text::{chars_of, read_unsigned, same_text, NumeralFault};
use vstd::prelude::*;
use vstd::string::*;

verus! {

/// The settings that the command line gives in place of those of the file.
pub struct CliOverrides {
    pub rolling_window: Option<String>,
    pub candle_interval: Option<String>,
    pub sideways_band_pct: Option<Number>,
    pub min_sideways_closes_pct: Option<Number>,
    pub positive_spike_pct: Option<Number>,
    pub post_spike_quiet_period: Option<String>,
    pub min_quote_volume_24h: Option<Number>,
    pub max_quote_volume_24h: Option<Number>,
    pub symbol_refresh_secs: Option<u64>,
    pub telegram_token: Option<String>,
    pub telegram_chat_id: Option<String>,
    pub healthcheck_url: Option<String>,
}

/// The contents of [`CliOverrides`].
pub struct OverridesView {
    pub rolling_window: Option<Seq<char>>,
    pub candle_interval: Option<Seq<char>>,
    pub sideways_band_pct: Option<Number>,
    pub min_sideways_closes_pct: Option<Number>,
    pub positive_spike_pct: Option<Number>,
    pub post_spike_quiet_period: Option<Seq<char>>,
    pub min_quote_volume_24h: Option<Number>,
    pub max_quote_volume_24h: Option<Number>,
    pub symbol_refresh_secs: Option<u64>,
    pub telegram_token: Option<Seq<char>>,
    pub telegram_chat_id: Option<Seq<char>>,
    pub healthcheck_url: Option<Seq<char>>,
}

impl View for CliOverrides {
    type V = OverridesView;

    open spec fn view(&self) -> OverridesView {
        OverridesView {
            rolling_window: text::optional_chars(self.rolling_window),
            candle_interval: text::optional_chars(self.candle_interval),
            sideways_band_pct: self.sideways_band_pct,
            min_sideways_closes_pct: self.min_sideways_closes_pct,
            positive_spike_pct: self.positive_spike_pct,
            post_spike_quiet_period: text::optional_chars(self.post_spike_quiet_period),
            min_quote_volume_24h: self.min_quote_volume_24h,
            max_quote_volume_24h: self.max_quote_volume_24h,
            symbol_refresh_secs: self.symbol_refresh_secs,
            telegram_token: text::optional_chars(self.telegram_token),
            telegram_chat_id: text::optional_chars(self.telegram_chat_id),
            healthcheck_url: text::optional_chars(self.healthcheck_url),
        }
    }
}

/// No override at all.
pub open spec fn no_overrides() -> OverridesView {
    OverridesView {
        rolling_window: None,
        candle_interval: None,
        sideways_band_pct: None,
        min_sideways_closes_pct: None,
        positive_spike_pct: None,
        post_spike_quiet_period: None,
        min_quote_volume_24h: None,
        max_quote_volume_24h: None,
        symbol_refresh_secs: None,
        telegram_token: None,
        telegram_chat_id: None,
        healthcheck_url: None,
    }
}

impl Default for CliOverrides {
    fn default() -> (result: Self)
        ensures
            result@ == no_overrides(),
    {
        CliOverrides {
            rolling_window: None,
            candle_interval: None,
            sideways_band_pct: None,
            min_sideways_closes_pct: None,
            positive_spike_pct: None,
            post_spike_quiet_period: None,
            min_quote_volume_24h: None,
            max_quote_volume_24h: None,
            symbol_refresh_secs: None,
            telegram_token: None,
            telegram_chat_id: None,
            healthcheck_url: None,
        }
    }
}

/// The value that takes the place of another one, where there is one.
pub open spec fn chosen<T>(replacement: Option<T>, value: T) -> T {
    match replacement {
        Some(new) => new,
        None => value,
    }
}

/// A configuration with overrides in place of the values that they replace.
pub open spec fn overridden(overrides: OverridesView, config: ConfigView) -> ConfigView {
    ConfigView {
        rolling_window: chosen(overrides.rolling_window, config.rolling_window),
        candle_interval: chosen(overrides.candle_interval, config.candle_interval),
        sideways_band_pct: chosen(overrides.sideways_band_pct, config.sideways_band_pct),
        min_sideways_closes_pct: chosen(
            overrides.min_sideways_closes_pct,
            config.min_sideways_closes_pct,
        ),
        positive_spike_pct: chosen(overrides.positive_spike_pct, config.positive_spike_pct),
        post_spike_quiet_period: chosen(
            overrides.post_spike_quiet_period,
            config.post_spike_quiet_period,
        ),
        min_quote_volume_24h: chosen(overrides.min_quote_volume_24h, config.min_quote_volume_24h),
        max_quote_volume_24h: chosen(overrides.max_quote_volume_24h, config.max_quote_volume_24h),
        symbol_refresh_secs: chosen(overrides.symbol_refresh_secs, config.symbol_refresh_secs),
        telegram_token: chosen(overrides.telegram_token, config.telegram_token),
        telegram_chat_id: chosen(overrides.telegram_chat_id, config.telegram_chat_id),
        healthcheck_url: chosen(overrides.healthcheck_url, config.healthcheck_url),
    }
}

impl CliOverrides {
    /// Puts the overrides in place of the values that they replace.
    pub fn apply(&self, config: &mut Config)
        ensures
            final(config)@ == overridden(self@, old(config)@),
    {
        if let Some(value) = &self.rolling_window {
            config.rolling_window = value.clone();
        }
        if let Some(value) = &self.candle_interval {
            config.candle_interval = value.clone();
        }
        if let Some(value) = self.sideways_band_pct {
            config.sideways_band_pct = value;
        }
        if let Some(value) = self.min_sideways_closes_pct {
            config.min_sideways_closes_pct = value;
        }
        if let Some(value) = self.positive_spike_pct {
            config.positive_spike_pct = value;
        }
        if let Some(value) = &self.post_spike_quiet_period {
            config.post_spike_quiet_period = value.clone();
        }
        if let Some(value) = self.min_quote_volume_24h {
            config.min_quote_volume_24h = value;
        }
        if let Some(value) = self.max_quote_volume_24h {
            config.max_quote_volume_24h = value;
        }
        if let Some(value) = self.symbol_refresh_secs {
            config.symbol_refresh_secs = value;
        }
        if let Some(value) = &self.telegram_token {
            config.telegram_token = value.clone();
        }
        if let Some(value) = &self.telegram_chat_id {
            config.telegram_chat_id = value.clone();
        }
        if let Some(value) = &self.healthcheck_url {
            config.healthcheck_url = value.clone();
        }
    }
}

/// A setting that an argument of the command line gives a value.
#[derive(Clone, Copy, PartialEq, Eq, Structural, Debug)]
pub enum Setting {
    RollingWindow,
    CandleInterval,
    SidewaysBandPct,
    MinSidewaysClosesPct,
    PositiveSpikePct,
    PostSpikeQuietPeriod,
    MinQuoteVolume24h,
    MaxQuoteVolume24h,
    SymbolRefreshSecs,
    TelegramToken,
    TelegramChatId,
    HealthcheckUrl,
}

/// The setting that an argument names.
pub open spec fn setting_named(name: Seq<char>) -> Option<Setting> {
    if name == "--rolling-window"@ {
        Some(Setting::RollingWindow)
    } else if name == "--candle-interval"@ {
        Some(Setting::CandleInterval)
    } else if name == "--sideways-band-pct"@ {
        Some(Setting::SidewaysBandPct)
    } else if name == "--min-sideways-closes-pct"@ {
        Some(Setting::MinSidewaysClosesPct)
    } else if name == "--positive-spike-pct"@ {
        Some(Setting::PositiveSpikePct)
    } else if name == "--post-spike-quiet-period"@ {
        Some(Setting::PostSpikeQuietPeriod)
    } else if name == "--min-quote-volume-24h"@ {
        Some(Setting::MinQuoteVolume24h)
    } else if name == "--max-quote-volume-24h"@ {
        Some(Setting::MaxQuoteVolume24h)
    } else if name == "--symbol-refresh-secs"@ {
        Some(Setting::SymbolRefreshSecs)
    } else if name == "--telegram-token"@ {
        Some(Setting::TelegramToken)
    } else if name == "--telegram-chat-id"@ {
        Some(Setting::TelegramChatId)
    } else if name == "--healthcheck-url"@ {
        Some(Setting::HealthcheckUrl)
    } else {
        None
    }
}

/// The setting that an argument names.
fn find_setting(name: &str) -> (result: Option<Setting>)
    ensures
        result == setting_named(name@),
{
    if same_text(name, "--rolling-window") {
        Some(Setting::RollingWindow)
    } else if same_text(name, "--candle-interval") {
        Some(Setting::CandleInterval)
    } else if same_text(name, "--sideways-band-pct") {
        Some(Setting::SidewaysBandPct)
    } else if same_text(name, "--min-sideways-closes-pct") {
        Some(Setting::MinSidewaysClosesPct)
    } else if same_text(name, "--positive-spike-pct") {
        Some(Setting::PositiveSpikePct)
    } else if same_text(name, "--post-spike-quiet-period") {
        Some(Setting::PostSpikeQuietPeriod)
    } else if same_text(name, "--min-quote-volume-24h") {
        Some(Setting::MinQuoteVolume24h)
    } else if same_text(name, "--max-quote-volume-24h") {
        Some(Setting::MaxQuoteVolume24h)
    } else if same_text(name, "--symbol-refresh-secs") {
        Some(Setting::SymbolRefreshSecs)
    } else if same_text(name, "--telegram-token") {
        Some(Setting::TelegramToken)
    } else if same_text(name, "--telegram-chat-id") {
        Some(Setting::TelegramChatId)
    } else if same_text(name, "--healthcheck-url") {
        Some(Setting::HealthcheckUrl)
    } else {
        None
    }
}

/// Why a command line cannot be followed.
#[derive(PartialEq, Eq, Debug)]
pub enum CliError {
    /// The named argument is the last one, without a value behind it.
    MissingValue(String),
    /// The value is no number; the flag tells whether it is empty.
    NotANumber(bool),
    /// The value is no unsigned integer.
    NotAnInteger(NumeralFault),
    UnknownArgument(String),
}

/// The contents of a [`CliError`].
pub enum CliFault {
    MissingValue(Seq<char>),
    NotANumber(bool),
    NotAnInteger(NumeralFault),
    UnknownArgument(Seq<char>),
}

impl View for CliError {
    type V = CliFault;

    open spec fn view(&self) -> CliFault {
        match self {
            CliError::MissingValue(name) => CliFault::MissingValue(name@),
            CliError::NotANumber(empty) => CliFault::NotANumber(*empty),
            CliError::NotAnInteger(fault) => CliFault::NotAnInteger(*fault),
            CliError::UnknownArgument(name) => CliFault::UnknownArgument(name@),
        }
    }
}

impl CliFault {
    /// The fault in words.
    pub open spec fn words(self) -> Seq<char> {
        match self {
            CliFault::MissingValue(name) => "missing value for "@ + name,
            CliFault::NotANumber(empty) => if empty {
                "cannot parse float from empty string"@
            } else {
                "invalid float literal"@
            },
            CliFault::NotAnInteger(fault) => fault.words(),
            CliFault::UnknownArgument(name) => "unknown argument: "@ + name,
        }
    }
}

impl CliError {
    /// The error in words.
    pub fn message(&self) -> (result: String)
        ensures
            result@ == self@.words(),
    {
        match self {
            CliError::MissingValue(name) => "missing value for ".to_owned().concat(name.as_str()),
            CliError::NotANumber(empty) => if *empty {
                "cannot parse float from empty string".to_owned()
            } else {
                "invalid float literal".to_owned()
            },
            CliError::NotAnInteger(fault) => fault.message(),
            CliError::UnknownArgument(name) => "unknown argument: ".to_owned().concat(
                name.as_str(),
            ),
        }
    }
}

/// The number that a value stands for.
pub open spec fn number_given(
    read: spec_fn(Seq<char>) -> Option<Number>,
    value: Seq<char>,
) -> Result<Number, CliFault> {
    match read(value) {
        Some(n) => Ok(n),
        None => Err(CliFault::NotANumber(value.len() == 0)),
    }
}

/// Overrides with one setting given a value.
pub open spec fn with_setting(
    read: spec_fn(Seq<char>) -> Option<Number>,
    overrides: OverridesView,
    setting: Setting,
    value: Seq<char>,
) -> Result<OverridesView, CliFault> {
    match setting {
        Setting::RollingWindow => Ok(OverridesView { rolling_window: Some(value), ..overrides }),
        Setting::CandleInterval => Ok(OverridesView { candle_interval: Some(value), ..overrides }),
        Setting::SidewaysBandPct => match number_given(read, value) {
            Ok(n) => Ok(OverridesView { sideways_band_pct: Some(n), ..overrides }),
            Err(fault) => Err(fault),
        },
        Setting::MinSidewaysClosesPct => match number_given(read, value) {
            Ok(n) => Ok(OverridesView { min_sideways_closes_pct: Some(n), ..overrides }),
            Err(fault) => Err(fault),
        },
        Setting::PositiveSpikePct => match number_given(read, value) {
            Ok(n) => Ok(OverridesView { positive_spike_pct: Some(n), ..overrides }),
            Err(fault) => Err(fault),
        },
        Setting::PostSpikeQuietPeriod => Ok(
            OverridesView { post_spike_quiet_period: Some(value), ..overrides },
        ),
        Setting::MinQuoteVolume24h => match number_given(read, value) {
            Ok(n) => Ok(OverridesView { min_quote_volume_24h: Some(n), ..overrides }),
            Err(fault) => Err(fault),
        },
        Setting::MaxQuoteVolume24h => match number_given(read, value) {
            Ok(n) => Ok(OverridesView { max_quote_volume_24h: Some(n), ..overrides }),
            Err(fault) => Err(fault),
        },
        Setting::SymbolRefreshSecs => match text::unsigned_numeral(value) {
            Ok(n) => Ok(OverridesView { symbol_refresh_secs: Some(n), ..overrides }),
            Err(fault) => Err(CliFault::NotAnInteger(fault)),
        },
        Setting::TelegramToken => Ok(OverridesView { telegram_token: Some(value), ..overrides }),
        Setting::TelegramChatId => Ok(OverridesView { telegram_chat_id: Some(value), ..overrides }),
        Setting::HealthcheckUrl => Ok(OverridesView { healthcheck_url: Some(value), ..overrides }),
    }
}

/// Reads a value as a number.
fn parse_number<R: Fn(&str) -> Option<Number>>(value: &str, read: &R) -> (result: Result<
    Number,
    CliError,
>)
    requires
        number::reads(*read),
    ensures
        match result {
            Ok(n) => number_given(number::readings(*read), value@) == Ok::<Number, CliFault>(n),
            Err(error) => number_given(number::readings(*read), value@) == Err::<Number, CliFault>(
                error@,
            ),
        },
{
    match read_number(read, value) {
        Some(n) => Ok(n),
        None => Err(CliError::NotANumber(value.is_empty())),
    }
}

impl CliOverrides {
    /// Gives one setting a value.
    fn set<R: Fn(&str) -> Option<Number>>(
        &mut self,
        setting: Setting,
        value: &String,
        read: &R,
    ) -> (result: Result<(), CliError>)
        requires
            number::reads(*read),
        ensures
            match result {
                Ok(_) => with_setting(number::readings(*read), old(self)@, setting, value@)
                    == Ok::<OverridesView, CliFault>(final(self)@),
                Err(error) => with_setting(number::readings(*read), old(self)@, setting, value@)
                    == Err::<OverridesView, CliFault>(error@),
            },
    {
        match setting {
            Setting::RollingWindow => {
                self.rolling_window = Some(value.clone());
            },
            Setting::CandleInterval => {
                self.candle_interval = Some(value.clone());
            },
            Setting::SidewaysBandPct => match parse_number(value.as_str(), read) {
                Ok(n) => {
                    self.sideways_band_pct = Some(n);
                },
                Err(error) => return Err(error),
            },
            Setting::MinSidewaysClosesPct => match parse_number(value.as_str(), read) {
                Ok(n) => {
                    self.min_sideways_closes_pct = Some(n);
                },
                Err(error) => return Err(error),
            },
            Setting::PositiveSpikePct => match parse_number(value.as_str(), read) {
                Ok(n) => {
                    self.positive_spike_pct = Some(n);
                },
                Err(error) => return Err(error),
            },
            Setting::PostSpikeQuietPeriod => {
                self.post_spike_quiet_period = Some(value.clone());
            },
            Setting::MinQuoteVolume24h => match parse_number(value.as_str(), read) {
                Ok(n) => {
                    self.min_quote_volume_24h = Some(n);
                },
                Err(error) => return Err(error),
            },
            Setting::MaxQuoteVolume24h => match parse_number(value.as_str(), read) {
                Ok(n) => {
                    self.max_quote_volume_24h = Some(n);
                },
                Err(error) => return Err(error),
            },
            Setting::SymbolRefreshSecs => {
                let chars = chars_of(value.as_str());
                match read_unsigned(chars.as_slice()) {
                    Ok(n) => {
                        self.symbol_refresh_secs = Some(n);
                    },
                    Err(fault) => return Err(CliError::NotAnInteger(fault)),
                }
            },
            Setting::TelegramToken => {
                self.telegram_token = Some(value.clone());
            },
            Setting::TelegramChatId => {
                self.telegram_chat_id = Some(value.clone());
            },
            Setting::HealthcheckUrl => {
                self.healthcheck_url = Some(value.clone());
            },
        }
        Ok(())
    }
}

/// What the command line tells.
pub struct CliOptions {
    pub overrides: CliOverrides,
    pub dry_run: bool,
    pub save_config: bool,
}

/// The contents of [`CliOptions`].
pub struct OptionsView {
    pub overrides: OverridesView,
    pub dry_run: bool,
    pub save_config: bool,
}

impl View for CliOptions {
    type V = OptionsView;

    open spec fn view(&self) -> OptionsView {
        OptionsView {
            overrides: self.overrides@,
            dry_run: self.dry_run,
            save_config: self.save_config,
        }
    }
}

/// What the command line asks for.
pub enum CliRequest {
    /// To print the usage and end.
    Help,
    /// To run with the given options.
    Run(CliOptions),
}

/// The contents of a [`CliRequest`].
pub enum RequestView {
    Help,
    Run(OptionsView),
}

impl View for CliRequest {
    type V = RequestView;

    open spec fn view(&self) -> RequestView {
        match self {
            CliRequest::Help => RequestView::Help,
            CliRequest::Run(options) => RequestView::Run(options@),
        }
    }
}

/// The options of an empty command line.
pub open spec fn no_options() -> OptionsView {
    OptionsView { overrides: no_overrides(), dry_run: false, save_config: false }
}

/// What arguments ask for, read from the left, on top of options already given.
pub open spec fn request(
    read: spec_fn(Seq<char>) -> Option<Number>,
    args: Seq<Seq<char>>,
    options: OptionsView,
) -> Result<RequestView, CliFault>
    decreases args.len(),
{
    if args.len() == 0 {
        Ok(RequestView::Run(options))
    } else {
        match setting_named(args[0]) {
            Some(setting) => if args.len() < 2 {
                Err(CliFault::MissingValue(args[0]))
            } else {
                match with_setting(read, options.overrides, setting, args[1]) {
                    Ok(overrides) => request(
                        read,
                        args.skip(2),
                        OptionsView { overrides, ..options },
                    ),
                    Err(fault) => Err(fault),
                }
            },
            None => if args[0] == "--dry-run"@ {
                request(read, args.skip(1), OptionsView { dry_run: true, ..options })
            } else if args[0] == "--save-config"@ {
                request(read, args.skip(1), OptionsView { save_config: true, ..options })
            } else if args[0] == "--help"@ || args[0] == "-h"@ {
                Ok(RequestView::Help)
            } else {
                Err(CliFault::UnknownArgument(args[0]))
            },
        }
    }
}

/// Reads the arguments of the command line, without the name of the program.
pub fn parse_args<R: Fn(&str) -> Option<Number>>(args: &Vec<String>, read: &R) -> (result: Result<
    CliRequest,
    CliError,
>)
    requires
        number::reads(*read),
    ensures
        match result {
            Ok(asked) => request(number::readings(*read), ordering::views(args@), no_options())
                == Ok::<RequestView, CliFault>(asked@),
            Err(error) => request(number::readings(*read), ordering::views(args@), no_options())
                == Err::<RequestView, CliFault>(error@),
        },
{
    let mut options = CliOptions {
        overrides: CliOverrides::default(),
        dry_run: false,
        save_config: false,
    };
    let ghost model = number::readings(*read);
    let ghost all = ordering::views(args@);
    let ghost outcome = request(model, all, no_options());
    let mut i: usize = 0;
    assert(all.skip(0) =~= all);
    while i < args.len()
        invariant
            i <= args.len(),
            number::reads(*read),
            model == number::readings(*read),
            all == ordering::views(args@),
            outcome == request(model, all, no_options()),
            outcome == request(model, all.skip(i as int), options@),
        decreases args.len() - i,
    {
        let name = args[i].as_str();
        let ghost rest = all.skip(i as int);
        assert(rest[0] == name@);
        match find_setting(name) {
            Some(setting) => {
                if i + 1 >= args.len() {
                    return Err(CliError::MissingValue(args[i].clone()));
                }
                assert(rest[1] == args@[i + 1]@);
                assert(rest.skip(2) =~= all.skip(i + 2));
                match options.overrides.set(setting, &args[i + 1], read) {
                    Ok(_) => {},
                    Err(error) => return Err(error),
                }
                i += 2;
            },
            None => {
                assert(rest.skip(1) =~= all.skip(i + 1));
                if same_text(name, "--dry-run") {
                    options.dry_run = true;
                } else if same_text(name, "--save-config") {
                    options.save_config = true;
                } else if same_text(name, "--help") || same_text(name, "-h") {
                    return Ok(CliRequest::Help);
                } else {
                    return Err(CliError::UnknownArgument(args[i].clone()));
                }
                i += 1;
            },
        }
    }
    Ok(CliRequest::Run(options))
}

/// The Telegram credentials that the environment gives.
pub struct EnvCredentials {
    pub token: Option<String>,
    pub chat_id: Option<String>,
}

/// A text that the environment gives in place of another one, unless it is empty.
pub open spec fn unless_empty(given: Option<Seq<char>>, value: Seq<char>) -> Seq<char> {
    match given {
        Some(new) => if new.len() > 0 {
            new
        } else {
            value
        },
        None => value,
    }
}

/// A configuration with the credentials of the environment.
pub open spec fn with_credentials(
    token: Option<Seq<char>>,
    chat_id: Option<Seq<char>>,
    config: ConfigView,
) -> ConfigView {
    ConfigView {
        telegram_token: unless_empty(token, config.telegram_token),
        telegram_chat_id: unless_empty(chat_id, config.telegram_chat_id),
        ..config
    }
}

/// Puts the credentials of the environment in place of those of the file.
pub fn apply_env_overrides(config: &mut Config, env: &EnvCredentials)
    ensures
        final(config)@ == with_credentials(
            text::optional_chars(env.token),
            text::optional_chars(env.chat_id),
            old(config)@,
        ),
{
    if let Some(token) = &env.token {
        if !token.as_str().is_empty() {
            config.telegram_token = token.clone();
        }
    }
    if let Some(chat_id) = &env.chat_id {
        if !chat_id.as_str().is_empty() {
            config.telegram_chat_id = chat_id.clone();
        }
    }
}

/// A configuration, its times and how to run with it.
pub struct ParsedConfig {
    pub config: Config,
    pub validated: ValidatedConfig,
    pub dry_run: bool,
    pub save_config: bool,
}

/// An optional configuration by its contents.
pub open spec fn optional_config(file: Option<Config>) -> Option<ConfigView> {
    match file {
        Some(config) => Some(config@),
        None => None,
    }
}

/// The configuration that command line, environment and file make together.
pub open spec fn resolved(
    overrides: OverridesView,
    token: Option<Seq<char>>,
    chat_id: Option<Seq<char>>,
    file: Option<ConfigView>,
) -> ConfigView {
    overridden(
        overrides,
        with_credentials(token, chat_id, chosen(file, config::default_config())),
    )
}

/// What comes of checking a configuration that is to be run with options.
pub open spec fn parses_to(
    wanted: ConfigView,
    dry_run: bool,
    save_config: bool,
    result: Result<ParsedConfig, ConfigError>,
) -> bool {
    match result {
        Ok(parsed) => {
            &&& parsed.config@ == wanted
            &&& config::validation(wanted, dry_run) == Ok::<ValidatedConfig, config::ConfigFault>(
                parsed.validated,
            )
            &&& parsed.validated.valid()
            &&& parsed.dry_run == dry_run
            &&& parsed.save_config == save_config
        },
        Err(error) => config::validation(wanted, dry_run) == Err::<
            ValidatedConfig,
            config::ConfigFault,
        >(error@),
    }
}

/// Puts together what command line, environment and file say.
fn merge_config(overrides: &CliOverrides, env: &EnvCredentials, file: Option<Config>) -> (result:
    Config)
    ensures
        result@ == resolved(
            overrides@,
            text::optional_chars(env.token),
            text::optional_chars(env.chat_id),
            optional_config(file),
        ),
{
    let mut config = match file {
        Some(config) => config,
        None => Config::default(),
    };
    apply_env_overrides(&mut config, env);
    overrides.apply(&mut config);
    config
}

/// Checks a configuration that is to be run with options.
fn check_config(config: Config, dry_run: bool, save_config: bool) -> (result: Result<
    ParsedConfig,
    ConfigError,
>)
    requires
        config::durations_split(config@),
    ensures
        parses_to(config@, dry_run, save_config, result),
{
    match validate_config(&config, dry_run) {
        Ok(validated) => Ok(ParsedConfig { config, validated, dry_run, save_config }),
        Err(error) => Err(error),
    }
}

/// Makes a configuration of the options of the command line, the environment and
/// the file, and checks it.
pub fn parse_config(options: CliOptions, env: &EnvCredentials, file: Option<Config>) -> (result:
    Result<ParsedConfig, ConfigError>)
    requires
        config::durations_split(
            resolved(
                options.overrides@,
                text::optional_chars(env.token),
                text::optional_chars(env.chat_id),
                optional_config(file),
            ),
        ),
    ensures
        parses_to(
            resolved(
                options.overrides@,
                text::optional_chars(env.token),
                text::optional_chars(env.chat_id),
                optional_config(file),
            ),
            options.dry_run,
            options.save_config,
            result,
        ),
{
    let config = merge_config(&options.overrides, env, file);
    check_config(config, options.dry_run, options.save_config)
}

/// Makes and checks a configuration as [`parse_config`] does, or tells by `None` that a
/// duration cannot be split into amount and unit.
pub fn try_parse_config(options: CliOptions, env: &EnvCredentials, file: Option<Config>) -> (result:
    Option<Result<ParsedConfig, ConfigError>>)
    ensures
        ({
            let wanted = resolved(
                options.overrides@,
                text::optional_chars(env.token),
                text::optional_chars(env.chat_id),
                optional_config(file),
            );
            match result {
                Some(parsed) => config::durations_split(wanted) && parses_to(
                    wanted,
                    options.dry_run,
                    options.save_config,
                    parsed,
                ),
                None => !config::durations_split(wanted),
            }
        }),
{
    let config = merge_config(&options.overrides, env, file);
    if can_split_durations(&config) {
        Some(check_config(config, options.dry_run, options.save_config))
    } else {
        None
    }
}

/// What comes of loading a configuration anew.
pub open spec fn reloads_to(
    wanted: Option<ConfigView>,
    dry_run: bool,
    result: Result<Option<(Config, ValidatedConfig)>, ConfigError>,
) -> bool {
    match wanted {
        None => result == Ok::<Option<(Config, ValidatedConfig)>, ConfigError>(None),
        Some(config) => match result {
            Ok(Some((updated, validated))) => {
                &&& updated@ == config
                &&& config::validation(config, dry_run) == Ok::<
                    ValidatedConfig,
                    config::ConfigFault,
                >(validated)
                &&& validated.valid()
            },
            Ok(None) => false,
            Err(error) => config::validation(config, dry_run) == Err::<
                ValidatedConfig,
                config::ConfigFault,
            >(error@),
        },
    }
}

/// The configuration that environment and file make together, where there is a file.
pub open spec fn refreshed(
    token: Option<Seq<char>>,
    chat_id: Option<Seq<char>>,
    file: Option<ConfigView>,
) -> Option<ConfigView> {
    match file {
        Some(config) => Some(with_credentials(token, chat_id, config)),
        None => None,
    }
}

/// Makes a configuration of the file and the environment anew, where there is a
/// file, and checks it.
pub fn reload_config(file: Option<Config>, env: &EnvCredentials, dry_run: bool) -> (result: Result<
    Option<(Config, ValidatedConfig)>,
    ConfigError,
>)
    requires
        file matches Some(config) ==> config::durations_split(config@),
    ensures
        reloads_to(
            refreshed(
                text::optional_chars(env.token),
                text::optional_chars(env.chat_id),
                optional_config(file),
            ),
            dry_run,
            result,
        ),
{
    match file {
        None => Ok(None),
        Some(found) => {
            let mut config = found;
            apply_env_overrides(&mut config, env);
            match validate_config(&config, dry_run) {
                Ok(validated) => Ok(Some((config, validated))),
                Err(error) => Err(error),
            }
        },
    }
}

/// Loads a configuration anew as [`reload_config`] does, or tells by `None` that a duration
/// cannot be split into amount and unit.
pub fn try_reload_config(file: Option<Config>, env: &EnvCredentials, dry_run: bool) -> (result:
    Option<Result<Option<(Config, ValidatedConfig)>, ConfigError>>)
    ensures
        ({
            let splits = file matches Some(config) ==> config::durations_split(config@);
            match result {
                Some(reloaded) => splits && reloads_to(
                    refreshed(
                        text::optional_chars(env.token),
                        text::optional_chars(env.chat_id),
                        optional_config(file),
                    ),
                    dry_run,
                    reloaded,
                ),
                None => !splits,
            }
        }),
{
    if let Some(config) = &file {
        if !can_split_durations(config) {
            return None;
        }
    }
    Some(reload_config(file, env, dry_run))
}

/// What the command line sets stands, whatever environment and file say.
pub proof fn law_command_line_wins(
    overrides: OverridesView,
    token: Option<Seq<char>>,
    chat_id: Option<Seq<char>>,
    file: Option<ConfigView>,
)
    ensures
        ({
            let config = resolved(overrides, token, chat_id, file);
            &&& overrides.rolling_window matches Some(value) ==> config.rolling_window == value
            &&& overrides.candle_interval matches Some(value) ==> config.candle_interval == value
            &&& overrides.sideways_band_pct matches Some(value) ==> config.sideways_band_pct
                == value
            &&& overrides.min_sideways_closes_pct matches Some(value)
                ==> config.min_sideways_closes_pct == value
            &&& overrides.positive_spike_pct matches Some(value) ==> config.positive_spike_pct
                == value
            &&& overrides.post_spike_quiet_period matches Some(value)
                ==> config.post_spike_quiet_period == value
            &&& overrides.min_quote_volume_24h matches Some(value) ==> config.min_quote_volume_24h
                == value
            &&& overrides.max_quote_volume_24h matches Some(value) ==> config.max_quote_volume_24h
                == value
            &&& overrides.symbol_refresh_secs matches Some(value) ==> config.symbol_refresh_secs
                == value
            &&& overrides.telegram_token matches Some(value) ==> config.telegram_token == value
            &&& overrides.telegram_chat_id matches Some(value) ==> config.telegram_chat_id
                == value
            &&& overrides.healthcheck_url matches Some(value) ==> config.healthcheck_url == value
        }),
{
}

/// Credentials of the environment that are not empty stand, whatever the file says, unless
/// the command line sets others.
pub proof fn law_environment_beats_file(
    overrides: OverridesView,
    token: Option<Seq<char>>,
    chat_id: Option<Seq<char>>,
    file: Option<ConfigView>,
)
    ensures
        ({
            let config = resolved(overrides, token, chat_id, file);
            &&& overrides.telegram_token is None && token is Some && token->0.len() > 0
                ==> config.telegram_token == token->0
            &&& overrides.telegram_chat_id is None && chat_id is Some && chat_id->0.len() > 0
                ==> config.telegram_chat_id == chat_id->0
        }),
{
}

/// Without settings on the command line, what is loaded anew is what a start would find.
pub proof fn law_reload_is_like_a_start(
    token: Option<Seq<char>>,
    chat_id: Option<Seq<char>>,
    file: ConfigView,
)
    ensures
        with_credentials(token, chat_id, file) == resolved(
            no_overrides(),
            token,
            chat_id,
            Some(file),
        ),
{
}

} // verus!
