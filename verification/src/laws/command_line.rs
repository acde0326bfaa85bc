//! What the command line asks for, and where the parts of a configuration come from.

use crate::cli;
use crate::cli::{
    apply_env_overrides, parse_args, parse_config, reload_config, try_parse_config, try_reload_config, CliError,
    CliFault, CliOptions, CliOverrides, CliRequest, EnvCredentials, OptionsView, OverridesView, ParsedConfig,
    RequestView, Setting,
};
use crate::config;
use crate::config::{validate_config, Config, ConfigError, ConfigView, ValidatedConfig};
use crate::number;
use crate::number::Number;
use crate::ordering;
use crate::text;
use vstd::prelude::*;

verus! {

/// What arguments ask for on top of earlier ones is what they ask for on top of the options
/// of the earlier ones.
proof fn lemma_more_arguments(
    read: spec_fn(Seq<char>) -> Option<Number>,
    args: Seq<Seq<char>>,
    more: Seq<Seq<char>>,
    options: OptionsView,
    reached: OptionsView,
)
    requires
        cli::request(read, args, options) == Ok::<RequestView, CliFault>(
            RequestView::Run(reached),
        ),
    ensures
        cli::request(read, args + more, options) == cli::request(read, more, reached),
    decreases args.len(),
{
    if args.len() == 0 {
        assert(args + more =~= more);
    } else {
        let all = args + more;
        assert(all[0] == args[0]);
        match cli::setting_named(args[0]) {
            Some(setting) => {
                assert(args.len() >= 2);
                assert(all[1] == args[1]);
                assert(all.skip(2) =~= args.skip(2) + more);
                let overrides = cli::with_setting(read, options.overrides, setting, args[1])->Ok_0;
                lemma_more_arguments(
                    read,
                    args.skip(2),
                    more,
                    OptionsView { overrides, ..options },
                    reached,
                );
            },
            None => {
                assert(all.skip(1) =~= args.skip(1) + more);
                if args[0] == "--dry-run"@ {
                    lemma_more_arguments(
                        read,
                        args.skip(1),
                        more,
                        OptionsView { dry_run: true, ..options },
                        reached,
                    );
                } else {
                    lemma_more_arguments(
                        read,
                        args.skip(1),
                        more,
                        OptionsView { save_config: true, ..options },
                        reached,
                    );
                }
            },
        }
    }
}

/// The names of the command line are told apart.
proof fn lemma_names()
    ensures
        cli::setting_named("--rolling-window"@) == Some(Setting::RollingWindow),
        cli::setting_named("--candle-interval"@) == Some(Setting::CandleInterval),
        cli::setting_named("--post-spike-quiet-period"@) == Some(Setting::PostSpikeQuietPeriod),
        cli::setting_named("--telegram-token"@) == Some(Setting::TelegramToken),
        cli::setting_named("--telegram-chat-id"@) == Some(Setting::TelegramChatId),
        cli::setting_named("--healthcheck-url"@) == Some(Setting::HealthcheckUrl),
        cli::setting_named("--sideways-band-pct"@) == Some(Setting::SidewaysBandPct),
        cli::setting_named("--min-sideways-closes-pct"@) == Some(Setting::MinSidewaysClosesPct),
        cli::setting_named("--positive-spike-pct"@) == Some(Setting::PositiveSpikePct),
        cli::setting_named("--min-quote-volume-24h"@) == Some(Setting::MinQuoteVolume24h),
        cli::setting_named("--max-quote-volume-24h"@) == Some(Setting::MaxQuoteVolume24h),
        cli::setting_named("--symbol-refresh-secs"@) == Some(Setting::SymbolRefreshSecs),
        cli::setting_named("--dry-run"@) is None,
        cli::setting_named("--save-config"@) is None,
        cli::setting_named("--help"@) is None,
        cli::setting_named("-h"@) is None,
        "--dry-run"@ != "--save-config"@,
        "--dry-run"@ != "--help"@,
        "--dry-run"@ != "-h"@,
        "--save-config"@ != "--help"@,
        "--save-config"@ != "-h"@,
        "--help"@ != "-h"@,
{
    reveal_strlit("--rolling-window");
    reveal_strlit("--candle-interval");
    reveal_strlit("--post-spike-quiet-period");
    reveal_strlit("--telegram-token");
    reveal_strlit("--telegram-chat-id");
    reveal_strlit("--healthcheck-url");
    reveal_strlit("--sideways-band-pct");
    reveal_strlit("--min-sideways-closes-pct");
    reveal_strlit("--positive-spike-pct");
    reveal_strlit("--min-quote-volume-24h");
    reveal_strlit("--max-quote-volume-24h");
    reveal_strlit("--symbol-refresh-secs");
    reveal_strlit("--dry-run");
    reveal_strlit("--save-config");
    reveal_strlit("--help");
    reveal_strlit("-h");
    assert("--rolling-window"@.len() == 16 && "--rolling-window"@[2] == 'r' && "--rolling-window"@[3] == 'o');
    assert("--candle-interval"@.len() == 17 && "--candle-interval"@[2] == 'c' && "--candle-interval"@[3] == 'a');
    assert("--post-spike-quiet-period"@.len() == 25 && "--post-spike-quiet-period"@[2] == 'p' && "--post-spike-quiet-period"@[3] == 'o');
    assert("--telegram-token"@.len() == 16 && "--telegram-token"@[2] == 't' && "--telegram-token"@[3] == 'e');
    assert("--telegram-chat-id"@.len() == 18 && "--telegram-chat-id"@[2] == 't' && "--telegram-chat-id"@[3] == 'e');
    assert("--healthcheck-url"@.len() == 17 && "--healthcheck-url"@[2] == 'h' && "--healthcheck-url"@[3] == 'e');
    assert("--sideways-band-pct"@.len() == 19 && "--sideways-band-pct"@[2] == 's' && "--sideways-band-pct"@[3] == 'i');
    assert("--min-sideways-closes-pct"@.len() == 25 && "--min-sideways-closes-pct"@[2] == 'm' && "--min-sideways-closes-pct"@[3] == 'i');
    assert("--positive-spike-pct"@.len() == 20 && "--positive-spike-pct"@[2] == 'p' && "--positive-spike-pct"@[3] == 'o');
    assert("--min-quote-volume-24h"@.len() == 22 && "--min-quote-volume-24h"@[2] == 'm' && "--min-quote-volume-24h"@[3] == 'i');
    assert("--max-quote-volume-24h"@.len() == 22 && "--max-quote-volume-24h"@[2] == 'm' && "--max-quote-volume-24h"@[3] == 'a');
    assert("--symbol-refresh-secs"@.len() == 21 && "--symbol-refresh-secs"@[2] == 's' && "--symbol-refresh-secs"@[3] == 'y');
    assert("--dry-run"@.len() == 9 && "--dry-run"@[2] == 'd' && "--dry-run"@[3] == 'r');
    assert("--save-config"@.len() == 13 && "--save-config"@[2] == 's' && "--save-config"@[3] == 'a');
    assert("--help"@.len() == 6 && "--help"@[2] == 'h' && "--help"@[3] == 'e');
    assert("-h"@.len() == 2 && "-h"@[1] == 'h');
}

/// Without arguments nothing is set, and neither flag is given.
pub proof fn law_no_arguments_set_nothing<R: Fn(&str) -> Option<Number>>(
    args: Vec<String>,
    read: R,
    result: Result<CliRequest, CliError>,
)
    requires
        number::reads(read),
        call_ensures(parse_args::<R>, (&args, &read), result),
        args@.len() == 0,
    ensures
        result matches Ok(CliRequest::Run(options)) && !options.dry_run && !options.save_config
            && options.overrides@ == (OverridesView {
            rolling_window: None,
            candle_interval: None,
            post_spike_quiet_period: None,
            telegram_token: None,
            telegram_chat_id: None,
            healthcheck_url: None,
            sideways_band_pct: None,
            min_sideways_closes_pct: None,
            positive_spike_pct: None,
            min_quote_volume_24h: None,
            max_quote_volume_24h: None,
            symbol_refresh_secs: None,
        }),
{
    assert(ordering::views(args@).len() == 0);
}

/// A setting that follows other arguments takes the value behind its name, and leaves all
/// else as it was. A text is taken as it is, a number as it is read, and where it cannot be
/// read, the command line is refused.
pub proof fn law_settings_take_their_values<R: Fn(&str) -> Option<Number>>(
    args: Vec<String>,
    more: Vec<String>,
    name: Seq<char>,
    value: Seq<char>,
    read: R,
    options: CliOptions,
    result: Result<CliRequest, CliError>,
)
    requires
        number::reads(read),
        call_ensures(parse_args::<R>, (&args, &read), Ok(CliRequest::Run(options))),
        call_ensures(parse_args::<R>, (&more, &read), result),
        ordering::views(more@) == ordering::views(args@) + seq![name, value],
    ensures
        ({
            let before = options.overrides@;
            let number = number::readings(read)(value);
            &&& name == "--rolling-window"@ ==> (result matches Ok(CliRequest::Run(now)) && now@ == (
            OptionsView {
                overrides: OverridesView { rolling_window: Some(value), ..before },
                ..options@
            }))
            &&& name == "--candle-interval"@ ==> (result matches Ok(CliRequest::Run(now)) && now@ == (
            OptionsView {
                overrides: OverridesView { candle_interval: Some(value), ..before },
                ..options@
            }))
            &&& name == "--post-spike-quiet-period"@ ==> (result matches Ok(CliRequest::Run(now)) && now@ == (
            OptionsView {
                overrides: OverridesView { post_spike_quiet_period: Some(value), ..before },
                ..options@
            }))
            &&& name == "--telegram-token"@ ==> (result matches Ok(CliRequest::Run(now)) && now@ == (
            OptionsView {
                overrides: OverridesView { telegram_token: Some(value), ..before },
                ..options@
            }))
            &&& name == "--telegram-chat-id"@ ==> (result matches Ok(CliRequest::Run(now)) && now@ == (
            OptionsView {
                overrides: OverridesView { telegram_chat_id: Some(value), ..before },
                ..options@
            }))
            &&& name == "--healthcheck-url"@ ==> (result matches Ok(CliRequest::Run(now)) && now@ == (
            OptionsView {
                overrides: OverridesView { healthcheck_url: Some(value), ..before },
                ..options@
            }))
            &&& name == "--sideways-band-pct"@ && number is Some ==> (result matches Ok(
                CliRequest::Run(now),
            ) && now@ == (OptionsView {
                overrides: OverridesView { sideways_band_pct: number, ..before },
                ..options@
            }))
            &&& name == "--sideways-band-pct"@ && number is None ==> (result matches Err(
                CliError::NotANumber(empty),
            ) && empty == (value.len() == 0))
            &&& name == "--min-sideways-closes-pct"@ && number is Some ==> (result matches Ok(
                CliRequest::Run(now),
            ) && now@ == (OptionsView {
                overrides: OverridesView { min_sideways_closes_pct: number, ..before },
                ..options@
            }))
            &&& name == "--min-sideways-closes-pct"@ && number is None ==> (result matches Err(
                CliError::NotANumber(empty),
            ) && empty == (value.len() == 0))
            &&& name == "--positive-spike-pct"@ && number is Some ==> (result matches Ok(
                CliRequest::Run(now),
            ) && now@ == (OptionsView {
                overrides: OverridesView { positive_spike_pct: number, ..before },
                ..options@
            }))
            &&& name == "--positive-spike-pct"@ && number is None ==> (result matches Err(
                CliError::NotANumber(empty),
            ) && empty == (value.len() == 0))
            &&& name == "--min-quote-volume-24h"@ && number is Some ==> (result matches Ok(
                CliRequest::Run(now),
            ) && now@ == (OptionsView {
                overrides: OverridesView { min_quote_volume_24h: number, ..before },
                ..options@
            }))
            &&& name == "--min-quote-volume-24h"@ && number is None ==> (result matches Err(
                CliError::NotANumber(empty),
            ) && empty == (value.len() == 0))
            &&& name == "--max-quote-volume-24h"@ && number is Some ==> (result matches Ok(
                CliRequest::Run(now),
            ) && now@ == (OptionsView {
                overrides: OverridesView { max_quote_volume_24h: number, ..before },
                ..options@
            }))
            &&& name == "--max-quote-volume-24h"@ && number is None ==> (result matches Err(
                CliError::NotANumber(empty),
            ) && empty == (value.len() == 0))
            &&& name == "--symbol-refresh-secs"@ ==> match text::unsigned_numeral(value) {
                Ok(n) => result matches Ok(CliRequest::Run(now)) && now@ == (OptionsView {
                    overrides: OverridesView { symbol_refresh_secs: Some(n), ..before },
                    ..options@
                }),
                Err(fault) => result matches Err(CliError::NotAnInteger(told)) && told == fault,
            }
        }),
{
    let model = number::readings(read);
    let added = seq![name, value];
    lemma_names();
    lemma_more_arguments(
        model,
        ordering::views(args@),
        added,
        cli::no_options(),
        options@,
    );
    assert(added.skip(2) =~= Seq::<Seq<char>>::empty());
    assert(cli::request(model, ordering::views(more@), cli::no_options()) == cli::request(
        model,
        added,
        options@,
    ));
    assert(added[0] == name && added[1] == value);
    if let Some(setting) = cli::setting_named(name) {
        if let Ok(overrides) = cli::with_setting(model, options.overrides@, setting, value) {
            let now = OptionsView { overrides, ..options@ };
            assert(cli::request(model, added.skip(2), now) == Ok::<RequestView, CliFault>(
                RequestView::Run(now),
            ));
        }
    }
    assert(name == "--rolling-window"@ ==> cli::setting_named(name) == Some(Setting::RollingWindow));
    assert(name == "--candle-interval"@ ==> cli::setting_named(name) == Some(Setting::CandleInterval));
    assert(name == "--post-spike-quiet-period"@ ==> cli::setting_named(name) == Some(Setting::PostSpikeQuietPeriod));
    assert(name == "--telegram-token"@ ==> cli::setting_named(name) == Some(Setting::TelegramToken));
    assert(name == "--telegram-chat-id"@ ==> cli::setting_named(name) == Some(Setting::TelegramChatId));
    assert(name == "--healthcheck-url"@ ==> cli::setting_named(name) == Some(Setting::HealthcheckUrl));
    assert(name == "--sideways-band-pct"@ ==> cli::setting_named(name) == Some(Setting::SidewaysBandPct));
    assert(name == "--min-sideways-closes-pct"@ ==> cli::setting_named(name) == Some(Setting::MinSidewaysClosesPct));
    assert(name == "--positive-spike-pct"@ ==> cli::setting_named(name) == Some(Setting::PositiveSpikePct));
    assert(name == "--min-quote-volume-24h"@ ==> cli::setting_named(name) == Some(Setting::MinQuoteVolume24h));
    assert(name == "--max-quote-volume-24h"@ ==> cli::setting_named(name) == Some(Setting::MaxQuoteVolume24h));
    assert(name == "--symbol-refresh-secs"@ ==> cli::setting_named(name) == Some(Setting::SymbolRefreshSecs));
}

/// A flag that follows other arguments is set, and leaves all else as it was.
pub proof fn law_flags_are_set<R: Fn(&str) -> Option<Number>>(
    args: Vec<String>,
    more: Vec<String>,
    name: Seq<char>,
    read: R,
    options: CliOptions,
    result: Result<CliRequest, CliError>,
)
    requires
        number::reads(read),
        call_ensures(parse_args::<R>, (&args, &read), Ok(CliRequest::Run(options))),
        call_ensures(parse_args::<R>, (&more, &read), result),
        ordering::views(more@) == ordering::views(args@) + seq![name],
    ensures
        name == "--dry-run"@ ==> (result matches Ok(CliRequest::Run(now)) && now@ == (OptionsView {
            dry_run: true,
            ..options@
        })),
        name == "--save-config"@ ==> (result matches Ok(CliRequest::Run(now)) && now@ == (
        OptionsView { save_config: true, ..options@ })),
{
    let model = number::readings(read);
    let added = seq![name];
    lemma_names();
    lemma_more_arguments(
        model,
        ordering::views(args@),
        added,
        cli::no_options(),
        options@,
    );
    assert(added.skip(1) =~= Seq::<Seq<char>>::empty());
    assert(cli::request(model, ordering::views(more@), cli::no_options()) == cli::request(
        model,
        added,
        options@,
    ));
    assert(added[0] == name);
    let rest = added.skip(1);
    let dry = OptionsView { dry_run: true, ..options@ };
    let saving = OptionsView { save_config: true, ..options@ };
    assert(cli::request(model, rest, dry) == Ok::<RequestView, CliFault>(RequestView::Run(dry)));
    assert(cli::request(model, rest, saving) == Ok::<RequestView, CliFault>(
        RequestView::Run(saving),
    ));
}

/// Whether a name stands for a setting that needs a value.
pub open spec fn needs_value(name: Seq<char>) -> bool {
    name == "--rolling-window"@
        || name == "--candle-interval"@
        || name == "--post-spike-quiet-period"@
        || name == "--telegram-token"@
        || name == "--telegram-chat-id"@
        || name == "--healthcheck-url"@
        || name == "--sideways-band-pct"@
        || name == "--min-sideways-closes-pct"@
        || name == "--positive-spike-pct"@
        || name == "--min-quote-volume-24h"@
        || name == "--max-quote-volume-24h"@
        || name == "--symbol-refresh-secs"@
}

/// Once a command line asks for help, nothing that follows is looked at. A setting without a
/// value behind it and a name that stands for nothing are refused, and told by name.
pub proof fn law_help_and_faults_end_the_command_line<R: Fn(&str) -> Option<Number>>(
    args: Vec<String>,
    more: Vec<String>,
    name: Seq<char>,
    rest: Seq<Seq<char>>,
    read: R,
    options: CliOptions,
    result: Result<CliRequest, CliError>,
)
    requires
        number::reads(read),
        call_ensures(parse_args::<R>, (&args, &read), Ok(CliRequest::Run(options))),
        call_ensures(parse_args::<R>, (&more, &read), result),
        ordering::views(more@) == ordering::views(args@) + (seq![name] + rest),
    ensures
        name == "--help"@ || name == "-h"@ ==> result == Ok::<CliRequest, CliError>(
            CliRequest::Help,
        ),
        needs_value(name) && rest.len() == 0 ==> (result matches Err(
            CliError::MissingValue(told),
        ) && told@ == name),
        !needs_value(name) && name != "--dry-run"@ && name != "--save-config"@ && name
            != "--help"@ && name != "-h"@ ==> (result matches Err(CliError::UnknownArgument(told))
            && told@ == name),
{
    let model = number::readings(read);
    let added = seq![name] + rest;
    lemma_names();
    lemma_more_arguments(
        model,
        ordering::views(args@),
        added,
        cli::no_options(),
        options@,
    );
    assert(cli::request(model, ordering::views(more@), cli::no_options()) == cli::request(
        model,
        added,
        options@,
    ));
    assert(added[0] == name);
    assert(needs_value(name) <==> cli::setting_named(name) is Some);
}

/// The value of the command line, where there is one, and otherwise the other one.
pub open spec fn given_or<T>(given: Option<T>, other: T) -> T {
    if given is Some {
        given->0
    } else {
        other
    }
}

/// The text of the environment, where there is one that is not empty, and otherwise the
/// other one.
pub open spec fn named_or(given: Option<Seq<char>>, other: Seq<char>) -> Seq<char> {
    if given is Some && given->0 != Seq::<char>::empty() {
        given->0
    } else {
        other
    }
}

/// Whether a configuration is made of the command line, the environment and a base: each
/// setting is that of the command line, where it is given there. Otherwise it is that of the
/// base, but for the credentials, which the environment may give.
pub open spec fn comes_from(
    config: ConfigView,
    given: OverridesView,
    token: Option<Seq<char>>,
    chat_id: Option<Seq<char>>,
    base: ConfigView,
) -> bool {
    &&& config.rolling_window == given_or(given.rolling_window, base.rolling_window)
    &&& config.candle_interval == given_or(given.candle_interval, base.candle_interval)
    &&& config.post_spike_quiet_period == given_or(given.post_spike_quiet_period, base.post_spike_quiet_period)
    &&& config.telegram_token == given_or(given.telegram_token, named_or(token, base.telegram_token))
    &&& config.telegram_chat_id == given_or(given.telegram_chat_id, named_or(chat_id, base.telegram_chat_id))
    &&& config.healthcheck_url == given_or(given.healthcheck_url, base.healthcheck_url)
    &&& config.sideways_band_pct == given_or(given.sideways_band_pct, base.sideways_band_pct)
    &&& config.min_sideways_closes_pct == given_or(given.min_sideways_closes_pct, base.min_sideways_closes_pct)
    &&& config.positive_spike_pct == given_or(given.positive_spike_pct, base.positive_spike_pct)
    &&& config.min_quote_volume_24h == given_or(given.min_quote_volume_24h, base.min_quote_volume_24h)
    &&& config.max_quote_volume_24h == given_or(given.max_quote_volume_24h, base.max_quote_volume_24h)
    &&& config.symbol_refresh_secs == given_or(given.symbol_refresh_secs, base.symbol_refresh_secs)
}

/// A configuration in use is made of the command line, the environment and the file, or what
/// is set where there is no file, and is accepted or refused as the check of it says. The
/// flags are those of the command line.
pub proof fn law_configurations_are_put_together(
    options: CliOptions,
    env: EnvCredentials,
    file: Option<Config>,
    result: Result<ParsedConfig, ConfigError>,
    base: Config,
    wanted: Config,
    checked: Result<ValidatedConfig, ConfigError>,
)
    requires
        call_ensures(parse_config, (options, &env, file), result) || call_ensures(
            try_parse_config,
            (options, &env, file),
            Some(result),
        ),
        file is Some ==> base == file->0,
        file is None ==> call_ensures(<Config as Default>::default, (), base),
        comes_from(
            wanted@,
            options.overrides@,
            text::optional_chars(env.token),
            text::optional_chars(env.chat_id),
            base@,
        ),
        call_ensures(validate_config, (&wanted, options.dry_run), checked),
    ensures
        match checked {
            Ok(validated) => result matches Ok(parsed) && parsed.config@ == wanted@
                && parsed.validated == validated && parsed.dry_run == options.dry_run
                && parsed.save_config == options.save_config,
            Err(fault) => result matches Err(error) && error@ == fault@,
        },
{
    let token = text::optional_chars(env.token);
    let chat_id = text::optional_chars(env.chat_id);
    let told = cli::resolved(options.overrides@, token, chat_id, cli::optional_config(file));
    assert(base@ == cli::chosen(cli::optional_config(file), config::default_config()));
    lemma_named(token, base@.telegram_token);
    lemma_named(chat_id, base@.telegram_chat_id);
    assert(told == wanted@);
}

proof fn lemma_named(given: Option<Seq<char>>, other: Seq<char>)
    ensures
        named_or(given, other) == cli::unless_empty(given, other),
{
    if given is Some && given->0.len() == 0 {
        assert(given->0 =~= Seq::<char>::empty());
    }
}

/// What is loaded anew is made of the environment and the file, and is accepted or refused
/// as the check of it says. Where there is no file, nothing is loaded.
pub proof fn law_configurations_are_loaded_anew(
    file: Option<Config>,
    env: EnvCredentials,
    dry_run: bool,
    result: Result<Option<(Config, ValidatedConfig)>, ConfigError>,
    wanted: Config,
    checked: Result<ValidatedConfig, ConfigError>,
)
    requires
        call_ensures(reload_config, (file, &env, dry_run), result) || call_ensures(
            try_reload_config,
            (file, &env, dry_run),
            Some(result),
        ),
        file matches Some(base) ==> comes_from(
            wanted@,
            (OverridesView {
                rolling_window: None,
                candle_interval: None,
                post_spike_quiet_period: None,
                telegram_token: None,
                telegram_chat_id: None,
                healthcheck_url: None,
                sideways_band_pct: None,
                min_sideways_closes_pct: None,
                positive_spike_pct: None,
                min_quote_volume_24h: None,
                max_quote_volume_24h: None,
                symbol_refresh_secs: None,
            }),
            text::optional_chars(env.token),
            text::optional_chars(env.chat_id),
            base@,
        ),
        call_ensures(validate_config, (&wanted, dry_run), checked),
    ensures
        file is None ==> (result matches Ok(found) && found is None),
        file is Some ==> match checked {
            Ok(validated) => result matches Ok(found) && found is Some && (found->0).0@ == wanted@
                && (found->0).1 == validated,
            Err(fault) => result matches Err(error) && error@ == fault@,
        },
{
    let token = text::optional_chars(env.token);
    let chat_id = text::optional_chars(env.chat_id);
    if file is Some {
        let base = file->0;
        lemma_named(token, base@.telegram_token);
        lemma_named(chat_id, base@.telegram_chat_id);
        assert(cli::with_credentials(token, chat_id, base@) == wanted@);
    }
}

/// What is set where there is no file.
pub proof fn law_defaults_are_set(base: Config)
    requires
        call_ensures(<Config as Default>::default, (), base),
    ensures
        base.rolling_window@ == "30d"@,
        base.candle_interval@ == "1h"@,
        base.sideways_band_pct == number::pattern(0x4000_0000_0000_0000),
        base.min_sideways_closes_pct == number::pattern(0x4057_c000_0000_0000),
        base.positive_spike_pct == number::pattern(0x4014_0000_0000_0000),
        base.post_spike_quiet_period@ == "3d"@,
        base.min_quote_volume_24h == number::pattern(0x4197_d784_0000_0000),
        base.max_quote_volume_24h == number::pattern(0x41cd_cd65_0000_0000),
        base.symbol_refresh_secs == 900,
        base.telegram_token@ == ""@,
        base.telegram_chat_id@ == ""@,
        base.healthcheck_url@ == ""@,
{
}

/// A configuration can be tried if and only if the last byte of its window is a character of
/// its own, and so is that of its quiet period wherever the window is a duration. Texts of
/// less than two bytes are no durations, and do not count.
pub proof fn law_units_are_single_bytes(
    options: CliOptions,
    env: EnvCredentials,
    file: Option<Config>,
    tried: Option<Result<ParsedConfig, ConfigError>>,
    base: Config,
    wanted: Config,
)
    requires
        call_ensures(try_parse_config, (options, &env, file), tried),
        file is Some ==> base == file->0,
        file is None ==> call_ensures(<Config as Default>::default, (), base),
        comes_from(
            wanted@,
            options.overrides@,
            text::optional_chars(env.token),
            text::optional_chars(env.chat_id),
            base@,
        ),
    ensures
        tried is Some <==> {
            let window = wanted.rolling_window@;
            let quiet = wanted.post_spike_quiet_period@;
            &&& text::byte_length(window) >= 2 ==> window[window.len() - 1] <= '\u{7f}'
            &&& config::duration(window) is Ok && text::byte_length(quiet) >= 2
                ==> quiet[quiet.len() - 1] <= '\u{7f}'
        },
{
    let token = text::optional_chars(env.token);
    let chat_id = text::optional_chars(env.chat_id);
    let told = cli::resolved(options.overrides@, token, chat_id, cli::optional_config(file));
    assert(base@ == cli::chosen(cli::optional_config(file), config::default_config()));
    lemma_named(token, base@.telegram_token);
    lemma_named(chat_id, base@.telegram_chat_id);
    assert(told == wanted@);
}

/// Applying a command line, or the environment, to a configuration changes what is given
/// there and nothing else.
pub proof fn law_only_what_is_given_changes(
    overrides: CliOverrides,
    config: &mut Config,
    env: EnvCredentials,
    other: &mut Config,
    nothing: CliOverrides,
)
    requires
        call_ensures(CliOverrides::apply, (&overrides, config), ()),
        call_ensures(apply_env_overrides, (other, &env), ()),
        call_ensures(<CliOverrides as Default>::default, (), nothing),
    ensures
        comes_from(final(config)@, overrides@, None, None, old(config)@),
        comes_from(
            final(other)@,
            nothing@,
            text::optional_chars(env.token),
            text::optional_chars(env.chat_id),
            old(other)@,
        ),
{
    lemma_named(text::optional_chars(env.token), old(other)@.telegram_token);
    lemma_named(text::optional_chars(env.chat_id), old(other)@.telegram_chat_id);
}

} // verus!
