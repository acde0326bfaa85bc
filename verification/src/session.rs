//! The order of work while the scanner runs.
//!
//! Times are milliseconds of a clock that never goes back.

use crate::config::{Config, ConfigView};
use crate::market;
use crate::market::analysis_config_changed;
use crate::retry::Backoff;
use crate::text::same_text;
use vstd::prelude::*;

verus! {

/// How often the file with the configuration is looked at, in seconds.
pub const CONFIG_POLL_SECS: u64 = 5;

/// How often the healthcheck URL is called, in seconds.
pub const HEALTHCHECK_INTERVAL_SECS: u64 = 3_600;

/// A piece of work. In each turn each of them gets its chance in this order.
#[derive(Clone, Copy, PartialEq, Eq, Structural, Debug)]
pub enum Step {
    CallHealthcheck,
    PollConfig,
    RefreshSymbols,
    ReadSockets,
}

/// The place of a piece of work in a turn.
pub open spec fn place_of(step: Step) -> int {
    match step {
        Step::CallHealthcheck => 0,
        Step::PollConfig => 1,
        Step::RefreshSymbols => 2,
        Step::ReadSockets => 3,
    }
}

/// Which piece of work gets its chance next, and when each of them is due.
#[derive(Clone, Copy, PartialEq, Eq, Structural, Debug)]
pub struct Session {
    pub stage: Step,
    pub healthcheck_at_ms: u64,
    pub config_poll_at_ms: u64,
    pub symbol_refresh_at_ms: u64,
}

/// The point in time so many seconds later, or the last one that there is.
pub open spec fn later(now_ms: u64, secs: u64) -> u64 {
    if now_ms + secs * 1000 <= u64::MAX {
        (now_ms + secs * 1000) as u64
    } else {
        u64::MAX
    }
}

/// Whether a piece of work is due. The sockets can always be read.
pub open spec fn is_due(session: Session, step: Step, now_ms: u64) -> bool {
    match step {
        Step::CallHealthcheck => now_ms >= session.healthcheck_at_ms,
        Step::PollConfig => now_ms >= session.config_poll_at_ms,
        Step::RefreshSymbols => now_ms >= session.symbol_refresh_at_ms,
        Step::ReadSockets => true,
    }
}

/// Whether a piece of work gets its chance in what is left of the turn and is due.
pub open spec fn is_eligible(session: Session, step: Step, now_ms: u64) -> bool {
    place_of(session.stage) <= place_of(step) && is_due(session, step, now_ms)
}

/// The first piece of work that is due in what is left of the turn.
pub open spec fn step_at(session: Session, now_ms: u64) -> Step {
    if is_eligible(session, Step::CallHealthcheck, now_ms) {
        Step::CallHealthcheck
    } else if is_eligible(session, Step::PollConfig, now_ms) {
        Step::PollConfig
    } else if is_eligible(session, Step::RefreshSymbols, now_ms) {
        Step::RefreshSymbols
    } else {
        Step::ReadSockets
    }
}

/// What gets its chance after a piece of work; behind the last one a new turn begins.
pub open spec fn following(step: Step) -> Step {
    match step {
        Step::CallHealthcheck => Step::PollConfig,
        Step::PollConfig => Step::RefreshSymbols,
        Step::RefreshSymbols => Step::ReadSockets,
        Step::ReadSockets => Step::CallHealthcheck,
    }
}

/// The point in time so many seconds later, or the last one that there is.
fn wait_until(now_ms: u64, secs: u64) -> (result: u64)
    ensures
        result == later(now_ms, secs),
{
    let at_ms: u128 = now_ms as u128 + secs as u128 * 1000;
    if at_ms <= u64::MAX as u128 {
        at_ms as u64
    } else {
        u64::MAX
    }
}

impl Session {
    /// Begins right after the healthcheck URL has been called for the first time.
    pub fn new(now_ms: u64) -> (result: Self)
        ensures
            result == (Session {
                stage: Step::CallHealthcheck,
                healthcheck_at_ms: later(now_ms, HEALTHCHECK_INTERVAL_SECS),
                config_poll_at_ms: now_ms,
                symbol_refresh_at_ms: now_ms,
            }),
    {
        Session {
            stage: Step::CallHealthcheck,
            healthcheck_at_ms: wait_until(now_ms, HEALTHCHECK_INTERVAL_SECS),
            config_poll_at_ms: now_ms,
            symbol_refresh_at_ms: now_ms,
        }
    }

    /// Begins the first turn of an analysis, once its histories are loaded and its
    /// sockets are connected.
    pub fn begin_analysis(&mut self, now_ms: u64, symbol_refresh_secs: u64)
        ensures
            *final(self) == (Session {
                stage: Step::CallHealthcheck,
                healthcheck_at_ms: old(self).healthcheck_at_ms,
                config_poll_at_ms: later(now_ms, CONFIG_POLL_SECS),
                symbol_refresh_at_ms: later(now_ms, symbol_refresh_secs),
            }),
    {
        self.stage = Step::CallHealthcheck;
        self.config_poll_at_ms = wait_until(now_ms, CONFIG_POLL_SECS);
        self.symbol_refresh_at_ms = wait_until(now_ms, symbol_refresh_secs);
    }

    /// The piece of work to do now.
    pub fn next_step(&mut self, now_ms: u64) -> (result: Step)
        ensures
            result == step_at(*old(self), now_ms),
            *final(self) == (Session { stage: following(result), ..*old(self) }),
    {
        let (may_call, may_poll, may_refresh) = match self.stage {
            Step::CallHealthcheck => (true, true, true),
            Step::PollConfig => (false, true, true),
            Step::RefreshSymbols => (false, false, true),
            Step::ReadSockets => (false, false, false),
        };
        if may_call && now_ms >= self.healthcheck_at_ms {
            self.stage = Step::PollConfig;
            Step::CallHealthcheck
        } else if may_poll && now_ms >= self.config_poll_at_ms {
            self.stage = Step::RefreshSymbols;
            Step::PollConfig
        } else if may_refresh && now_ms >= self.symbol_refresh_at_ms {
            self.stage = Step::ReadSockets;
            Step::RefreshSymbols
        } else {
            self.stage = Step::CallHealthcheck;
            Step::ReadSockets
        }
    }

    /// Notes that the healthcheck URL has been called.
    pub fn healthcheck_called(&mut self, now_ms: u64)
        ensures
            *final(self) == (Session {
                healthcheck_at_ms: later(now_ms, HEALTHCHECK_INTERVAL_SECS),
                ..*old(self)
            }),
    {
        self.healthcheck_at_ms = wait_until(now_ms, HEALTHCHECK_INTERVAL_SECS);
    }

    /// Notes that the file with the configuration has been looked at.
    pub fn config_polled(&mut self, now_ms: u64)
        ensures
            *final(self) == (Session {
                config_poll_at_ms: later(now_ms, CONFIG_POLL_SECS),
                ..*old(self)
            }),
    {
        self.config_poll_at_ms = wait_until(now_ms, CONFIG_POLL_SECS);
    }

    /// Notes that the markets have been looked at.
    pub fn symbols_refreshed(&mut self, now_ms: u64, symbol_refresh_secs: u64)
        ensures
            *final(self) == (Session {
                symbol_refresh_at_ms: later(now_ms, symbol_refresh_secs),
                ..*old(self)
            }),
    {
        self.symbol_refresh_at_ms = wait_until(now_ms, symbol_refresh_secs);
    }
}

/// A turn always goes on: what is done next never stands before what gets its chance, so
/// that the sockets are read after at most three other pieces of work.
pub proof fn law_turns_go_on(session: Session, now_ms: u64)
    ensures
        place_of(step_at(session, now_ms)) >= place_of(session.stage),
        step_at(session, now_ms) != Step::ReadSockets ==> place_of(
            following(step_at(session, now_ms)),
        ) > place_of(session.stage),
{
}

/// Nothing that is due is passed over: whatever stands in the turn before what is done
/// next is not due.
pub proof fn law_due_work_comes_first(session: Session, now_ms: u64, step: Step)
    requires
        is_eligible(session, step, now_ms),
    ensures
        place_of(step_at(session, now_ms)) <= place_of(step),
        is_due(session, step_at(session, now_ms), now_ms),
{
}

/// What a new configuration leads to.
#[derive(Clone, Copy, PartialEq, Eq, Structural, Debug)]
pub struct ReloadEffect {
    /// The healthcheck URL is another one, and is called at once.
    pub call_healthcheck: bool,
    /// The analysis begins anew.
    pub restart_analysis: bool,
}

/// What a new configuration leads to.
pub open spec fn effect_of(current: ConfigView, updated: ConfigView) -> ReloadEffect {
    ReloadEffect {
        call_healthcheck: current.healthcheck_url != updated.healthcheck_url,
        restart_analysis: market::analysis_differs(current, updated),
    }
}

/// Compares a new configuration with the one in use.
pub fn reload_effect(current: &Config, updated: &Config) -> (result: ReloadEffect)
    ensures
        result == effect_of(current@, updated@),
{
    ReloadEffect {
        call_healthcheck: !same_text(
            current.healthcheck_url.as_str(),
            updated.healthcheck_url.as_str(),
        ),
        restart_analysis: analysis_config_changed(current, updated),
    }
}

/// What came of reading a socket.
#[derive(Clone, Copy, PartialEq, Eq, Structural, Debug)]
pub enum SocketEvent {
    /// A message that is text.
    Text,
    /// Another message.
    Other,
    /// Nothing within the time allowed.
    Idle,
    /// The connection is lost.
    Failed,
}

/// What to do after reading a socket.
#[derive(Clone, Copy, PartialEq, Eq, Structural, Debug)]
pub enum SocketAction {
    /// To look at the message.
    Handle,
    /// To go on with the next socket.
    Skip,
    /// To leave the sockets, and to connect and load everything anew.
    Reconnect,
}

/// Decides what to do after reading a socket. Whatever message comes shows that the
/// connection is good, so that the next wait is short again.
pub fn after_read(event: SocketEvent, backoff: &mut Backoff) -> (result: SocketAction)
    ensures
        result == (match event {
            SocketEvent::Text => SocketAction::Handle,
            SocketEvent::Other => SocketAction::Skip,
            SocketEvent::Idle => SocketAction::Skip,
            SocketEvent::Failed => SocketAction::Reconnect,
        }),
        final(backoff)@ == (if event == SocketEvent::Text || event == SocketEvent::Other {
            1
        } else {
            old(backoff)@
        }),
{
    match event {
        SocketEvent::Text => {
            backoff.reset();
            SocketAction::Handle
        },
        SocketEvent::Other => {
            backoff.reset();
            SocketAction::Skip
        },
        SocketEvent::Idle => SocketAction::Skip,
        SocketEvent::Failed => SocketAction::Reconnect,
    }
}

/// The time before which spikes are forgotten: one window before now.
pub fn oldest_allowed_ms(now_ms: i64, window_ms: i64) -> (result: i64)
    requires
        i64::MIN <= now_ms - window_ms <= i64::MAX,
    ensures
        result == now_ms - window_ms,
{
    now_ms - window_ms
}

} // verus!
