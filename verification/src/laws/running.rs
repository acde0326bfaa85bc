//! What is done when, and what follows when something fails.

use crate::config::Config;
use crate::healthcheck::{
    healthcheck_action, judge_healthcheck, HealthcheckAction, HealthcheckError,
};
use crate::market::analysis_config_changed;
use crate::retry::{
    failure_message, Backoff, Outcome, Retries, RetryAction, RetryFailure,
};
use crate::session::{
    after_read, oldest_allowed_ms, reload_effect, ReloadEffect, Session, SocketAction,
    SocketEvent, Step,
};
use crate::status;
use crate::status::HttpStatus;
use crate::text;
use vstd::prelude::*;

verus! {

/// A status is a code of three digits; it tells of success from 200 to 299 and of a failure
/// of the server from 500 to 599.
pub proof fn law_statuses_are_told_apart(
    code: u16,
    status: Option<HttpStatus>,
    success: bool,
    server_error: bool,
    back: u16,
)
    requires
        call_ensures(HttpStatus::from_u16, (code,), status),
        status is Some ==> call_ensures(HttpStatus::is_success, (status->0,), success),
        status is Some ==> call_ensures(HttpStatus::is_server_error, (status->0,), server_error),
        status is Some ==> call_ensures(HttpStatus::as_u16, (status->0,), back),
    ensures
        status is Some <==> code >= 100 && code <= 999,
        status is Some ==> {
            &&& back == code
            &&& success <==> code / 100 == 2
            &&& server_error <==> code / 100 == 5
        },
{
}

/// The first attempt is followed, where it fails, by a wait of one second.
pub proof fn law_attempts_begin_anew(retries: Retries, backoff: Backoff, secs: u64)
    requires
        call_ensures(Retries::new, (), retries),
        call_ensures(Backoff::new, (), backoff),
        call_ensures(Backoff::secs, (&backoff,), secs),
    ensures
        retries.attempts() == 0,
        retries.wait() == 1,
        secs == 1,
{
}

/// Each wait is twice as long as the one before, but never longer than a minute, until it is
/// one second again.
pub proof fn law_waits_double(
    backoff: &mut Backoff,
    again: &mut Backoff,
    before: u64,
    grown: u64,
    fresh: u64,
)
    requires
        call_ensures(Backoff::secs, (&*old(backoff),), before),
        call_ensures(Backoff::grow, (backoff,), ()),
        call_ensures(Backoff::secs, (&*final(backoff),), grown),
        call_ensures(Backoff::reset, (again,), ()),
        call_ensures(Backoff::secs, (&*final(again),), fresh),
    ensures
        before <= 30 ==> grown == 2 * before,
        before > 30 ==> grown == 60,
        fresh == 1,
{
}

/// An answer from 200 to 299 is used. A rate limit, told by 429 or 418, a failure of the
/// server and a missing answer are met with another attempt, until the sixth has failed, and
/// every other answer is final. After a rate limit the wait is that of the header, where it
/// holds a number, but at least one second; otherwise it is the one whose turn it is.
pub proof fn law_attempts_follow_the_answer(
    retries: &mut Retries,
    outcome: Outcome,
    action: RetryAction,
)
    requires
        0 <= old(retries).attempts() <= 5,
        1 <= old(retries).wait() <= 60,
        call_ensures(Retries::next, (retries, &outcome), action),
    ensures
        ({
            let last = old(retries).attempts() == 5;
            let turn = old(retries).wait();
            match outcome {
                Outcome::Failed => if last {
                    action == RetryAction::GiveUp(RetryFailure::Unreachable)
                } else {
                    action matches RetryAction::Wait(secs) && secs == turn
                },
                Outcome::Response(status, header) => {
                    &&& status@ / 100 == 2 ==> action == RetryAction::Accept
                    &&& status@ == 429 || status@ == 418 ==> if last {
                        action == RetryAction::GiveUp(RetryFailure::RateLimited)
                    } else {
                        action matches RetryAction::Wait(secs) && match header {
                            None => secs == turn,
                            Some(value) => match text::unsigned_numeral(value@) {
                                Ok(asked) => if asked == 0 {
                                    secs == 1
                                } else {
                                    secs == asked
                                },
                                Err(_) => secs == turn,
                            },
                        }
                    }
                    &&& status@ / 100 == 5 ==> if last {
                        action == RetryAction::GiveUp(RetryFailure::ServerError(status))
                    } else {
                        action matches RetryAction::Wait(secs) && secs == turn
                    }
                    &&& status@ / 100 != 2 && status@ / 100 != 5 && status@ != 429 && status@
                        != 418 ==> action == RetryAction::GiveUp(RetryFailure::Rejected(status))
                },
            }
        }),
        action is Wait ==> final(retries).attempts() == old(retries).attempts() + 1,
        action is Wait && old(retries).wait() <= 30 ==> final(retries).wait() == 2 * old(retries).wait(),
        action is Wait && old(retries).wait() > 30 ==> final(retries).wait() == 60,
        !(action is Wait) ==> final(retries).attempts() == old(retries).attempts(),
{
}

/// Why a request to the exchange failed is told with the status and, where it was refused,
/// with the body of the answer. Without an answer nothing is told.
pub proof fn law_failed_requests_are_told(
    failure: RetryFailure,
    body: &str,
    message: Option<String>,
)
    requires
        call_ensures(failure_message, (failure, body), message),
    ensures
        match failure {
            RetryFailure::RateLimited => message is Some && message->0@
                == "Binance rate limit persisted after 5 retries"@,
            RetryFailure::ServerError(status) => message is Some && message->0@
                == "Binance server error persisted: "@ + status::status_words(status@),
            RetryFailure::Rejected(status) => message is Some && message->0@
                == "Binance request failed: "@ + status::status_words(status@) + " "@ + body@,
            RetryFailure::Unreachable => message is None,
        },
{
}

/// The text of a status is its code, a blank and its phrase.
pub proof fn law_statuses_are_written(status: HttpStatus, message: String)
    requires
        call_ensures(HttpStatus::message, (status,), message),
    ensures
        message@ == text::decimal(status@ as int) + seq![' '] + status::status_phrase(status@),
{
    reveal_strlit(" ");
    assert(" "@ =~= seq![' ']);
}

/// A healthcheck succeeds if and only if an answer from 200 to 299 came. It fails with the
/// status of the answer, or without one, and is told in words that hold no address.
pub proof fn law_healthchecks_need_an_answer(
    response: Option<HttpStatus>,
    result: Result<HttpStatus, HealthcheckError>,
    error: HealthcheckError,
    message: String,
)
    requires
        call_ensures(judge_healthcheck, (response,), result),
        result matches Err(fault) ==> error == fault,
        call_ensures(HealthcheckError::message, (error,), message),
    ensures
        result is Ok <==> response is Some && response->0@ / 100 == 2,
        result is Ok ==> result->Ok_0 == response->0,
        result is Err && response is Some ==> message@ == "endpoint returned HTTP "@
            + status::status_words(response->0@),
        result is Err && response is None ==> message@ == "request failed"@,
{
}

/// A healthcheck address is called if and only if there is one and the run is no dry one.
pub proof fn law_healthchecks_are_called_in_earnest(
    url: &str,
    dry_run: bool,
    action: HealthcheckAction,
)
    requires
        call_ensures(healthcheck_action, (url, dry_run), action),
    ensures
        action == HealthcheckAction::Call <==> url@ != ""@ && !dry_run,
        action == HealthcheckAction::Skip <==> url@ != ""@ && dry_run,
        action == HealthcheckAction::Nothing <==> url@ == ""@,
{
    reveal_strlit("");
    assert(""@.len() == 0);
    if url@.len() == 0 {
        assert(url@ =~= ""@);
    }
}

/// The point in time so many milliseconds later, or the last one that there is.
pub open spec fn after_ms(now_ms: u64, pause_ms: int) -> int {
    if now_ms + pause_ms > 0xffff_ffff_ffff_ffff {
        0xffff_ffff_ffff_ffff
    } else {
        now_ms + pause_ms
    }
}

/// At first the healthcheck is due in an hour, and all else at once.
pub proof fn law_first_healthcheck_is_an_hour_away(now_ms: u64, session: Session)
    requires
        call_ensures(Session::new, (now_ms,), session),
    ensures
        session.stage == Step::CallHealthcheck,
        session.healthcheck_at_ms == after_ms(now_ms, 3_600_000),
        session.config_poll_at_ms == now_ms,
        session.symbol_refresh_at_ms == now_ms,
{
}

/// When an analysis begins, the configuration is looked at in five seconds and the markets
/// when that is set, and the healthcheck stays due when it was.
pub proof fn law_analyses_begin_a_turn(
    session: &mut Session,
    now_ms: u64,
    symbol_refresh_secs: u64,
)
    requires
        call_ensures(Session::begin_analysis, (session, now_ms, symbol_refresh_secs), ()),
    ensures
        final(session).stage == Step::CallHealthcheck,
        final(session).healthcheck_at_ms == old(session).healthcheck_at_ms,
        final(session).config_poll_at_ms == after_ms(now_ms, 5_000),
        final(session).symbol_refresh_at_ms == after_ms(now_ms, symbol_refresh_secs * 1_000),
{
}

/// Work that has been done is due again when its pause is over: the healthcheck after an
/// hour, a look at the configuration after five seconds and one at the markets when that is
/// set. Nothing else changes.
pub proof fn law_done_work_is_due_again(
    called: &mut Session,
    polled: &mut Session,
    refreshed: &mut Session,
    now_ms: u64,
    symbol_refresh_secs: u64,
)
    requires
        call_ensures(Session::healthcheck_called, (called, now_ms), ()),
        call_ensures(Session::config_polled, (polled, now_ms), ()),
        call_ensures(Session::symbols_refreshed, (refreshed, now_ms, symbol_refresh_secs), ()),
    ensures
        final(called).healthcheck_at_ms == after_ms(now_ms, 3_600_000),
        final(called).stage == old(called).stage,
        final(called).config_poll_at_ms == old(called).config_poll_at_ms,
        final(called).symbol_refresh_at_ms == old(called).symbol_refresh_at_ms,
        final(polled).config_poll_at_ms == after_ms(now_ms, 5_000),
        final(polled).stage == old(polled).stage,
        final(polled).healthcheck_at_ms == old(polled).healthcheck_at_ms,
        final(polled).symbol_refresh_at_ms == old(polled).symbol_refresh_at_ms,
        final(refreshed).symbol_refresh_at_ms == after_ms(now_ms, symbol_refresh_secs * 1_000),
        final(refreshed).stage == old(refreshed).stage,
        final(refreshed).healthcheck_at_ms == old(refreshed).healthcheck_at_ms,
        final(refreshed).config_poll_at_ms == old(refreshed).config_poll_at_ms,
{
}

/// In each turn the healthcheck comes first, the configuration second, the markets third and
/// the sockets last, and what is not due is left out. What is due when stays as it is.
pub proof fn law_work_is_done_in_its_order(session: &mut Session, now_ms: u64, step: Step)
    requires
        call_ensures(Session::next_step, (session, now_ms), step),
    ensures
        ({
            let stage = old(session).stage;
            let calls = stage == Step::CallHealthcheck && old(session).healthcheck_at_ms
                <= now_ms;
            let polls = (stage == Step::CallHealthcheck || stage == Step::PollConfig) && old(session).config_poll_at_ms <= now_ms;
            let refreshes = stage != Step::ReadSockets && old(session).symbol_refresh_at_ms
                <= now_ms;
            &&& calls ==> step == Step::CallHealthcheck && final(session).stage
                == Step::PollConfig
            &&& !calls && polls ==> step == Step::PollConfig && final(session).stage
                == Step::RefreshSymbols
            &&& !calls && !polls && refreshes ==> step == Step::RefreshSymbols && final(session).stage == Step::ReadSockets
            &&& !calls && !polls && !refreshes ==> step == Step::ReadSockets && final(session).stage == Step::CallHealthcheck
        }),
        final(session).healthcheck_at_ms == old(session).healthcheck_at_ms,
        final(session).config_poll_at_ms == old(session).config_poll_at_ms,
        final(session).symbol_refresh_at_ms == old(session).symbol_refresh_at_ms,
{
}

/// A new configuration calls the healthcheck if and only if it has another address, and
/// begins the analysis anew if and only if the analysis has changed.
pub proof fn law_new_configurations_take_effect(
    current: Config,
    updated: Config,
    effect: ReloadEffect,
    changed: bool,
)
    requires
        call_ensures(reload_effect, (&current, &updated), effect),
        call_ensures(analysis_config_changed, (&current, &updated), changed),
    ensures
        effect.call_healthcheck <==> current.healthcheck_url@ != updated.healthcheck_url@,
        effect.restart_analysis <==> changed,
{
}

/// Text is looked at, other messages and silence are not, and a lost connection is made
/// anew. Whatever message comes, the next wait is one second; otherwise it stays.
pub proof fn law_sockets_are_read(
    event: SocketEvent,
    backoff: &mut Backoff,
    action: SocketAction,
    before: u64,
    after: u64,
)
    requires
        call_ensures(after_read, (event, backoff), action),
        call_ensures(Backoff::secs, (&*old(backoff),), before),
        call_ensures(Backoff::secs, (&*final(backoff),), after),
    ensures
        action == SocketAction::Handle <==> event == SocketEvent::Text,
        action == SocketAction::Reconnect <==> event == SocketEvent::Failed,
        action == SocketAction::Skip <==> event == SocketEvent::Other || event
            == SocketEvent::Idle,
        event == SocketEvent::Text || event == SocketEvent::Other ==> after == 1,
        event == SocketEvent::Idle || event == SocketEvent::Failed ==> after == before,
{
}

/// Spikes are kept for one window.
pub proof fn law_spikes_are_kept_for_one_window(now_ms: i64, window_ms: i64, oldest_ms: i64)
    requires
        call_ensures(oldest_allowed_ms, (now_ms, window_ms), oldest_ms),
    ensures
        oldest_ms + window_ms == now_ms,
{
}

} // verus!
