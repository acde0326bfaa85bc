//! Repeating what failed: how long to wait and when to give up.

use crate::status;
use crate::status::{HttpStatus, IM_A_TEAPOT, TOO_MANY_REQUESTS};
use crate::text;
use crate::text::{chars_of, read_unsigned};
use vstd::prelude::*;
use vstd::string::*;

verus! {

/// The longest wait between two attempts that nobody asked for, in seconds.
pub const MAX_BACKOFF_SECS: u64 = 60;

/// How often a request is repeated.
pub const MAX_RETRIES: usize = 5;

/// The wait before the next attempt.
pub struct Backoff {
    secs: u64,
}

/// The wait that follows a wait: twice as long, up to a limit.
pub open spec fn longer_wait(secs: int) -> int {
    if secs * 2 <= MAX_BACKOFF_SECS {
        secs * 2
    } else {
        MAX_BACKOFF_SECS as int
    }
}

impl View for Backoff {
    type V = int;

    closed spec fn view(&self) -> int {
        self.secs as int
    }
}

impl Backoff {
    #[verifier::type_invariant]
    spec fn in_range(self) -> bool {
        1 <= self.secs <= MAX_BACKOFF_SECS
    }

    /// A wait of one second.
    pub fn new() -> (result: Self)
        ensures
            result@ == 1,
    {
        Backoff { secs: 1 }
    }

    /// The seconds to wait.
    pub fn secs(&self) -> (result: u64)
        ensures
            result == self@,
            1 <= result <= MAX_BACKOFF_SECS,
    {
        proof {
            use_type_invariant(self);
        }
        self.secs
    }

    /// Goes back to one second.
    pub fn reset(&mut self)
        ensures
            final(self)@ == 1,
    {
        self.secs = 1;
    }

    /// Makes the next wait longer.
    pub fn grow(&mut self)
        ensures
            final(self)@ == longer_wait(old(self)@),
    {
        proof {
            use_type_invariant(&*self);
        }
        let doubled: u64 = self.secs * 2;
        self.secs = if doubled <= MAX_BACKOFF_SECS {
            doubled
        } else {
            MAX_BACKOFF_SECS
        };
    }
}

/// What came of a request.
pub enum Outcome {
    /// A response with its status and, where it is text, its `Retry-After` header.
    Response(HttpStatus, Option<String>),
    /// No response.
    Failed,
}

/// The contents of an [`Outcome`].
pub enum OutcomeView {
    Response(HttpStatus, Option<Seq<char>>),
    Failed,
}

impl View for Outcome {
    type V = OutcomeView;

    open spec fn view(&self) -> OutcomeView {
        match self {
            Outcome::Response(status, retry_after) => OutcomeView::Response(
                *status,
                text::optional_chars(*retry_after),
            ),
            Outcome::Failed => OutcomeView::Failed,
        }
    }
}

/// Why a request is not repeated.
#[derive(Clone, Copy, PartialEq, Eq, Structural, Debug)]
pub enum RetryFailure {
    RateLimited,
    ServerError(HttpStatus),
    Rejected(HttpStatus),
    Unreachable,
}

/// What to do next.
#[derive(Clone, Copy, PartialEq, Eq, Structural, Debug)]
pub enum RetryAction {
    /// To use the response.
    Accept,
    /// To repeat the request after so many seconds.
    Wait(u64),
    /// To fail.
    GiveUp(RetryFailure),
}

/// Whether a status tells that there were too many requests.
pub open spec fn is_rate_limit(code: u16) -> bool {
    code == TOO_MANY_REQUESTS || code == IM_A_TEAPOT
}

/// The seconds that a rate limit asks to wait: those of the header, where it holds
/// a number, and at least one.
pub open spec fn asked_wait(retry_after: Option<Seq<char>>, backoff_secs: int) -> int {
    let asked = match retry_after {
        Some(header) => match text::unsigned_numeral(header) {
            Ok(secs) => secs as int,
            Err(_) => backoff_secs,
        },
        None => backoff_secs,
    };
    if asked < 1 {
        1
    } else {
        asked
    }
}

/// What to do after the outcome of an attempt, counted from zero.
pub open spec fn action_after(attempt: int, backoff_secs: int, outcome: OutcomeView) -> RetryAction {
    match outcome {
        OutcomeView::Response(status, retry_after) => if 200 <= status@ < 300 {
            RetryAction::Accept
        } else if is_rate_limit(status@) {
            if attempt == MAX_RETRIES {
                RetryAction::GiveUp(RetryFailure::RateLimited)
            } else {
                RetryAction::Wait(asked_wait(retry_after, backoff_secs) as u64)
            }
        } else if 500 <= status@ < 600 {
            if attempt == MAX_RETRIES {
                RetryAction::GiveUp(RetryFailure::ServerError(status))
            } else {
                RetryAction::Wait(backoff_secs as u64)
            }
        } else {
            RetryAction::GiveUp(RetryFailure::Rejected(status))
        },
        OutcomeView::Failed => if attempt == MAX_RETRIES {
            RetryAction::GiveUp(RetryFailure::Unreachable)
        } else {
            RetryAction::Wait(backoff_secs as u64)
        },
    }
}

/// The attempts at one request.
pub struct Retries {
    attempt: usize,
    backoff: Backoff,
}

impl Retries {
    #[verifier::type_invariant]
    spec fn in_range(self) -> bool {
        self.attempt <= MAX_RETRIES
    }

    /// How many attempts have failed.
    pub closed spec fn attempts(self) -> int {
        self.attempt as int
    }

    /// The wait before the next attempt.
    pub closed spec fn wait(self) -> int {
        self.backoff@
    }

    /// No attempt has been made yet.
    pub fn new() -> (result: Self)
        ensures
            result.attempts() == 0,
            result.wait() == 1,
    {
        Retries { attempt: 0, backoff: Backoff::new() }
    }

    /// Takes the outcome of an attempt and tells what to do next.
    pub fn next(&mut self, outcome: &Outcome) -> (result: RetryAction)
        ensures
            result == action_after(old(self).attempts(), old(self).wait(), outcome@),
            result is Wait ==> final(self).attempts() == old(self).attempts() + 1
                && final(self).wait() == longer_wait(old(self).wait()),
            !(result is Wait) ==> *final(self) == *old(self),
    {
        proof {
            use_type_invariant(&*self);
        }
        let backoff_secs = self.backoff.secs();
        let action = match outcome {
            Outcome::Response(status, retry_after) => {
                let code = status.as_u16();
                if status.is_success() {
                    RetryAction::Accept
                } else if code == TOO_MANY_REQUESTS || code == IM_A_TEAPOT {
                    if self.attempt == MAX_RETRIES {
                        RetryAction::GiveUp(RetryFailure::RateLimited)
                    } else {
                        let asked: u64 = match retry_after {
                            Some(header) => {
                                let chars = chars_of(header.as_str());
                                match read_unsigned(chars.as_slice()) {
                                    Ok(secs) => secs,
                                    Err(_) => backoff_secs,
                                }
                            },
                            None => backoff_secs,
                        };
                        RetryAction::Wait(
                            if asked < 1 {
                                1
                            } else {
                                asked
                            },
                        )
                    }
                } else if status.is_server_error() {
                    if self.attempt == MAX_RETRIES {
                        RetryAction::GiveUp(RetryFailure::ServerError(*status))
                    } else {
                        RetryAction::Wait(backoff_secs)
                    }
                } else {
                    RetryAction::GiveUp(RetryFailure::Rejected(*status))
                }
            },
            Outcome::Failed => {
                if self.attempt == MAX_RETRIES {
                    RetryAction::GiveUp(RetryFailure::Unreachable)
                } else {
                    RetryAction::Wait(backoff_secs)
                }
            },
        };
        if let RetryAction::Wait(_) = action {
            let mut backoff = Backoff { secs: backoff_secs };
            backoff.grow();
            self.attempt = self.attempt + 1;
            self.backoff = backoff;
        }
        action
    }
}

/// How often a request is repeated when its attempts have these outcomes.
pub open spec fn repeats(attempt: int, backoff_secs: int, outcomes: Seq<OutcomeView>) -> nat
    decreases outcomes.len(),
{
    if outcomes.len() == 0 {
        0
    } else {
        match action_after(attempt, backoff_secs, outcomes[0]) {
            RetryAction::Wait(_) => 1 + repeats(
                attempt + 1,
                longer_wait(backoff_secs),
                outcomes.drop_first(),
            ),
            _ => 0,
        }
    }
}

/// Whatever the outcomes are, no request is repeated more often than permitted.
pub proof fn law_repeats_are_bounded(
    attempt: int,
    backoff_secs: int,
    outcomes: Seq<OutcomeView>,
)
    requires
        0 <= attempt <= MAX_RETRIES,
    ensures
        attempt + repeats(attempt, backoff_secs, outcomes) <= MAX_RETRIES,
    decreases outcomes.len(),
{
    if outcomes.len() > 0 && action_after(attempt, backoff_secs, outcomes[0]) is Wait {
        law_repeats_are_bounded(attempt + 1, longer_wait(backoff_secs), outcomes.drop_first());
    }
}

/// No attempt follows another without a wait of a second at least, and only a rate limit
/// makes for a wait of more than a minute.
pub proof fn law_waits_are_in_range(attempt: int, backoff_secs: int, outcome: OutcomeView)
    requires
        0 <= attempt <= MAX_RETRIES,
        1 <= backoff_secs <= MAX_BACKOFF_SECS,
    ensures
        action_after(attempt, backoff_secs, outcome) matches RetryAction::Wait(secs) ==> {
            &&& secs >= 1
            &&& secs > MAX_BACKOFF_SECS ==> (outcome matches OutcomeView::Response(status, _)
                && is_rate_limit(status@))
        },
        1 <= longer_wait(backoff_secs) <= MAX_BACKOFF_SECS,
{
}

/// Why a request to the exchange failed, in words, where the exchange answered.
pub open spec fn failure_words(failure: RetryFailure, body: Seq<char>) -> Option<Seq<char>> {
    match failure {
        RetryFailure::RateLimited => Some("Binance rate limit persisted after 5 retries"@),
        RetryFailure::ServerError(status) => Some(
            "Binance server error persisted: "@ + status::status_words(status@),
        ),
        RetryFailure::Rejected(status) => Some(
            "Binance request failed: "@ + status::status_words(status@) + " "@ + body,
        ),
        RetryFailure::Unreachable => None,
    }
}

/// Why a request to the exchange failed, in words, where the exchange answered.
pub fn failure_message(failure: RetryFailure, body: &str) -> (result: Option<String>)
    ensures
        match result {
            Some(message) => failure_words(failure, body@) == Some(message@),
            None => failure_words(failure, body@) is None,
        },
{
    match failure {
        RetryFailure::RateLimited => Some(
            "Binance rate limit persisted after 5 retries".to_owned(),
        ),
        RetryFailure::ServerError(status) => Some(
            "Binance server error persisted: ".to_owned().concat(status.message().as_str()),
        ),
        RetryFailure::Rejected(status) => Some(
            "Binance request failed: ".to_owned().concat(status.message().as_str()).concat(
                " ",
            ).concat(body),
        ),
        RetryFailure::Unreachable => None,
    }
}

} // verus!
