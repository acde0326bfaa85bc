//! Calls that tell a monitor that the scanner is alive.

use crate::status;
use crate::status::HttpStatus;
use vstd::prelude::*;
use vstd::string::*;

verus! {

/// Why a healthcheck call failed. The URL is no part of it, since it may hold a
/// secret.
#[derive(Clone, Copy, PartialEq, Eq, Structural, Debug)]
pub enum HealthcheckError {
    RequestFailed,
    HttpStatus(HttpStatus),
}

impl HealthcheckError {
    /// The error in words.
    pub open spec fn words(self) -> Seq<char> {
        match self {
            HealthcheckError::RequestFailed => "request failed"@,
            HealthcheckError::HttpStatus(status) => "endpoint returned HTTP "@
                + status::status_words(status@),
        }
    }

    /// The error in words.
    pub fn message(self) -> (result: String)
        ensures
            result@ == self.words(),
    {
        match self {
            HealthcheckError::RequestFailed => "request failed".to_owned(),
            HealthcheckError::HttpStatus(status) => "endpoint returned HTTP ".to_owned().concat(
                status.message().as_str(),
            ),
        }
    }
}

/// What a healthcheck call comes to, given the status of the response.
pub open spec fn healthcheck_result(response: Option<HttpStatus>) -> Result<
    HttpStatus,
    HealthcheckError,
> {
    match response {
        None => Err(HealthcheckError::RequestFailed),
        Some(status) => if 200 <= status@ < 300 {
            Ok(status)
        } else {
            Err(HealthcheckError::HttpStatus(status))
        },
    }
}

/// Judges a healthcheck call by the status of the response, if there was one.
pub fn judge_healthcheck(response: Option<HttpStatus>) -> (result: Result<
    HttpStatus,
    HealthcheckError,
>)
    ensures
        result == healthcheck_result(response),
{
    match response {
        None => Err(HealthcheckError::RequestFailed),
        Some(status) => if status.is_success() {
            Ok(status)
        } else {
            Err(HealthcheckError::HttpStatus(status))
        },
    }
}

/// What to do when a healthcheck is due.
#[derive(Clone, Copy, PartialEq, Eq, Structural, Debug)]
pub enum HealthcheckAction {
    /// There is no URL to call.
    Nothing,
    /// The call is left out in a dry run.
    Skip,
    /// To call the URL.
    Call,
}

/// What to do when a healthcheck is due.
pub fn healthcheck_action(url: &str, dry_run: bool) -> (result: HealthcheckAction)
    ensures
        result == (if url@.len() == 0 {
            HealthcheckAction::Nothing
        } else if dry_run {
            HealthcheckAction::Skip
        } else {
            HealthcheckAction::Call
        }),
{
    if url.is_empty() {
        HealthcheckAction::Nothing
    } else if dry_run {
        HealthcheckAction::Skip
    } else {
        HealthcheckAction::Call
    }
}

} // verus!
