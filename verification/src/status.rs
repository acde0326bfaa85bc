//! HTTP status codes.

use crate::text;
use vstd::prelude::*;

verus! {

/// The status code of an HTTP response, from 100 to 999.
#[derive(Clone, Copy, PartialEq, Eq, Structural, Debug)]
pub struct HttpStatus {
    code: u16,
}

/// The status of a rate limit that was exceeded.
pub const TOO_MANY_REQUESTS: u16 = 429;

/// The status with which the exchange answers while it has banned the caller.
pub const IM_A_TEAPOT: u16 = 418;

/// The phrase that follows a status code in its text.
pub uninterp spec fn status_phrase(code: u16) -> Seq<char>;

/// The text of a status code: the code, a blank and its phrase.
pub open spec fn status_words(code: u16) -> Seq<char> {
    text::decimal(code as int) + " "@ + status_phrase(code)
}

/// `reqwest::StatusCode` writes itself as its code, a blank and its canonical
/// phrase, or a fixed phrase where it has none; the contract names the phrase.
#[verifier::external_body]
fn status_text(code: u16) -> (result: String)
    requires
        100 <= code <= 999,
    ensures
        result@ == text::decimal(code as int) + " "@ + status_phrase(code),
{
    reqwest::StatusCode::from_u16(code).unwrap().to_string()
}

impl View for HttpStatus {
    type V = u16;

    closed spec fn view(&self) -> u16 {
        self.code
    }
}

impl HttpStatus {
    #[verifier::type_invariant]
    spec fn in_range(self) -> bool {
        100 <= self.code <= 999
    }

    /// The status with a code, where there is one.
    pub fn from_u16(code: u16) -> (result: Option<HttpStatus>)
        ensures
            match result {
                Some(status) => 100 <= code <= 999 && status@ == code,
                None => !(100 <= code <= 999),
            },
    {
        if 100 <= code && code <= 999 {
            Some(HttpStatus { code })
        } else {
            None
        }
    }

    /// The code of the status.
    pub fn as_u16(self) -> (result: u16)
        ensures
            result == self@,
            100 <= result <= 999,
    {
        proof {
            use_type_invariant(&self);
        }
        self.code
    }

    /// Whether the request succeeded.
    pub fn is_success(self) -> (result: bool)
        ensures
            result == (200 <= self@ < 300),
    {
        200 <= self.code && self.code < 300
    }

    /// Whether the server failed.
    pub fn is_server_error(self) -> (result: bool)
        ensures
            result == (500 <= self@ < 600),
    {
        500 <= self.code && self.code < 600
    }

    /// The text of the status.
    pub fn message(self) -> (result: String)
        ensures
            result@ == status_words(self@),
    {
        proof {
            use_type_invariant(&self);
        }
        status_text(self.code)
    }
}

} // verus!
