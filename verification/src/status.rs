//! The status of an HTTP response.
use crate::number;
use vstd::prelude::*;

verus! {

/// The phrase that goes with a status code, such as `Not Found` with 404.
pub uninterp spec fn reason_phrase(code: u16) -> Seq<char>;

/// A status code as it is shown: the number, a space and its phrase.
pub open spec fn status_text(code: u16) -> Seq<char> {
    number::decimal(code as nat).push(' ') + reason_phrase(code)
}

/// Shows a status code as [`reqwest::StatusCode`] does when it is formatted.
///
/// Taken on trust: the text is the code in decimal notation, a space, and a
/// phrase that depends on the code alone. The phrases themselves are not stated.
#[verifier::external_body]
fn show_status(code: u16) -> (res: String)
    requires
        100 <= code <= 999,
    ensures
        res@ == number::decimal(code as nat).push(' ') + reason_phrase(code),
{
    reqwest::StatusCode::from_u16(code).map(|status| status.to_string()).unwrap_or_default()
}

/// A status code, which has three digits.
#[derive(Clone, Copy, Debug)]
pub struct HttpStatus {
    code: u16,
}

impl View for HttpStatus {
    type V = u16;

    closed spec fn view(&self) -> u16 {
        self.code
    }
}

/// Whether a status code reports success.
pub open spec fn is_success_code(code: u16) -> bool {
    200 <= code < 300
}

impl HttpStatus {
    #[verifier::type_invariant]
    spec fn has_three_digits(self) -> bool {
        100 <= self.code <= 999
    }

    /// The status with the given code, if there is such a status.
    pub fn new(code: u16) -> (res: Option<HttpStatus>)
        ensures
            res is Some <==> 100 <= code <= 999,
            res matches Some(status) ==> status@ == code,
    {
        if 100 <= code && code <= 999 {
            Some(HttpStatus { code })
        } else {
            None
        }
    }

    /// The code of the status.
    pub fn as_u16(&self) -> (res: u16)
        ensures
            res == self@,
            100 <= res <= 999,
    {
        proof {
            use_type_invariant(self);
        }
        self.code
    }

    /// Whether the status is within 200-299.
    pub fn is_success(&self) -> (res: bool)
        ensures
            res == is_success_code(self@),
    {
        200 <= self.code && self.code < 300
    }

    /// The code with its phrase, such as `404 Not Found`.
    pub fn to_text(&self) -> (res: String)
        ensures
            res@ == status_text(self@),
    {
        proof {
            use_type_invariant(self);
        }
        show_status(self.code)
    }
}

} // verus!
