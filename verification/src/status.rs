//! HTTP status codes and the line that names them.

use crate::text::decimal_digit;
use vstd::prelude::*;

verus! {

/// The phrase that `http::StatusCode`'s `Display` writes after the number:
/// the canonical reason of the code, or a fixed text where it has none.
pub uninterp spec fn status_reason_text(code: u16) -> Seq<char>;

/// The three decimal digits of a number from 100 to 999.
pub open spec fn three_digits(code: u16) -> Seq<char> {
    seq![
        decimal_digit(code as int / 100),
        decimal_digit(code as int / 10 % 10),
        decimal_digit(code as int % 10),
    ]
}

/// A status code as it is shown: its three digits, a space, its reason.
pub open spec fn status_line_text(code: u16) -> Seq<char> {
    three_digits(code) + seq![' '] + status_reason_text(code)
}

/// Makes an `http::StatusCode` with `from_u16` and returns its `to_string()`.
/// The contract claims that `Display` writes the number in decimal, one
/// space, and the reason phrase. `from_u16` accepts exactly the codes from
/// 100 to 999.
#[verifier::external_body]
fn status_line(code: u16) -> (line: String)
    requires
        100 <= code <= 999,
    ensures
        line@ == three_digits(code) + seq![' '] + status_reason_text(code),
{
    http::StatusCode::from_u16(code).map(|status| status.to_string()).unwrap_or_default()
}

/// The status code of an HTTP response: a number from 100 to 999.
#[derive(Debug, Clone, Copy, PartialEq, Eq)]
pub struct HttpStatus {
    code: u16,
}

impl HttpStatus {
    #[verifier::type_invariant]
    spec fn in_range(self) -> bool {
        100 <= self.code <= 999
    }

    /// The number of this status.
    pub closed spec fn value(self) -> u16 {
        self.code
    }

    /// Whether the status reports success: a number from 200 to 299.
    pub open spec fn success(self) -> bool {
        200 <= self.value() <= 299
    }

    /// The status with the number `code`, where `code` is a status code.
    pub fn from_code(code: u16) -> (status: Option<HttpStatus>)
        ensures
            status is Some <==> 100 <= code <= 999,
            status matches Some(s) ==> s.value() == code,
    {
        if 100 <= code && code <= 999 {
            Some(HttpStatus { code })
        } else {
            None
        }
    }

    pub fn code(&self) -> (code: u16)
        ensures
            code == self.value(),
            100 <= code <= 999,
    {
        proof {
            use_type_invariant(self);
        }
        self.code
    }

    pub fn is_success(&self) -> (yes: bool)
        ensures
            yes == self.success(),
    {
        200 <= self.code && self.code <= 299
    }

    /// The status as it is shown in messages, such as `404 Not Found`.
    pub fn line(&self) -> (line: String)
        ensures
            line@ == status_line_text(self.value()),
    {
        proof {
            use_type_invariant(self);
        }
        status_line(self.code)
    }
}

} // verus!
