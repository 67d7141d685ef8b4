//! How a failed login is reported: a redirect back to the login page, with
//! the error's message in the query string.

use crate::response::{redirect, redirect_view, HttpResponse};
use vstd::prelude::*;
use vstd::string::*;
use vstd::utf8::encode_utf8;

verus! {

/// Why a login failed.
#[derive(Debug, Clone, PartialEq, Eq)]
pub enum LoginError {
    /// The credentials are wrong; the payload says what was found.
    AuthError(String),
    /// Something else went wrong; the payload says what.
    UnexpectedError(String),
}

/// A byte that percent-encoding leaves as it is: an ASCII letter or digit,
/// or one of `-`, `.`, `_`, `~`.
pub open spec fn is_unreserved(b: u8) -> bool {
    (0x30 <= b <= 0x39) || (0x41 <= b <= 0x5a) || (0x61 <= b <= 0x7a) || b == 0x2d || b == 0x2e || b == 0x5f || b
        == 0x7e
}

/// The upper-case hexadecimal digit for a number below sixteen.
pub open spec fn hex_digit(d: int) -> char {
    if d < 10 {
        (0x30 + d) as char
    } else {
        (0x41 + d - 10) as char
    }
}

/// One byte, percent-encoded: itself where it is unreserved, else `%` and
/// its two hexadecimal digits.
pub open spec fn encoded_byte(b: u8) -> Seq<char> {
    if is_unreserved(b) {
        seq![b as char]
    } else {
        seq!['%', hex_digit(b as int / 16), hex_digit(b as int % 16)]
    }
}

/// A byte string, percent-encoded byte by byte.
pub open spec fn percent_encoded(bytes: Seq<u8>) -> Seq<char>
    decreases bytes.len(),
{
    if bytes.len() == 0 {
        Seq::empty()
    } else {
        percent_encoded(bytes.drop_last()) + encoded_byte(bytes.last())
    }
}

/// `urlencoding::Encoded::to_string`: the UTF-8 bytes of `s`,
/// percent-encoded; every byte but ASCII letters, digits and `-`, `.`, `_`,
/// `~` becomes `%` and two upper-case hexadecimal digits.
#[verifier::external_body]
fn url_encode(s: &str) -> (encoded: String)
    ensures
        encoded@ == percent_encoded(s.spec_bytes()),
{
    urlencoding::Encoded::new(s).to_string()
}

/// Where a failed login with the given message sends the client.
pub open spec fn login_error_location(message: Seq<char>) -> Seq<char> {
    "/login?error="@ + percent_encoded(encode_utf8(message))
}

impl LoginError {
    /// The message shown to the client.
    pub open spec fn message_text(&self) -> Seq<char> {
        match self {
            LoginError::AuthError(_) => "Authentication failed"@,
            LoginError::UnexpectedError(_) => "Something went wrong"@,
        }
    }

    /// The message shown to the client: `Authentication failed` for wrong
    /// credentials, `Something went wrong` otherwise.
    pub fn message(&self) -> (text: String)
        ensures
            text@ == self.message_text(),
    {
        match self {
            LoginError::AuthError(_) => "Authentication failed".to_owned(),
            LoginError::UnexpectedError(_) => "Something went wrong".to_owned(),
        }
    }

    /// The HTTP status that reports a failed login: 303 See Other.
    pub fn status_code(&self) -> (code: u16)
        ensures
            code == 303,
    {
        303
    }

    /// The response to a failed login: a redirect to the login page with the
    /// message, percent-encoded, as its `error` parameter.
    pub fn error_response(&self) -> (response: HttpResponse)
        ensures
            response@ == redirect_view(encode_utf8(login_error_location(self.message_text()))),
    {
        let message = self.message();
        let encoded = url_encode(message.as_str());
        let mut location = "/login?error=".to_owned();
        location.append(encoded.as_str());
        redirect(location.as_str())
    }
}

} // verus!
