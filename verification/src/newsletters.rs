//! Publishing over the API with `Basic` credentials: reading the
//! credentials, listing the confirmed subscribers, and how a failure is
//! reported.

use crate::domain::{email_error, is_valid_email, SubscriberEmail};
use crate::response::{HeaderPairRecord, HttpResponse, ResponseView};
use vstd::prelude::*;
use vstd::string::*;
use vstd::utf8::{decode_utf8, valid_utf8};

verus! {

/// The body of a publish request.
#[derive(Debug, Clone, PartialEq, Eq)]
pub struct BodyData {
    pub title: String,
    pub content: Content,
}

/// The two forms of an issue's content.
#[derive(Debug, Clone, PartialEq, Eq)]
pub struct Content {
    pub html: String,
    pub text: String,
}

/// A confirmed subscriber with a valid address.
#[derive(Debug, PartialEq, Eq)]
pub struct ConfirmedSubscriber {
    pub email: SubscriberEmail,
}

/// Why a publish request over the API failed.
#[derive(Debug, Clone, PartialEq, Eq)]
pub enum PublishedError {
    /// Something went wrong; the payload says what.
    UnexpectedError(String),
    /// The credentials are missing or wrong; the payload says which.
    AuthError(String),
}

/// What the client is asked for when its credentials are refused.
pub open spec fn challenge() -> (Seq<char>, Seq<u8>) {
    ("www-authenticate"@, "Basic realm=\"publish\"".spec_bytes())
}

impl PublishedError {
    /// The HTTP status that reports this error: 401 for refused
    /// credentials, 500 otherwise.
    pub fn status_code(&self) -> (code: u16)
        ensures
            code == if self is AuthError {
                401u16
            } else {
                500u16
            },
    {
        match self {
            PublishedError::UnexpectedError(_) => 500,
            PublishedError::AuthError(_) => 401,
        }
    }

    /// The response that reports this error. It has no body; for refused
    /// credentials it carries the challenge for `Basic` credentials.
    pub fn error_response(&self) -> (response: HttpResponse)
        ensures
            response@ == if self is AuthError {
                ResponseView { status_code: 401, headers: seq![challenge()], body: Seq::empty() }
            } else {
                ResponseView { status_code: 500, headers: Seq::empty(), body: Seq::empty() }
            },
    {
        let mut headers: Vec<HeaderPairRecord> = Vec::new();
        match self {
            PublishedError::UnexpectedError(_) => {
                let response = HttpResponse::with_status(500, headers, Vec::new());
                assert(response@.headers =~= Seq::empty());
                response
            },
            PublishedError::AuthError(_) => {
                headers.push(
                    HeaderPairRecord {
                        name: "www-authenticate".to_owned(),
                        value: "Basic realm=\"publish\"".as_bytes_vec(),
                    },
                );
                let response = HttpResponse::with_status(401, headers, Vec::new());
                assert(response@.headers =~= seq![challenge()]);
                response
            },
        }
    }
}

/// Reads the stored addresses of the confirmed subscribers: each becomes a
/// subscriber where it is a valid address, and the message that says it is
/// none otherwise.
pub fn get_confirmed_subscribers(rows: &Vec<String>) -> (subscribers: Vec<Result<ConfirmedSubscriber, String>>)
    ensures
        subscribers@.len() == rows@.len(),
        forall|i: int|
            0 <= i < rows@.len() ==> match #[trigger] subscribers@[i] {
                Ok(subscriber) => is_valid_email(rows@[i]@) && subscriber.email@ == rows@[i]@,
                Err(message) => !is_valid_email(rows@[i]@) && message@ == email_error(rows@[i]@),
            },
{
    let mut subscribers: Vec<Result<ConfirmedSubscriber, String>> = Vec::new();
    let mut i: usize = 0;
    while i < rows.len()
        invariant
            i <= rows@.len(),
            subscribers@.len() == i,
            forall|j: int|
                0 <= j < i ==> match #[trigger] subscribers@[j] {
                    Ok(subscriber) => is_valid_email(rows@[j]@) && subscriber.email@ == rows@[j]@,
                    Err(message) => !is_valid_email(rows@[j]@) && message@ == email_error(rows@[j]@),
                },
        decreases rows@.len() - i,
    {
        let parsed = match SubscriberEmail::parse(rows[i].clone()) {
            Ok(email) => Ok(ConfirmedSubscriber { email }),
            Err(message) => Err(message),
        };
        subscribers.push(parsed);
        i += 1;
    }
    subscribers
}

/// A user's name and password.
#[derive(Debug, Clone, PartialEq, Eq)]
pub struct Credentials {
    pub username: String,
    pub password: String,
}

/// Why an `Authorization` header yields no credentials.
#[derive(Debug, Clone, Copy, PartialEq, Eq, Structural)]
pub enum BasicAuthError {
    /// There is no `Authorization` header.
    MissingHeader,
    /// The header does not start with `Basic `.
    WrongScheme,
    /// What follows the scheme is no base64.
    InvalidBase64,
    /// The decoded bytes are no UTF-8.
    InvalidUtf8,
    /// The decoded text holds no colon, so no password.
    MissingPassword,
}

impl BasicAuthError {
    /// What went wrong, in words.
    pub fn message(&self) -> (text: &'static str)
        ensures
            text@ == match *self {
                BasicAuthError::MissingHeader => "The 'Authorization' header was missing"@,
                BasicAuthError::WrongScheme => "The authorization scheme was not 'Basic '."@,
                BasicAuthError::InvalidBase64 => "Failed to base64-decode 'Basic' credentials."@,
                BasicAuthError::InvalidUtf8 => "The decoded credential string is not valid UTF8."@,
                BasicAuthError::MissingPassword => "A password must be provided in 'Basic' scheme"@,
            },
    {
        match self {
            BasicAuthError::MissingHeader => "The 'Authorization' header was missing",
            BasicAuthError::WrongScheme => "The authorization scheme was not 'Basic '.",
            BasicAuthError::InvalidBase64 => "Failed to base64-decode 'Basic' credentials.",
            BasicAuthError::InvalidUtf8 => "The decoded credential string is not valid UTF8.",
            BasicAuthError::MissingPassword => "A password must be provided in 'Basic' scheme",
        }
    }
}

/// What `Basic` credentials decode to, as the standard base64 alphabet with
/// padding reads them; `None` where they are no such base64.
pub uninterp spec fn base64_decoded(encoded: Seq<char>) -> Option<Seq<u8>>;

/// `base64::Engine::decode` on `base64::prelude::BASE64_STANDARD`: the
/// decoded bytes, or `None` where the engine refuses the input.
#[verifier::external_body]
fn base64_decode(encoded: &str) -> (r: Option<Vec<u8>>)
    ensures
        match r {
            Some(bytes) => base64_decoded(encoded@) == Some(bytes@),
            None => base64_decoded(encoded@) is None,
        },
{
    match base64::Engine::decode(&base64::prelude::BASE64_STANDARD, encoded) {
        Ok(bytes) => Some(bytes),
        Err(_) => None,
    }
}

/// `String::from_utf8`: the text that the bytes encode, or `None` where
/// they are no UTF-8.
#[verifier::external_body]
fn string_from_utf8(bytes: Vec<u8>) -> (r: Option<String>)
    ensures
        r is Some <==> valid_utf8(bytes@),
        r matches Some(text) ==> text@ == decode_utf8(bytes@),
{
    match String::from_utf8(bytes) {
        Ok(text) => Some(text),
        Err(_) => None,
    }
}

/// The first colon of `text` is at position `i`.
pub open spec fn first_colon_at(text: Seq<char>, i: int) -> bool {
    &&& 0 <= i < text.len()
    &&& text[i] == ':'
    &&& forall|j: int| 0 <= j < i ==> text[j] != ':'
}

/// Credentials as contracts see them: the name and the password.
pub type CredentialsView = (Seq<char>, Seq<char>);

/// The credentials in `text`: the name before the first colon, the password
/// after it.
pub open spec fn credentials_in(text: Seq<char>) -> Result<CredentialsView, BasicAuthError> {
    if exists|i: int| first_colon_at(text, i) {
        let i = choose|i: int| first_colon_at(text, i);
        Ok((text.subrange(0, i), text.subrange(i + 1, text.len() as int)))
    } else {
        Err(BasicAuthError::MissingPassword)
    }
}

/// The credentials in what the base64 decoded to.
pub open spec fn credentials_in_decoded(decoded: Option<Seq<u8>>) -> Result<CredentialsView, BasicAuthError> {
    match decoded {
        None => Err(BasicAuthError::InvalidBase64),
        Some(bytes) => if valid_utf8(bytes) {
            credentials_in(decode_utf8(bytes))
        } else {
            Err(BasicAuthError::InvalidUtf8)
        },
    }
}

/// `header` starts with `prefix`.
pub open spec fn starts_with(header: Seq<char>, prefix: Seq<char>) -> bool {
    prefix.len() <= header.len() && header.subrange(0, prefix.len() as int) == prefix
}

/// The credentials in an `Authorization` header.
pub open spec fn basic_authentication_spec(authorization: Option<Seq<char>>) -> Result<
    CredentialsView,
    BasicAuthError,
> {
    match authorization {
        None => Err(BasicAuthError::MissingHeader),
        Some(header) => if starts_with(header, "Basic "@) {
            credentials_in_decoded(base64_decoded(header.subrange("Basic "@.len() as int, header.len() as int)))
        } else {
            Err(BasicAuthError::WrongScheme)
        },
    }
}

/// A result as contracts see it.
pub open spec fn credentials_view(r: Result<Credentials, BasicAuthError>) -> Result<
    CredentialsView,
    BasicAuthError,
> {
    match r {
        Ok(credentials) => Ok((credentials.username@, credentials.password@)),
        Err(e) => Err(e),
    }
}

/// Splits `name:password` at its first colon.
pub fn split_credentials(text: &str) -> (r: Result<Credentials, BasicAuthError>)
    ensures
        credentials_view(r) == credentials_in(text@),
{
    let n = text.unicode_len();
    let mut i: usize = 0;
    while i < n
        invariant
            i <= n,
            n == text@.len(),
            forall|j: int| 0 <= j < i ==> text@[j] != ':',
        decreases n - i,
    {
        if text.get_char(i) == ':' {
            assert(first_colon_at(text@, i as int));
            proof {
                let chosen = choose|c: int| first_colon_at(text@, c);
                assert(first_colon_at(text@, chosen));
                assert(chosen == i);
            }
            let username = text.substring_char(0, i).to_owned();
            let password = text.substring_char(i + 1, n).to_owned();
            return Ok(Credentials { username, password });
        }
        i += 1;
    }
    assert(!exists|c: int| first_colon_at(text@, c));
    Err(BasicAuthError::MissingPassword)
}

/// Reads the credentials from what the base64 decoded to.
pub fn credentials_from_decoded(decoded: Option<Vec<u8>>) -> (r: Result<Credentials, BasicAuthError>)
    ensures
        credentials_view(r) == credentials_in_decoded(
            match decoded {
                Some(bytes) => Some(bytes@),
                None => None,
            },
        ),
{
    let bytes = match decoded {
        Some(bytes) => bytes,
        None => {
            return Err(BasicAuthError::InvalidBase64);
        },
    };
    match string_from_utf8(bytes) {
        Some(text) => split_credentials(text.as_str()),
        None => Err(BasicAuthError::InvalidUtf8),
    }
}

/// Whether `header` starts with `prefix`.
pub fn has_prefix(header: &str, prefix: &str) -> (r: bool)
    ensures
        r == starts_with(header@, prefix@),
{
    let n = prefix.unicode_len();
    if header.unicode_len() < n {
        return false;
    }
    let mut i: usize = 0;
    while i < n
        invariant
            i <= n,
            n == prefix@.len(),
            n <= header@.len(),
            forall|j: int| 0 <= j < i ==> header@[j] == prefix@[j],
        decreases n - i,
    {
        if header.get_char(i) != prefix.get_char(i) {
            assert(header@.subrange(0, n as int)[i as int] != prefix@[i as int]);
            return false;
        }
        i += 1;
    }
    assert(header@.subrange(0, n as int) =~= prefix@);
    true
}

/// Reads the credentials of the `Basic` scheme from the `Authorization`
/// header, given as its text where the request has one.
pub fn basic_authentication(authorization: Option<&str>) -> (r: Result<Credentials, BasicAuthError>)
    ensures
        credentials_view(r) == basic_authentication_spec(
            match authorization {
                Some(header) => Some(header@),
                None => None,
            },
        ),
{
    let header = match authorization {
        Some(header) => header,
        None => {
            return Err(BasicAuthError::MissingHeader);
        },
    };
    if !has_prefix(header, "Basic ") {
        return Err(BasicAuthError::WrongScheme);
    }
    let encoded = header.substring_char("Basic ".unicode_len(), header.unicode_len());
    credentials_from_decoded(base64_decode(encoded))
}

} // verus!
