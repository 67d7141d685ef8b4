//! Subscribing: the form, the confirmation token and mail, and how a
//! failure is reported.

use crate::domain::{email_error, grapheme_count, is_valid_email, is_valid_name, name_error, NewSubscriber};
use vstd::prelude::*;
use vstd::string::*;

verus! {

/// The number of characters of a subscription token.
pub const TOKEN_LENGTH: usize = 25;

/// The form that asks for a subscription.
#[derive(Debug, Clone, PartialEq, Eq)]
pub struct FormData {
    pub email: String,
    pub username: String,
}

impl FormData {
    /// The subscriber that the form describes, where its address and name
    /// are valid; else the message of the first that is not.
    pub fn try_into_subscriber(self) -> (r: Result<NewSubscriber, String>)
        ensures
            match r {
                Ok(subscriber) => is_valid_email(self.email@) && is_valid_name(
                    self.username@,
                    grapheme_count(self.username@),
                ) && subscriber.email@ == self.email@ && subscriber.username@ == self.username@,
                Err(message) => if !is_valid_email(self.email@) {
                    message@ == email_error(self.email@)
                } else {
                    !is_valid_name(self.username@, grapheme_count(self.username@)) && message@ == name_error(
                        self.username@,
                    )
                },
            },
    {
        let FormData { email, username } = self;
        NewSubscriber::parse(email, username)
    }
}

/// Why a subscription failed.
#[derive(Debug, Clone, PartialEq, Eq)]
pub enum SubscribeError {
    /// The form is invalid; the message says how.
    ValidationError(String),
    /// Something else went wrong; the message says what.
    UnexpectedError(String),
}

impl SubscribeError {
    /// The HTTP status that reports this error: 400 for an invalid form,
    /// 500 otherwise.
    pub fn status_code(&self) -> (code: u16)
        ensures
            code == if self is ValidationError {
                400u16
            } else {
                500u16
            },
    {
        match self {
            SubscribeError::ValidationError(_) => 400,
            SubscribeError::UnexpectedError(_) => 500,
        }
    }

    /// The error's message.
    pub fn message(&self) -> (text: String)
        ensures
            text@ == match *self {
                SubscribeError::ValidationError(m) => m@,
                SubscribeError::UnexpectedError(m) => m@,
            },
    {
        match self {
            SubscribeError::ValidationError(m) => m.clone(),
            SubscribeError::UnexpectedError(m) => m.clone(),
        }
    }
}

/// The messages of a list of causes.
pub open spec fn messages(causes: Seq<String>) -> Seq<Seq<char>> {
    Seq::new(causes.len(), |i: int| causes[i]@)
}

/// The report of the causes: for each, in order, a line `Caused by:` and a
/// line with a tab and the cause.
pub open spec fn causes_text(causes: Seq<Seq<char>>) -> Seq<char>
    decreases causes.len(),
{
    if causes.len() == 0 {
        Seq::empty()
    } else {
        causes_text(causes.drop_last()) + "Caused by:\n\t"@ + causes.last() + "\n"@
    }
}

/// The report of an error and its chain of causes: the message, an empty
/// line, and the report of the causes.
pub open spec fn error_chain_text(message: Seq<char>, causes: Seq<Seq<char>>) -> Seq<char> {
    message + "\n\n"@ + causes_text(causes)
}

/// Writes the report of an error: its message, then each cause down the
/// chain.
pub fn error_chain_fmt(message: &str, causes: &Vec<String>) -> (report: String)
    ensures
        report@ == error_chain_text(message@, messages(causes@)),
{
    let mut report = message.to_owned();
    report.append("\n\n");
    let ghost all = messages(causes@);
    let mut i: usize = 0;
    assert(all.subrange(0, 0) =~= Seq::<Seq<char>>::empty());
    assert(report@ =~= message@ + "\n\n"@ + causes_text(all.subrange(0, 0)));
    while i < causes.len()
        invariant
            i <= causes@.len(),
            all == messages(causes@),
            report@ == message@ + "\n\n"@ + causes_text(all.subrange(0, i as int)),
        decreases causes@.len() - i,
    {
        let ghost before = report@;
        report.append("Caused by:\n\t");
        report.append(causes[i].as_str());
        report.append("\n");
        proof {
            let longer = all.subrange(0, i + 1);
            assert(longer.drop_last() =~= all.subrange(0, i as int));
            assert(longer.last() == causes@[i as int]@);
            assert(report@ =~= message@ + "\n\n"@ + causes_text(longer));
        }
        i += 1;
    }
    assert(all.subrange(0, causes@.len() as int) =~= all);
    report
}

/// An ASCII letter or digit.
pub open spec fn is_alphanumeric(c: char) -> bool {
    let code = c as u32;
    (0x30 <= code <= 0x39) || (0x41 <= code <= 0x5a) || (0x61 <= code <= 0x7a)
}

/// `rand::Rng::sample` on the thread's generator with
/// `rand::distributions::Alphanumeric`: a random byte that is an ASCII
/// letter or digit.
#[verifier::external_body]
fn sample_alphanumeric() -> (b: u8)
    ensures
        is_alphanumeric(b as char),
{
    rand::Rng::sample(&mut rand::thread_rng(), rand::distributions::Alphanumeric)
}

/// `String::push`: appends one character.
#[verifier::external_body]
fn push_char(s: &mut String, c: char)
    ensures
        final(s)@ == old(s)@.push(c),
{
    s.push(c)
}

/// A new subscription token: twenty-five random ASCII letters and digits.
pub fn generate_subscription_token() -> (token: String)
    ensures
        token@.len() == TOKEN_LENGTH,
        forall|i: int| 0 <= i < token@.len() ==> is_alphanumeric(#[trigger] token@[i]),
{
    let mut token = String::new();
    let mut i: usize = 0;
    while i < TOKEN_LENGTH
        invariant
            i <= TOKEN_LENGTH,
            token@.len() == i,
            forall|j: int| 0 <= j < token@.len() ==> is_alphanumeric(#[trigger] token@[j]),
        decreases TOKEN_LENGTH - i,
    {
        let b = sample_alphanumeric();
        push_char(&mut token, b as char);
        i += 1;
    }
    token
}

/// The mail that asks a new subscriber to confirm.
#[derive(Debug, Clone, PartialEq, Eq)]
pub struct ConfirmationEmail {
    pub subject: String,
    pub html_content: String,
    pub text_content: String,
}

/// The link that confirms the subscription with the given token.
pub open spec fn confirmation_link(base_url: Seq<char>, subscription_token: Seq<char>) -> Seq<char> {
    base_url + "/subscriptions/confirm?subscription_token="@ + subscription_token
}

/// The HTML body of the confirmation mail.
pub open spec fn confirmation_html(link: Seq<char>) -> Seq<char> {
    "Welcome to our newsletter!<br />Click <a href=\""@ + link + "\">here</a> to confirm your subscription."@
}

/// The plain body of the confirmation mail.
pub open spec fn confirmation_text(link: Seq<char>) -> Seq<char> {
    "Welcome to our newsletter!\nVisit "@ + link + " to confirm your subscription."@
}

/// Writes the confirmation mail for a subscriber: the subject `Welcome!`
/// and both bodies, each with the confirmation link.
pub fn confirmation_email(base_url: &str, subscription_token: &str) -> (mail: ConfirmationEmail)
    ensures
        mail.subject@ == "Welcome!"@,
        mail.html_content@ == confirmation_html(confirmation_link(base_url@, subscription_token@)),
        mail.text_content@ == confirmation_text(confirmation_link(base_url@, subscription_token@)),
{
    let mut link = base_url.to_owned();
    link.append("/subscriptions/confirm?subscription_token=");
    link.append(subscription_token);
    let mut html_content = "Welcome to our newsletter!<br />Click <a href=\"".to_owned();
    html_content.append(link.as_str());
    html_content.append("\">here</a> to confirm your subscription.");
    let mut text_content = "Welcome to our newsletter!\nVisit ".to_owned();
    text_content.append(link.as_str());
    text_content.append(" to confirm your subscription.");
    ConfirmationEmail { subject: "Welcome!".to_owned(), html_content, text_content }
}

} // verus!
