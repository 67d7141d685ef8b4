//! The rules for a change of password.

use vstd::prelude::*;
use vstd::string::*;
use vstd::utf8::encode_utf8;

verus! {

/// The shortest new password, in bytes.
pub const MIN_PASSWORD_LENGTH: usize = 12;

/// The longest new password, in bytes.
pub const MAX_PASSWORD_LENGTH: usize = 128;

/// The form that asks for a change of password.
#[derive(Debug, Clone, PartialEq, Eq)]
pub struct FormData {
    pub current_password: String,
    pub new_password: String,
    pub new_password_check: String,
}

/// How a request to change the password ended.
#[derive(Debug, Clone, Copy, PartialEq, Eq, Structural)]
pub enum PasswordChange {
    /// The new password and its repetition differ.
    NewPasswordsDiffer,
    /// The current password is not the user's.
    CurrentPasswordIncorrect,
    /// The new password is shorter than twelve bytes or longer than 128.
    NewPasswordTooWeak,
    /// The password was changed.
    Changed,
}

/// A password of `length` bytes is too weak.
pub open spec fn is_weak(length: int) -> bool {
    length < MIN_PASSWORD_LENGTH || length > MAX_PASSWORD_LENGTH
}

/// Whether the new password and its repetition differ.
pub fn new_passwords_differ(form: &FormData) -> (differ: bool)
    ensures
        differ == (form.new_password@ != form.new_password_check@),
{
    !(form.new_password == form.new_password_check)
}

/// Whether a new password is too weak: shorter than twelve bytes or longer
/// than 128.
pub fn new_password_is_weak(password: &str) -> (weak: bool)
    ensures
        weak == is_weak(encode_utf8(password@).len() as int),
{
    let length = password.as_bytes().len();
    length < MIN_PASSWORD_LENGTH || length > MAX_PASSWORD_LENGTH
}

/// What the form alone decides before the current password is looked at:
/// the rejection where the new password and its repetition differ.
pub fn check_form(form: &FormData) -> (r: Option<PasswordChange>)
    ensures
        r == if form.new_password@ != form.new_password_check@ {
            Some(PasswordChange::NewPasswordsDiffer)
        } else {
            None::<PasswordChange>
        },
{
    if new_passwords_differ(form) {
        Some(PasswordChange::NewPasswordsDiffer)
    } else {
        None
    }
}

/// What is decided once the current password has been checked: a wrong
/// current password is refused first, then a weak new one.
pub fn check_change(form: &FormData, current_password_valid: bool) -> (r: PasswordChange)
    ensures
        r == if !current_password_valid {
            PasswordChange::CurrentPasswordIncorrect
        } else if is_weak(encode_utf8(form.new_password@).len() as int) {
            PasswordChange::NewPasswordTooWeak
        } else {
            PasswordChange::Changed
        },
{
    if !current_password_valid {
        PasswordChange::CurrentPasswordIncorrect
    } else if new_password_is_weak(form.new_password.as_str()) {
        PasswordChange::NewPasswordTooWeak
    } else {
        PasswordChange::Changed
    }
}

impl PasswordChange {
    /// The message shown to the user.
    pub fn message(&self) -> (text: &'static str)
        ensures
            text@ == match *self {
                PasswordChange::NewPasswordsDiffer => "You entered two different new passwords - the field values must match."@,
                PasswordChange::CurrentPasswordIncorrect => "The current password is incorrect."@,
                PasswordChange::NewPasswordTooWeak => "The new password is too weak"@,
                PasswordChange::Changed => "Your password has been changed."@,
            },
    {
        match self {
            PasswordChange::NewPasswordsDiffer => "You entered two different new passwords - the field values must match.",
            PasswordChange::CurrentPasswordIncorrect => "The current password is incorrect.",
            PasswordChange::NewPasswordTooWeak => "The new password is too weak",
            PasswordChange::Changed => "Your password has been changed.",
        }
    }
}

} // verus!
