use zero2prod::configurations::Environment;
use zero2prod::login::LoginError;
use zero2prod::newsletters::{
    basic_authentication, credentials_from_decoded, get_confirmed_subscribers, has_prefix, split_credentials,
    BasicAuthError, BodyData, Content, Credentials, PublishedError,
};
use zero2prod::password::{check_change, check_form, new_password_is_weak, new_passwords_differ, PasswordChange};
use zero2prod::response::HeaderPairRecord;
use zero2prod::subscriptions::{
    confirmation_email, error_chain_fmt, generate_subscription_token, SubscribeError, TOKEN_LENGTH,
};
use zero2prod::subscriptions_confirm::{after_marking, after_token_lookup, ConfirmStep, Parameters};

#[test]
fn an_error_and_its_causes_are_reported_line_by_line() {
    let report = error_chain_fmt(
        "Failed to store the token.",
        &vec!["A database error was encountered.".to_string(), "connection reset".to_string()],
    );
    assert_eq!(
        report,
        "Failed to store the token.\n\nCaused by:\n\tA database error was encountered.\nCaused by:\n\tconnection reset\n"
    );
}

#[test]
fn an_error_without_causes_is_its_message_and_an_empty_line() {
    assert_eq!(error_chain_fmt("boom", &vec![]), "boom\n\n");
    assert_eq!(error_chain_fmt("", &vec![]), "\n\n");
}

#[test]
fn a_subscription_error_has_its_status_and_message() {
    let invalid = SubscribeError::ValidationError(" is not a valid subscriber email.".to_string());
    assert_eq!(invalid.status_code(), 400);
    assert_eq!(invalid.message(), " is not a valid subscriber email.");
    let other = SubscribeError::UnexpectedError("Failed to insert new subscriber in the database.".to_string());
    assert_eq!(other.status_code(), 500);
    assert_eq!(other.message(), "Failed to insert new subscriber in the database.");
}

#[test]
fn a_subscription_form_becomes_a_subscriber() {
    let form = zero2prod::subscriptions::FormData {
        email: "ursula_le_guin@gmail.com".to_string(),
        username: "le guin".to_string(),
    };
    let subscriber = form.try_into_subscriber().unwrap();
    assert_eq!(subscriber.email.as_str(), "ursula_le_guin@gmail.com");
    assert_eq!(subscriber.username.as_str(), "le guin");
    for (email, username) in [("", "le guin"), ("ursula_le_guin@gmail.com", ""), ("", "")] {
        let form = zero2prod::subscriptions::FormData { email: email.to_string(), username: username.to_string() };
        assert!(form.try_into_subscriber().is_err());
    }
}

#[test]
fn a_token_is_twenty_five_letters_and_digits() {
    assert_eq!(TOKEN_LENGTH, 25);
    let first = generate_subscription_token();
    let second = generate_subscription_token();
    for token in [&first, &second] {
        assert_eq!(token.chars().count(), 25);
        assert!(token.chars().all(|c| c.is_ascii_alphanumeric()), "{}", token);
    }
    assert_ne!(first, second);
}

#[test]
fn the_confirmation_mail_holds_the_link_in_both_bodies() {
    let mail = confirmation_email("http://127.0.0.1", "tok123");
    assert_eq!(mail.subject, "Welcome!");
    assert_eq!(
        mail.html_content,
        "Welcome to our newsletter!<br />Click <a href=\"http://127.0.0.1/subscriptions/confirm?subscription_token=tok123\">here</a> to confirm your subscription."
    );
    assert_eq!(
        mail.text_content,
        "Welcome to our newsletter!\nVisit http://127.0.0.1/subscriptions/confirm?subscription_token=tok123 to confirm your subscription."
    );
}

#[test]
fn a_confirmation_ends_by_what_the_lookup_and_the_update_gave() {
    assert_eq!(after_token_lookup::<String>(&Err("no connection".to_string())), ConfirmStep::Respond(500));
    assert_eq!(after_token_lookup::<String>(&Ok(None)), ConfirmStep::Respond(401));
    assert_eq!(after_token_lookup::<String>(&Ok(Some(9))), ConfirmStep::MarkConfirmed(9));
    assert_eq!(after_marking::<String>(&Ok(())), 200);
    assert_eq!(after_marking(&Err("no connection".to_string())), 500);
    let parameters = Parameters { subscription_token: "tok".to_string() };
    assert_eq!(parameters.subscription_token, "tok");
}

#[test]
fn a_failed_login_redirects_with_the_encoded_message() {
    let wrong = LoginError::AuthError("Invalid password.".to_string());
    assert_eq!(wrong.message(), "Authentication failed");
    assert_eq!(wrong.status_code(), 303);
    let response = wrong.error_response();
    assert_eq!(response.status(), 303);
    assert_eq!(
        response.headers(),
        &vec![HeaderPairRecord {
            name: "location".to_string(),
            value: b"/login?error=Authentication%20failed".to_vec()
        }]
    );
    assert!(response.body().is_empty());
    let other = LoginError::UnexpectedError("pool timed out".to_string());
    assert_eq!(other.message(), "Something went wrong");
    assert_eq!(
        other.error_response().headers()[0].value,
        b"/login?error=Something%20went%20wrong".to_vec()
    );
}

#[test]
fn refused_credentials_are_answered_with_the_challenge() {
    let refused = PublishedError::AuthError("The 'Authorization' header was missing".to_string());
    assert_eq!(refused.status_code(), 401);
    let response = refused.error_response();
    assert_eq!(response.status(), 401);
    assert_eq!(
        response.headers(),
        &vec![HeaderPairRecord {
            name: "www-authenticate".to_string(),
            value: b"Basic realm=\"publish\"".to_vec()
        }]
    );
    assert!(response.body().is_empty());
    let failed = PublishedError::UnexpectedError("lost".to_string());
    assert_eq!(failed.status_code(), 500);
    let response = failed.error_response();
    assert_eq!(response.status(), 500);
    assert!(response.headers().is_empty());
    assert!(response.body().is_empty());
}

#[test]
fn basic_credentials_are_read_from_the_header() {
    // "admin:secret"
    let r = basic_authentication(Some("Basic YWRtaW46c2VjcmV0"));
    assert_eq!(r, Ok(Credentials { username: "admin".to_string(), password: "secret".to_string() }));
    // "admin:se:cr:et": the password holds what follows the first colon
    let r = basic_authentication(Some("Basic YWRtaW46c2U6Y3I6ZXQ="));
    assert_eq!(r, Ok(Credentials { username: "admin".to_string(), password: "se:cr:et".to_string() }));
    // ":" alone: both are empty
    let r = basic_authentication(Some("Basic Og=="));
    assert_eq!(r, Ok(Credentials { username: String::new(), password: String::new() }));
}

#[test]
fn a_header_without_basic_credentials_is_refused() {
    assert_eq!(basic_authentication(None), Err(BasicAuthError::MissingHeader));
    assert_eq!(basic_authentication(Some("Bearer YWRtaW46c2VjcmV0")), Err(BasicAuthError::WrongScheme));
    assert_eq!(basic_authentication(Some("basic YWRtaW46c2VjcmV0")), Err(BasicAuthError::WrongScheme));
    assert_eq!(basic_authentication(Some("Basic")), Err(BasicAuthError::WrongScheme));
    assert_eq!(basic_authentication(Some("")), Err(BasicAuthError::WrongScheme));
    assert_eq!(basic_authentication(Some("Basic !!!")), Err(BasicAuthError::InvalidBase64));
    assert_eq!(basic_authentication(Some("Basic YWRtaW46c2VjcmV0=")), Err(BasicAuthError::InvalidBase64));
    // 0xff 0xfe is no UTF-8
    assert_eq!(basic_authentication(Some("Basic //4=")), Err(BasicAuthError::InvalidUtf8));
    // "admin" has no colon
    assert_eq!(basic_authentication(Some("Basic YWRtaW4=")), Err(BasicAuthError::MissingPassword));
    // nothing after the scheme decodes to nothing, which has no colon
    assert_eq!(basic_authentication(Some("Basic ")), Err(BasicAuthError::MissingPassword));
}

#[test]
fn decoded_bytes_are_split_at_the_first_colon() {
    assert_eq!(credentials_from_decoded(None), Err(BasicAuthError::InvalidBase64));
    assert_eq!(credentials_from_decoded(Some(vec![0xc3])), Err(BasicAuthError::InvalidUtf8));
    assert_eq!(
        credentials_from_decoded(Some("zo\u{eb}:p\u{e4}ss".as_bytes().to_vec())),
        Ok(Credentials { username: "zo\u{eb}".to_string(), password: "p\u{e4}ss".to_string() })
    );
    assert_eq!(split_credentials("a:"), Ok(Credentials { username: "a".to_string(), password: String::new() }));
    assert_eq!(split_credentials(":b"), Ok(Credentials { username: String::new(), password: "b".to_string() }));
    assert_eq!(split_credentials("ab"), Err(BasicAuthError::MissingPassword));
    assert_eq!(split_credentials(""), Err(BasicAuthError::MissingPassword));
}

#[test]
fn a_prefix_is_found_at_the_start_only() {
    assert!(has_prefix("Basic abc", "Basic "));
    assert!(has_prefix("Basic ", "Basic "));
    assert!(has_prefix("anything", ""));
    assert!(!has_prefix("Basi", "Basic "));
    assert!(!has_prefix(" Basic abc", "Basic "));
}

#[test]
fn stored_addresses_become_subscribers_or_messages() {
    let rows = vec!["a@x.com".to_string(), "broken".to_string(), "b@x.com".to_string()];
    let subscribers = get_confirmed_subscribers(&rows);
    assert_eq!(subscribers.len(), 3);
    assert_eq!(subscribers[0].as_ref().unwrap().email.as_str(), "a@x.com");
    assert_eq!(subscribers[1], Err("broken is not a valid subscriber email.".to_string()));
    assert_eq!(subscribers[2].as_ref().unwrap().email.as_str(), "b@x.com");
    assert!(get_confirmed_subscribers(&vec![]).is_empty());
}

#[test]
fn a_publish_body_holds_the_title_and_both_contents() {
    let body = BodyData {
        title: "Newsletter title".to_string(),
        content: Content {
            html: "<p>Newsletter body as HTML</p>".to_string(),
            text: "Newsletter body as plain text".to_string(),
        },
    };
    assert_eq!(body.title, "Newsletter title");
    assert_eq!(body.content.html, "<p>Newsletter body as HTML</p>");
    assert_eq!(body.content.text, "Newsletter body as plain text");
}

#[test]
fn the_environment_is_local_or_production() {
    assert_eq!(Environment::Local.as_str(), "local");
    assert_eq!(Environment::Production.as_str(), "production");
    assert_eq!(Environment::try_from("local".to_string()), Ok(Environment::Local));
    assert_eq!(Environment::try_from("production".to_string()), Ok(Environment::Production));
    assert_eq!(
        Environment::try_from("staging".to_string()),
        Err("staging is not supported. Use either local or production.".to_string())
    );
    assert_eq!(
        Environment::try_from("Local".to_string()),
        Err("Local is not supported. Use either local or production.".to_string())
    );
}

fn password_form(current: &str, new: &str, check: &str) -> zero2prod::password::FormData {
    zero2prod::password::FormData {
        current_password: current.to_string(),
        new_password: new.to_string(),
        new_password_check: check.to_string(),
    }
}

#[test]
fn new_passwords_must_match() {
    let form = password_form("old", "a-new-password-1", "a-new-password-2");
    assert!(new_passwords_differ(&form));
    assert_eq!(check_form(&form), Some(PasswordChange::NewPasswordsDiffer));
    let form = password_form("old", "a-new-password-1", "a-new-password-1");
    assert!(!new_passwords_differ(&form));
    assert_eq!(check_form(&form), None);
    assert_eq!(
        PasswordChange::NewPasswordsDiffer.message(),
        "You entered two different new passwords - the field values must match."
    );
}

#[test]
fn a_new_password_of_under_12_or_over_128_bytes_is_too_weak() {
    assert!(new_password_is_weak("Thisweak"));
    assert!(new_password_is_weak(&"a".repeat(11)));
    assert!(!new_password_is_weak(&"a".repeat(12)));
    assert!(!new_password_is_weak(&"a".repeat(128)));
    assert!(new_password_is_weak(&"a".repeat(129)));
    // eleven characters, twelve bytes
    assert!(!new_password_is_weak("aaaaaaaaaa\u{e9}"));
    let weak = password_form("old", "Thisweak", "Thisweak");
    assert_eq!(check_change(&weak, true), PasswordChange::NewPasswordTooWeak);
    assert_eq!(check_change(&weak, false), PasswordChange::CurrentPasswordIncorrect);
    let strong = password_form("old", "a-new-password-1", "a-new-password-1");
    assert_eq!(check_change(&strong, true), PasswordChange::Changed);
    assert_eq!(PasswordChange::CurrentPasswordIncorrect.message(), "The current password is incorrect.");
    assert_eq!(PasswordChange::NewPasswordTooWeak.message(), "The new password is too weak");
    assert_eq!(PasswordChange::Changed.message(), "Your password has been changed.");
}
