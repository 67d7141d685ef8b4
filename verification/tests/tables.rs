use zero2prod::dashboard::dashboard_page;
use zero2prod::idempotency::IdempotencyKeyError;
use zero2prod::issues::{DuplicateIssueId, IssueRepository, NewsletterIssue};
use zero2prod::newsletters::BasicAuthError;
use zero2prod::table::Table;

#[test]
fn a_table_keeps_one_row_per_key() {
    let mut table: Table<u32> = Table::new();
    assert_eq!(table.len(), 0);
    assert_eq!(table.position(1, &"a".to_string()), None);
    assert_eq!(table.insert(1, "a".to_string(), 9), None);
    assert_eq!(table.insert(1, "b".to_string(), 20), None);
    assert_eq!(table.insert(2, "a".to_string(), 30), None);
    assert_eq!(table.insert(1, "a".to_string(), 10), Some(9));
    assert_eq!(table.len(), 3);
    let at = table.position(1, &"b".to_string()).unwrap();
    assert_eq!(table.row(at).id, 1);
    assert_eq!(table.row(at).name, "b");
    assert_eq!(table.row(at).value, 20);
    assert_eq!(table.position(2, &"b".to_string()), None);
    assert_eq!(table.replace(at, 21), 20);
    assert_eq!(table.row(at).value, 21);
    assert_eq!(table.len(), 3);
    let removed = table.remove(at);
    assert_eq!((removed.id, removed.name.as_str(), removed.value), (1, "b", 21));
    assert_eq!(table.len(), 2);
    assert_eq!(table.position(1, &"b".to_string()), None);
    let first = table.position(1, &"a".to_string()).unwrap();
    let other = table.position(2, &"a".to_string()).unwrap();
    assert_eq!(table.row(first).value, 10);
    assert_eq!(table.row(other).value, 30);
}

fn issue(title: &str, at: u64) -> NewsletterIssue {
    NewsletterIssue {
        title: title.to_string(),
        html_content: "<p>html</p>".to_string(),
        text_content: "text".to_string(),
        published_at: at,
    }
}

#[test]
fn an_issue_is_written_once_under_its_identifier() {
    let mut issues = IssueRepository::new();
    assert_eq!(issues.len(), 0);
    assert!(!issues.contains(7));
    assert_eq!(issues.get_issue(7), None);
    assert_eq!(issues.insert_into_newsletter_issue(7, issue("first", 1)), Ok(()));
    assert_eq!(issues.insert_into_newsletter_issue(8, issue("second", 2)), Ok(()));
    assert_eq!(issues.insert_into_newsletter_issue(7, issue("again", 3)), Err(DuplicateIssueId));
    assert_eq!(issues.len(), 2);
    assert!(issues.contains(7));
    assert_eq!(issues.get_issue(7), Some(issue("first", 1)));
    assert_eq!(issues.get_issue(8), Some(issue("second", 2)));
    assert_eq!(issue("first", 1).duplicate(), issue("first", 1));
}

#[test]
fn the_dashboard_greets_the_user_by_name() {
    let page = dashboard_page("ursula");
    let expected = format!(
        r#"<!DOCTYPE html>
                <html lang="en">
                <head>
                <meta http-equiv="content-type" content="text/html; charset=utf-8">
                <title>Admin dashboard</title>
                </head>
                <body>
                <p>Welcome {}!</p>
                <p>Available actions:</p>
                <ol>
                <li><a href="/admin/password">Change password</a></li>
                <li>
                <form name="logoutForm" action="/admin/logout" method="post">
                <input type="submit" value="Logout">
                </form>
                </li>
                </ol>
                </body>
                </html>"#,
        "ursula"
    );
    assert_eq!(page, expected);
    assert!(dashboard_page("").contains("<p>Welcome !</p>"));
}

#[test]
fn each_error_has_its_message() {
    assert_eq!(IdempotencyKeyError::Empty.message(), "The idempotency key cannot be empty");
    assert_eq!(
        IdempotencyKeyError::TooLong.message(),
        "The idempotency key cannot be longer than 50 characters"
    );
    assert_eq!(IdempotencyKeyError::NotPrintable.message(), "The idempotency key must be printable ASCII");
    assert_eq!(BasicAuthError::MissingHeader.message(), "The 'Authorization' header was missing");
    assert_eq!(BasicAuthError::WrongScheme.message(), "The authorization scheme was not 'Basic '.");
    assert_eq!(BasicAuthError::InvalidBase64.message(), "Failed to base64-decode 'Basic' credentials.");
    assert_eq!(BasicAuthError::InvalidUtf8.message(), "The decoded credential string is not valid UTF8.");
    assert_eq!(BasicAuthError::MissingPassword.message(), "A password must be provided in 'Basic' scheme");
}
