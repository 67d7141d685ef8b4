use zero2prod::database::Database;
use zero2prod::delivery_queue::TaskState;
use zero2prod::domain::{Subscriber, SubscriptionStatus};
use zero2prod::idempotency::{IdempotencyKey, IdempotencyKeyError};
use zero2prod::publish::{publish_newsletter, publish_with_issue_id, FormData, PublishFailure};
use zero2prod::response::{redirect, HeaderPairRecord};

fn form(key: &str) -> FormData {
    FormData {
        title: "T".to_string(),
        text_content: "Newsletter body as plain text".to_string(),
        html_content: "<p>Newsletter body as HTML</p>".to_string(),
        idempotency_key: key.to_string(),
    }
}

fn confirmed(email: &str) -> Subscriber {
    Subscriber { email: email.to_string(), status: SubscriptionStatus::Confirmed }
}

fn pending(email: &str) -> Subscriber {
    Subscriber { email: email.to_string(), status: SubscriptionStatus::PendingConfirmation }
}

#[test]
fn publishing_writes_one_issue_and_one_task_per_confirmed_subscriber() {
    let mut db = Database::new();
    let subscribers = vec![confirmed("a@x.com"), confirmed("b@x.com")];
    let response = publish_with_issue_id(&mut db, form("abc123"), 1, 77, &subscribers, 1000).unwrap();
    assert_eq!(response.status(), 303);
    assert_eq!(
        response.headers(),
        &vec![HeaderPairRecord { name: "location".to_string(), value: b"/admin/newsletters".to_vec() }]
    );
    assert!(response.body().is_empty());
    assert_eq!(db.issue_count(), 1);
    assert_eq!(db.task_count(), 2);
    assert_eq!(db.record_count(), 1);
    let issue = db.issue(77).unwrap();
    assert_eq!(issue.title, "T");
    assert_eq!(issue.html_content, "<p>Newsletter body as HTML</p>");
    assert_eq!(issue.text_content, "Newsletter body as plain text");
    assert_eq!(issue.published_at, 1000);
    let fresh = TaskState { retry_count: 0, not_before: 1000, claimed: false };
    assert_eq!(db.task(77, "a@x.com"), Some(fresh));
    assert_eq!(db.task(77, "b@x.com"), Some(fresh));
    let key = IdempotencyKey::parse("abc123".to_string()).unwrap();
    assert_eq!(db.saved_response(&key, 1), Some(redirect("/admin/newsletters")));
}

#[test]
fn unconfirmed_subscribers_get_no_task() {
    let mut db = Database::new();
    let subscribers = vec![pending("a@x.com"), confirmed("b@x.com"), pending("c@x.com")];
    publish_with_issue_id(&mut db, form("k"), 1, 5, &subscribers, 0).unwrap();
    assert_eq!(db.task_count(), 1);
    assert_eq!(db.task(5, "a@x.com"), None);
    assert!(db.task(5, "b@x.com").is_some());
}

#[test]
fn a_subscriber_listed_twice_gets_one_task() {
    let mut db = Database::new();
    let subscribers = vec![confirmed("a@x.com"), confirmed("a@x.com")];
    publish_with_issue_id(&mut db, form("k"), 1, 5, &subscribers, 0).unwrap();
    assert_eq!(db.task_count(), 1);
}

#[test]
fn publishing_without_subscribers_writes_the_issue_alone() {
    let mut db = Database::new();
    publish_with_issue_id(&mut db, form("k"), 1, 5, &vec![], 0).unwrap();
    assert_eq!(db.issue_count(), 1);
    assert_eq!(db.task_count(), 0);
}

#[test]
fn a_key_of_fifty_one_characters_is_rejected_before_anything_is_written() {
    let mut db = Database::new();
    let subscribers = vec![confirmed("a@x.com")];
    let key = "k".repeat(51);
    let r = publish_with_issue_id(&mut db, form(&key), 1, 77, &subscribers, 1000);
    assert_eq!(r, Err(PublishFailure::InvalidKey(IdempotencyKeyError::TooLong)));
    assert_eq!(r.unwrap_err().status_code(), 400);
    assert_eq!(db.issue_count(), 0);
    assert_eq!(db.task_count(), 0);
    assert_eq!(db.record_count(), 0);
    let r = publish_newsletter(&mut db, form(&key), 1, &subscribers, 1000);
    assert_eq!(r, Err(PublishFailure::InvalidKey(IdempotencyKeyError::TooLong)));
    assert_eq!(db.record_count(), 0);
}

#[test]
fn an_empty_or_unprintable_key_is_rejected() {
    let mut db = Database::new();
    assert_eq!(
        publish_with_issue_id(&mut db, form(""), 1, 77, &vec![], 0),
        Err(PublishFailure::InvalidKey(IdempotencyKeyError::Empty))
    );
    assert_eq!(
        publish_with_issue_id(&mut db, form("a\nb"), 1, 77, &vec![], 0),
        Err(PublishFailure::InvalidKey(IdempotencyKeyError::NotPrintable))
    );
    assert_eq!(db.record_count(), 0);
}

#[test]
fn publishing_twice_with_one_key_publishes_once() {
    let mut db = Database::new();
    let subscribers = vec![confirmed("a@x.com"), confirmed("b@x.com")];
    let first = publish_with_issue_id(&mut db, form("abc123"), 1, 77, &subscribers, 1000).unwrap();
    let more = vec![confirmed("a@x.com"), confirmed("b@x.com"), confirmed("c@x.com")];
    let second = publish_with_issue_id(&mut db, form("abc123"), 1, 78, &more, 2000).unwrap();
    assert_eq!(first, second);
    assert_eq!(db.issue_count(), 1);
    assert_eq!(db.task_count(), 2);
    assert_eq!(db.record_count(), 1);
    assert!(db.issue(78).is_none());
    assert_eq!(db.task(77, "a@x.com"), Some(TaskState { retry_count: 0, not_before: 1000, claimed: false }));
}

#[test]
fn the_same_key_of_another_user_is_another_request() {
    let mut db = Database::new();
    let subscribers = vec![confirmed("a@x.com")];
    publish_with_issue_id(&mut db, form("abc123"), 1, 77, &subscribers, 1000).unwrap();
    publish_with_issue_id(&mut db, form("abc123"), 2, 78, &subscribers, 1000).unwrap();
    assert_eq!(db.issue_count(), 2);
    assert_eq!(db.task_count(), 2);
    assert_eq!(db.record_count(), 2);
}

#[test]
fn a_taken_issue_identifier_fails_and_leaves_the_key_free() {
    let mut db = Database::new();
    let subscribers = vec![confirmed("a@x.com")];
    publish_with_issue_id(&mut db, form("first"), 1, 77, &subscribers, 1000).unwrap();
    let r = publish_with_issue_id(&mut db, form("second"), 1, 77, &subscribers, 1000);
    assert_eq!(r, Err(PublishFailure::IssueIdTaken));
    assert_eq!(r.unwrap_err().status_code(), 500);
    assert_eq!(db.issue_count(), 1);
    assert_eq!(db.task_count(), 1);
    assert_eq!(db.record_count(), 1);
    // the key was not used up: the retry with another identifier goes through
    publish_with_issue_id(&mut db, form("second"), 1, 78, &subscribers, 1000).unwrap();
    assert_eq!(db.issue_count(), 2);
    assert_eq!(db.record_count(), 2);
}

#[test]
fn a_request_under_a_key_in_flight_fails_and_writes_nothing() {
    let mut db = Database::new();
    let key = IdempotencyKey::parse("abc123".to_string()).unwrap();
    let transaction = match db.try_processing(&key, 1, 1000) {
        Ok(zero2prod::idempotency::NextAction::StartProcessing(t)) => t,
        other => panic!("{:?}", other),
    };
    let subscribers = vec![confirmed("a@x.com")];
    let r = publish_with_issue_id(&mut db, form("abc123"), 1, 77, &subscribers, 1001);
    assert_eq!(r, Err(PublishFailure::ClaimInFlight));
    assert_eq!(r.unwrap_err().status_code(), 500);
    assert_eq!(db.issue_count(), 0);
    assert_eq!(db.task_count(), 0);
    assert_eq!(db.record_count(), 1);
    // once the owner has saved its response, the request gets it
    let saved = db.save_response(transaction, redirect("/elsewhere")).unwrap();
    assert_eq!(saved, redirect("/elsewhere"));
    let r = publish_with_issue_id(&mut db, form("abc123"), 1, 77, &subscribers, 1002);
    assert_eq!(r, Ok(redirect("/elsewhere")));
    assert_eq!(db.issue_count(), 0);
}

#[test]
fn a_claim_given_up_leaves_the_key_free_for_the_next_request() {
    let mut db = Database::new();
    let key = IdempotencyKey::parse("abc123".to_string()).unwrap();
    let transaction = match db.try_processing(&key, 1, 1000) {
        Ok(zero2prod::idempotency::NextAction::StartProcessing(t)) => t,
        other => panic!("{:?}", other),
    };
    db.rollback(transaction);
    assert_eq!(db.record_count(), 0);
    let r = publish_with_issue_id(&mut db, form("abc123"), 1, 77, &vec![confirmed("a@x.com")], 1001);
    assert_eq!(r, Ok(redirect("/admin/newsletters")));
    assert_eq!(db.issue_count(), 1);
    assert_eq!(db.task_count(), 1);
}

#[test]
fn publishing_with_a_generated_identifier_writes_one_issue() {
    let mut db = Database::new();
    let subscribers = vec![confirmed("a@x.com"), confirmed("b@x.com")];
    let first = publish_newsletter(&mut db, form("abc123"), 1, &subscribers, 1000).unwrap();
    let second = publish_newsletter(&mut db, form("abc123"), 1, &subscribers, 1000).unwrap();
    assert_eq!(first, second);
    assert_eq!(first, redirect("/admin/newsletters"));
    assert_eq!(db.issue_count(), 1);
    assert_eq!(db.task_count(), 2);
    publish_newsletter(&mut db, form("other"), 1, &subscribers, 1000).unwrap();
    assert_eq!(db.issue_count(), 2);
    assert_eq!(db.task_count(), 4);
}

#[test]
fn a_new_database_is_empty() {
    let db = Database::new();
    assert_eq!(db.issue_count(), 0);
    assert_eq!(db.task_count(), 0);
    assert_eq!(db.record_count(), 0);
    assert!(db.issue(1).is_none());
    assert!(db.task(1, "a@x.com").is_none());
}
