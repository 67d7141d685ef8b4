//! The publish coordinator: one request to publish an issue claims its
//! idempotency key, writes the issue, creates one delivery task per
//! confirmed subscriber and saves its response, all or nothing. A repeated
//! request gets the saved response and changes nothing.

use crate::database::{Database, DatabaseView};
use crate::delivery_queue::enqueue_spec;
use crate::domain::{confirmed_addresses, Subscriber};
use crate::idempotency::{
    key_defect, rollback, save_response, try_processing, IdempotencyKey, IdempotencyKeyError, NextAction, SlotView,
};
use crate::issues::{IssueView, NewsletterIssue};
use crate::response::{redirect, redirect_view, HttpResponse, ResponseView};
use vstd::prelude::*;
use vstd::string::StringSliceAdditionalSpecFns;

verus! {

/// The form that asks for an issue to be published.
#[derive(Debug, Clone, PartialEq, Eq)]
pub struct FormData {
    pub title: String,
    pub text_content: String,
    pub html_content: String,
    pub idempotency_key: String,
}

/// Why a publish request was not carried out. In each case nothing was
/// written.
#[derive(Debug, Clone, Copy, PartialEq, Eq)]
pub enum PublishFailure {
    /// The idempotency key is malformed: the client's fault.
    InvalidKey(IdempotencyKeyError),
    /// A record for the key exists and holds no response.
    ClaimInFlight,
    /// The identifier generated for the issue is taken.
    IssueIdTaken,
}

/// A publish request as contracts see it, with the identifier generated for
/// its issue, the time, and the addresses of the confirmed subscribers.
pub struct PublishRequest {
    pub user_id: u128,
    pub idempotency_key: Seq<char>,
    pub title: Seq<char>,
    pub text_content: Seq<char>,
    pub html_content: Seq<char>,
    pub issue_id: u128,
    pub now: u64,
    pub recipients: Set<Seq<char>>,
}

/// Where an accepted request sends the client.
pub open spec fn accepted_location() -> Seq<u8> {
    "/admin/newsletters".spec_bytes()
}

/// The response to an accepted request: a redirect to the newsletter page.
pub open spec fn accepted_view() -> ResponseView {
    redirect_view(accepted_location())
}

/// The state after a publish request, and its result.
pub open spec fn publish_spec(db: DatabaseView, request: PublishRequest) -> (
    DatabaseView,
    Result<ResponseView, PublishFailure>,
) {
    let k = (request.user_id, request.idempotency_key);
    if let Some(e) = key_defect(request.idempotency_key) {
        (db, Err(PublishFailure::InvalidKey(e)))
    } else if db.idempotency.contains_key(k) {
        match db.idempotency[k].response {
            Some(response) => (db, Ok(response)),
            None => (db, Err(PublishFailure::ClaimInFlight)),
        }
    } else if db.issues.contains_key(request.issue_id) {
        (db, Err(PublishFailure::IssueIdTaken))
    } else {
        (
            DatabaseView {
                idempotency: db.idempotency.insert(
                    k,
                    SlotView { created_at: request.now as int, response: Some(accepted_view()) },
                ),
                issues: db.issues.insert(
                    request.issue_id,
                    IssueView {
                        title: request.title,
                        html_content: request.html_content,
                        text_content: request.text_content,
                        published_at: request.now as int,
                    },
                ),
                deliveries: enqueue_spec(db.deliveries, request.issue_id, request.recipients, request.now),
            },
            Ok(accepted_view()),
        )
    }
}

/// The request that a call of `publish_newsletter` stands for.
pub open spec fn request_of(
    form: FormData,
    user_id: u128,
    issue_id: u128,
    subscribers: Seq<Subscriber>,
    now: u64,
) -> PublishRequest {
    PublishRequest {
        user_id,
        idempotency_key: form.idempotency_key@,
        title: form.title@,
        text_content: form.text_content@,
        html_content: form.html_content@,
        issue_id,
        now,
        recipients: confirmed_addresses(subscribers),
    }
}

/// A result as contracts see it.
pub open spec fn result_view(r: Result<HttpResponse, PublishFailure>) -> Result<ResponseView, PublishFailure> {
    match r {
        Ok(response) => Ok(response@),
        Err(e) => Err(e),
    }
}

/// `uuid::Uuid::new_v4`, read as a number with `Uuid::as_u128`. The
/// identifier is random: nothing is promised of it.
#[verifier::external_body]
fn new_issue_id() -> u128 {
    uuid::Uuid::new_v4().as_u128()
}

impl PublishFailure {
    /// The HTTP status that reports this failure: 400 for a malformed key,
    /// 500 for the others.
    pub fn status_code(&self) -> (code: u16)
        ensures
            code == if self is InvalidKey {
                400u16
            } else {
                500u16
            },
    {
        match self {
            PublishFailure::InvalidKey(_) => 400,
            _ => 500,
        }
    }
}

/// Publishes an issue under the identifier `issue_id`.
///
/// A malformed key is refused before anything is read. A key with a saved
/// response replays it. Otherwise the issue is written, one task is
/// created per confirmed subscriber, and the response is saved under the
/// key. On every failure the state is as before.
pub fn publish_with_issue_id(
    db: &mut Database,
    form: FormData,
    user_id: u128,
    issue_id: u128,
    subscribers: &Vec<Subscriber>,
    now: u64,
) -> (r: Result<HttpResponse, PublishFailure>)
    requires
        old(db).wf(),
    ensures
        final(db).wf(),
        (final(db)@, result_view(r)) == publish_spec(
            old(db)@,
            request_of(form, user_id, issue_id, subscribers@, now),
        ),
{
    let ghost request = request_of(form, user_id, issue_id, subscribers@, now);
    let ghost k = (user_id, form.idempotency_key@);
    let FormData { title, text_content, html_content, idempotency_key } = form;
    let key = match IdempotencyKey::parse(idempotency_key) {
        Ok(key) => key,
        Err(e) => {
            return Err(PublishFailure::InvalidKey(e));
        },
    };
    match try_processing(&mut db.idempotency, &key, user_id, now) {
        Err(_) => Err(PublishFailure::ClaimInFlight),
        Ok(NextAction::ReturnedHttpResponse(response)) => Ok(response),
        Ok(NextAction::StartProcessing(transaction)) => {
            let issue = NewsletterIssue { title, html_content, text_content, published_at: now };
            match db.issues.insert_into_newsletter_issue(issue_id, issue) {
                Err(_) => {
                    rollback(&mut db.idempotency, transaction);
                    assert(db@.idempotency =~= old(db)@.idempotency);
                    Err(PublishFailure::IssueIdTaken)
                },
                Ok(()) => {
                    db.deliveries.enqueue_delivery_task(issue_id, subscribers, now);
                    let response = redirect("/admin/newsletters");
                    let saved = save_response(&mut db.idempotency, transaction, response);
                    assert(db@.idempotency =~= publish_spec(old(db)@, request).0.idempotency);
                    match saved {
                        Ok(response) => Ok(response),
                        Err(_) => {
                            assert(false);
                            Err(PublishFailure::ClaimInFlight)
                        },
                    }
                },
            }
        },
    }
}

/// Publishes an issue under a newly generated identifier. What happens is
/// what `publish_with_issue_id` does with that identifier.
pub fn publish_newsletter(
    db: &mut Database,
    form: FormData,
    user_id: u128,
    subscribers: &Vec<Subscriber>,
    now: u64,
) -> (r: Result<HttpResponse, PublishFailure>)
    requires
        old(db).wf(),
    ensures
        final(db).wf(),
        exists|issue_id: u128|
            (final(db)@, result_view(r)) == #[trigger] publish_spec(
                old(db)@,
                request_of(form, user_id, issue_id, subscribers@, now),
            ),
{
    let issue_id = new_issue_id();
    publish_with_issue_id(db, form, user_id, issue_id, subscribers, now)
}

} // verus!
