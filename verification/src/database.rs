//! The persisted state as one value: the idempotency records, the issues and
//! the delivery tasks. Every task belongs to an issue that exists.

use crate::delivery_queue::{DeliveryQueue, QueueView, TaskState};
use crate::idempotency::{
    claim_spec, claim_view, get_saved_response, in_flight, rollback, rollback_spec, save_response, save_spec,
    try_processing, IdempotencyError, IdempotencyKey, IdempotencyStore, NextAction, StoreView, Transaction,
};
use crate::issues::{IssueRepository, IssuesView, NewsletterIssue};
use crate::response::HttpResponse;
use crate::table::Key;
use vstd::prelude::*;

verus! {

/// The state as contracts see it.
pub struct DatabaseView {
    pub idempotency: StoreView,
    pub issues: IssuesView,
    pub deliveries: QueueView,
}

/// Every task belongs to an issue that exists.
pub open spec fn tasks_have_issues(db: DatabaseView) -> bool {
    forall|k: Key| #[trigger] db.deliveries.contains_key(k) ==> db.issues.contains_key(k.0)
}

/// A state whose tasks are among those of a state in which every task had
/// its issue, with the same issues, is such a state too.
pub proof fn lemma_fewer_tasks_keep_issues(before: DatabaseView, after: DatabaseView)
    requires
        tasks_have_issues(before),
        after.issues == before.issues,
        forall|k: Key| #[trigger] after.deliveries.contains_key(k) ==> before.deliveries.contains_key(k),
    ensures
        tasks_have_issues(after),
{
    assert forall|k: Key| #[trigger] after.deliveries.contains_key(k) implies after.issues.contains_key(k.0) by {
        assert(before.deliveries.contains_key(k));
    }
}

/// The three tables.
pub struct Database {
    pub(crate) idempotency: IdempotencyStore,
    pub(crate) issues: IssueRepository,
    pub(crate) deliveries: DeliveryQueue,
}

impl View for Database {
    type V = DatabaseView;

    open(crate) spec fn view(&self) -> DatabaseView {
        DatabaseView { idempotency: self.idempotency@, issues: self.issues@, deliveries: self.deliveries@ }
    }
}

impl Database {
    /// Each table is well formed.
    pub open(crate) spec fn tables_wf(&self) -> bool {
        self.idempotency.wf() && self.issues.wf() && self.deliveries.wf()
    }

    /// Each table is well formed, and every task belongs to an issue that
    /// exists.
    pub open spec fn wf(&self) -> bool {
        self.tables_wf() && tasks_have_issues(self@)
    }

    /// A state without records, issues or tasks.
    pub fn new() -> (db: Database)
        ensures
            db.wf(),
            db@.idempotency == Map::<Key, crate::idempotency::SlotView>::empty(),
            db@.issues == Map::<u128, crate::issues::IssueView>::empty(),
            db@.deliveries == Map::<Key, TaskState>::empty(),
    {
        Database { idempotency: IdempotencyStore::new(), issues: IssueRepository::new(), deliveries: DeliveryQueue::new() }
    }

    /// The number of idempotency records.
    pub fn record_count(&self) -> (n: usize)
        requires
            self.wf(),
        ensures
            self@.idempotency.dom().finite(),
            n == self@.idempotency.dom().len(),
    {
        self.idempotency.len()
    }

    /// The number of issues.
    pub fn issue_count(&self) -> (n: usize)
        requires
            self.wf(),
        ensures
            self@.issues.dom().finite(),
            n == self@.issues.dom().len(),
    {
        self.issues.len()
    }

    /// The number of delivery tasks.
    pub fn task_count(&self) -> (n: usize)
        requires
            self.wf(),
        ensures
            self@.deliveries.dom().finite(),
            n == self@.deliveries.dom().len(),
    {
        self.deliveries.len()
    }

    /// The issue under `id`, if there is one.
    pub fn issue(&self, id: u128) -> (r: Option<NewsletterIssue>)
        requires
            self.wf(),
        ensures
            match r {
                Some(issue) => self@.issues.contains_key(id) && self@.issues[id] == issue@,
                None => !self@.issues.contains_key(id),
            },
    {
        self.issues.get_issue(id)
    }

    /// The state of the task for `(issue_id, email)`, if there is one.
    pub fn task(&self, issue_id: u128, email: &str) -> (r: Option<TaskState>)
        requires
            self.wf(),
        ensures
            match r {
                Some(state) => self@.deliveries.contains_key((issue_id, email@)) && self@.deliveries[(
                    issue_id,
                    email@,
                )] == state,
                None => !self@.deliveries.contains_key((issue_id, email@)),
            },
    {
        self.deliveries.task(issue_id, email)
    }

    /// Claims the right to do the work for `(user_id, idempotency_key)`, as
    /// `idempotency::try_processing` does on the records of this state.
    pub fn try_processing(&mut self, idempotency_key: &IdempotencyKey, user_id: u128, now: u64) -> (r: Result<
        NextAction,
        IdempotencyError,
    >)
        requires
            old(self).wf(),
        ensures
            final(self).wf(),
            final(self)@.issues == old(self)@.issues,
            final(self)@.deliveries == old(self)@.deliveries,
            (final(self)@.idempotency, claim_view(r)) == claim_spec(
                old(self)@.idempotency,
                (user_id, idempotency_key@),
                now as int,
            ),
            r matches Ok(NextAction::StartProcessing(transaction)) ==> transaction@ == (user_id, idempotency_key@),
            r matches Err(e) ==> e == IdempotencyError::ResponseNotSaved,
    {
        let r = try_processing(&mut self.idempotency, idempotency_key, user_id, now);
        proof {
            lemma_fewer_tasks_keep_issues(old(self)@, self@);
        }
        r
    }

    /// Saves the owner's response and ends its claim, as
    /// `idempotency::save_response` does on the records of this state.
    pub fn save_response(&mut self, transaction: Transaction, http_response: HttpResponse) -> (r: Result<
        HttpResponse,
        IdempotencyError,
    >)
        requires
            old(self).wf(),
        ensures
            final(self).wf(),
            final(self)@.issues == old(self)@.issues,
            final(self)@.deliveries == old(self)@.deliveries,
            final(self)@.idempotency == save_spec(old(self)@.idempotency, transaction@, http_response@),
            match r {
                Ok(response) => in_flight(old(self)@.idempotency, transaction@) && response@ == http_response@,
                Err(e) => !in_flight(old(self)@.idempotency, transaction@) && e
                    == IdempotencyError::NoClaimInFlight,
            },
    {
        let r = save_response(&mut self.idempotency, transaction, http_response);
        proof {
            lemma_fewer_tasks_keep_issues(old(self)@, self@);
        }
        r
    }

    /// Gives the transaction's claim up, as `idempotency::rollback` does on
    /// the records of this state.
    pub fn rollback(&mut self, transaction: Transaction)
        requires
            old(self).wf(),
        ensures
            final(self).wf(),
            final(self)@.issues == old(self)@.issues,
            final(self)@.deliveries == old(self)@.deliveries,
            final(self)@.idempotency == rollback_spec(old(self)@.idempotency, transaction@),
    {
        rollback(&mut self.idempotency, transaction);
        proof {
            lemma_fewer_tasks_keep_issues(old(self)@, self@);
        }
    }

    /// The response saved for `(user_id, idempotency_key)`, if one is saved.
    pub fn saved_response(&self, idempotency_key: &IdempotencyKey, user_id: u128) -> (r: Option<HttpResponse>)
        requires
            self.wf(),
        ensures
            match r {
                Some(response) => self@.idempotency.contains_key((user_id, idempotency_key@))
                    && self@.idempotency[(user_id, idempotency_key@)].response == Some(response@),
                None => !self@.idempotency.contains_key((user_id, idempotency_key@)) || self@.idempotency[(
                    user_id,
                    idempotency_key@,
                )].response is None,
            },
    {
        get_saved_response(&self.idempotency, idempotency_key, user_id)
    }
}

} // verus!
