//! The delivery worker: it claims one task at a time, has the caller send
//! the mail, and settles the task by what came of it.
//!
//! The worker itself sends nothing and never sleeps. `try_execute_task`
//! hands out the mail to send, `complete_delivery` takes the outcome, and
//! `pause_after` says how long to wait before the next round.

use crate::database::{lemma_fewer_tasks_keep_issues, Database};
use crate::delivery_queue::{claimable, held, let_go, purge_spec, settle_in_queue, DeliveryTask, QueueView};
use crate::domain::{is_valid_email, SubscriberEmail};
use crate::table::Key;
use vstd::prelude::*;

verus! {

/// How one round of the worker ended.
#[derive(Debug, Clone, Copy, PartialEq, Eq, Structural)]
pub enum ExecutionOutcome {
    /// A task was handled: delivered, rescheduled or dropped.
    TaskCompleted,
    /// No task was due.
    EmptyQueue,
}

/// The three waits of the worker, in seconds.
#[derive(Debug, Clone, Copy, PartialEq, Eq, Structural)]
pub struct WorkerDelays {
    /// How long the worker rests when no task is due.
    pub idle_queue: u64,
    /// How far a failed task is pushed into the future.
    pub retry: u64,
    /// How long the worker rests after a round that ended in an error.
    pub failure: u64,
}

impl WorkerDelays {
    /// Ten seconds on an empty queue, a minute between attempts, one second
    /// after an error.
    pub fn standard() -> (delays: WorkerDelays)
        ensures
            delays == (WorkerDelays { idle_queue: 10, retry: 60, failure: 1 }),
    {
        WorkerDelays { idle_queue: 10, retry: 60, failure: 1 }
    }
}

/// A claimed task whose mail is to be sent: the recipient and the content of
/// the issue.
#[derive(Debug, PartialEq, Eq)]
pub struct PendingDelivery {
    pub newsletter_issue_id: u128,
    pub recipient: SubscriberEmail,
    pub title: String,
    pub html_content: String,
    pub text_content: String,
}

impl PendingDelivery {
    /// The key of the task that this delivery settles.
    pub open spec fn key(&self) -> Key {
        (self.newsletter_issue_id, self.recipient@)
    }
}

/// What `try_execute_task` came to.
#[derive(Debug, PartialEq, Eq)]
pub enum TaskExecution {
    /// The round is over.
    Finished(ExecutionOutcome),
    /// A task is claimed; the caller sends this mail and reports the
    /// outcome to `complete_delivery`.
    AwaitingSend(PendingDelivery),
}

/// The task that a delivery names is not claimed, or not there.
#[derive(Debug, Clone, Copy, PartialEq, Eq, Structural)]
pub struct ClaimLost;

/// The task `k` is in the queue and a worker holds it.
pub open spec fn is_held(queue: QueueView, k: Key) -> bool {
    queue.contains_key(k) && queue[k].claimed
}

/// The queue after the holder of task `k` has settled it and the sweep has
/// run.
pub open spec fn complete_spec(queue: QueueView, k: Key, sent: bool, retry_delay: u64) -> QueueView {
    purge_spec(settle_in_queue(queue, k, sent, retry_delay))
}

/// How long the worker rests after a round, in seconds: not at all after a
/// handled task, the idle wait on an empty queue, the failure wait after an
/// error.
pub open spec fn pause_spec<E>(result: Result<ExecutionOutcome, E>, delays: WorkerDelays) -> u64 {
    match result {
        Ok(ExecutionOutcome::TaskCompleted) => 0,
        Ok(ExecutionOutcome::EmptyQueue) => delays.idle_queue,
        Err(_) => delays.failure,
    }
}

/// How long the worker rests after a round that ended in `result`.
pub fn pause_after<E>(result: &Result<ExecutionOutcome, E>, delays: &WorkerDelays) -> (seconds: u64)
    ensures
        seconds == pause_spec(*result, *delays),
{
    match result {
        Ok(ExecutionOutcome::TaskCompleted) => 0,
        Ok(ExecutionOutcome::EmptyQueue) => delays.idle_queue,
        Err(_) => delays.failure,
    }
}

/// Starts one round: claims a task that is due at `now`.
///
/// Where none is due, the round is over and nothing has changed. Where the
/// claimed task's recipient is no valid address, the task is removed, with
/// no mail to send, and the round is over. Otherwise the task stays claimed
/// and its mail is handed out.
pub fn try_execute_task(db: &mut Database, now: u64) -> (r: TaskExecution)
    requires
        old(db).wf(),
    ensures
        final(db).wf(),
        final(db)@.idempotency == old(db)@.idempotency,
        final(db)@.issues == old(db)@.issues,
        match r {
            TaskExecution::Finished(ExecutionOutcome::EmptyQueue) => final(db)@ == old(db)@ && forall|k: Key|
                !claimable(old(db)@.deliveries, now, k),
            TaskExecution::Finished(ExecutionOutcome::TaskCompleted) => exists|k: Key|
                #![trigger old(db)@.deliveries.remove(k)]
                claimable(old(db)@.deliveries, now, k) && !is_valid_email(k.1) && final(db)@.deliveries == old(
                    db,
                )@.deliveries.remove(k),
            TaskExecution::AwaitingSend(delivery) => {
                let k = delivery.key();
                &&& claimable(old(db)@.deliveries, now, k)
                &&& is_valid_email(k.1)
                &&& final(db)@.deliveries == old(db)@.deliveries.insert(k, held(old(db)@.deliveries[k]))
                &&& delivery.title@ == old(db)@.issues[k.0].title
                &&& delivery.html_content@ == old(db)@.issues[k.0].html_content
                &&& delivery.text_content@ == old(db)@.issues[k.0].text_content
            },
        },
{
    let claimed = db.deliveries.dequeue_task(now);
    proof {
        lemma_fewer_tasks_keep_issues(old(db)@, db@);
    }
    match claimed {
        None => TaskExecution::Finished(ExecutionOutcome::EmptyQueue),
        Some(task) => {
            let ghost k = task.key();
            let DeliveryTask { newsletter_issue_id, subscriber_email, retry_count: _, not_before: _ } = task;
            let address = subscriber_email.clone();
            match SubscriberEmail::parse(subscriber_email) {
                Err(_) => {
                    db.deliveries.delete_task(newsletter_issue_id, &address);
                    assert(db@.deliveries =~= old(db)@.deliveries.remove(k));
                    proof {
                        lemma_fewer_tasks_keep_issues(old(db)@, db@);
                    }
                    TaskExecution::Finished(ExecutionOutcome::TaskCompleted)
                },
                Ok(recipient) => {
                    match db.issues.get_issue(newsletter_issue_id) {
                        Some(issue) => TaskExecution::AwaitingSend(
                            PendingDelivery {
                                newsletter_issue_id,
                                recipient,
                                title: issue.title,
                                html_content: issue.html_content,
                                text_content: issue.text_content,
                            },
                        ),
                        None => {
                            assert(old(db)@.deliveries.contains_key(k));
                            assert(false);
                            TaskExecution::Finished(ExecutionOutcome::EmptyQueue)
                        },
                    }
                },
            }
        },
    }
}

/// Ends a round whose mail was sent or not: settles the task that the
/// delivery names, then sweeps the queue.
///
/// Delivered, the task is removed. Failed, it is pushed `delays.retry`
/// into the future with one more failure on its count, or removed where its
/// count had reached the ceiling. It fails, and changes nothing, where the
/// task is not claimed.
pub fn complete_delivery(db: &mut Database, delivery: PendingDelivery, sent: bool, delays: &WorkerDelays) -> (r:
    Result<ExecutionOutcome, ClaimLost>)
    requires
        old(db).wf(),
    ensures
        final(db).wf(),
        final(db)@.idempotency == old(db)@.idempotency,
        final(db)@.issues == old(db)@.issues,
        match r {
            Ok(outcome) => outcome == ExecutionOutcome::TaskCompleted && is_held(
                old(db)@.deliveries,
                delivery.key(),
            ) && final(db)@.deliveries == complete_spec(old(db)@.deliveries, delivery.key(), sent, delays.retry),
            Err(_) => !is_held(old(db)@.deliveries, delivery.key()) && final(db)@ == old(db)@,
        },
{
    let address = delivery.recipient.as_str().to_owned();
    let was_held = db.deliveries.settle_task(delivery.newsletter_issue_id, &address, sent, delays.retry);
    if !was_held {
        return Err(ClaimLost);
    }
    db.deliveries.remove_non_complete_tasks();
    proof {
        lemma_fewer_tasks_keep_issues(old(db)@, db@);
    }
    Ok(ExecutionOutcome::TaskCompleted)
}

/// Gives a claimed task back without an attempt, as after an error on the
/// way: the task is as it was before the claim.
pub fn release_delivery(db: &mut Database, delivery: PendingDelivery)
    requires
        old(db).wf(),
    ensures
        final(db).wf(),
        final(db)@.idempotency == old(db)@.idempotency,
        final(db)@.issues == old(db)@.issues,
        final(db)@.deliveries == if old(db)@.deliveries.contains_key(delivery.key()) {
            old(db)@.deliveries.insert(delivery.key(), let_go(old(db)@.deliveries[delivery.key()]))
        } else {
            old(db)@.deliveries
        },
{
    let address = delivery.recipient.as_str().to_owned();
    db.deliveries.release_task(delivery.newsletter_issue_id, &address);
    proof {
        lemma_fewer_tasks_keep_issues(old(db)@, db@);
    }
}

} // verus!
