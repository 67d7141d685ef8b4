//! What holds of the store, the coordinator and the queue, whatever the
//! state and the requests: proved over the same specifications that the
//! functions' contracts use.

use crate::database::{tasks_have_issues, DatabaseView};
use crate::delivery_queue::{
    claimable, fresh_task, held, later, settle_in_queue, settle_spec, swept, QueueView, TaskState, MAX_RETRIES,
};
use crate::idempotency::{claim_spec, in_flight, key_defect, rollback_spec, save_spec, ClaimView, StoreView};
use crate::issues_delivery_worker::{complete_spec, is_held};
use crate::publish::{accepted_view, publish_spec, PublishRequest};
use crate::response::{response_of_row, ResponseView, SavedResponseError};
use crate::table::Key;
use vstd::prelude::*;

verus! {

/// While a claim is in flight, no second claim on its key makes an owner,
/// and none changes the store. Once the owner has saved its response, every
/// claim on the key gets that response, and the store stays as it is.
pub proof fn law_one_owner_per_key(store: StoreView, k: Key, first: int, second: int, response: ResponseView)
    requires
        claim_spec(store, k, first).1 is Owner,
    ensures
        in_flight(claim_spec(store, k, first).0, k),
        claim_spec(claim_spec(store, k, first).0, k, second) == (claim_spec(store, k, first).0, ClaimView::Refused),
        claim_spec(save_spec(claim_spec(store, k, first).0, k, response), k, second) == (
            save_spec(claim_spec(store, k, first).0, k, response),
            ClaimView::Cached(response),
        ),
{
}

/// A claim that is given up leaves the store as it was before the claim, so
/// that the next claim on the key makes an owner again.
pub proof fn law_rollback_frees_key(store: StoreView, k: Key, first: int, second: int)
    requires
        claim_spec(store, k, first).1 is Owner,
    ensures
        rollback_spec(claim_spec(store, k, first).0, k) == store,
        claim_spec(rollback_spec(claim_spec(store, k, first).0, k), k, second).1 is Owner,
{
    assert(rollback_spec(claim_spec(store, k, first).0, k) =~= store);
}

/// A response read back from its persisted form is the response that was
/// saved.
pub proof fn law_saved_response_reads_back(response: ResponseView)
    requires
        100 <= response.status_code < 1000,
    ensures
        response_of_row(response) == Ok::<ResponseView, SavedResponseError>(response),
{
}

/// Publishing is idempotent: a request made a second time gets the result
/// of the first and changes nothing.
pub proof fn law_publish_twice_is_publish_once(db: DatabaseView, request: PublishRequest)
    ensures
        publish_spec(publish_spec(db, request).0, request) == publish_spec(db, request),
{
    let once = publish_spec(db, request);
    let twice = publish_spec(once.0, request);
    let k = (request.user_id, request.idempotency_key);
    if key_defect(request.idempotency_key) is Some {
    } else if db.idempotency.contains_key(k) {
    } else if db.issues.contains_key(request.issue_id) {
    } else {
        assert(once.0.idempotency.contains_key(k));
    }
}

/// Two requests under one user and one key, served one after the other in
/// either order: whichever comes second gets the response of the first, byte
/// for byte, and writes nothing. One issue and one set of tasks exist
/// afterwards, those of the request that came first.
pub proof fn law_same_key_publishes_once(db: DatabaseView, first: PublishRequest, second: PublishRequest)
    requires
        first.user_id == second.user_id,
        first.idempotency_key == second.idempotency_key,
        publish_spec(db, first).1 is Ok,
    ensures
        publish_spec(publish_spec(db, first).0, second) == (publish_spec(db, first).0, publish_spec(db, first).1),
        publish_spec(db, second).1 is Ok ==> publish_spec(publish_spec(db, second).0, first) == (
            publish_spec(db, second).0,
            publish_spec(db, second).1,
        ),
        publish_spec(db, second).1 is Ok ==> publish_spec(db, second).1 == publish_spec(db, first).1,
{
    let k = (first.user_id, first.idempotency_key);
    if db.idempotency.contains_key(k) {
    } else {
        assert(publish_spec(db, first).0.idempotency.contains_key(k));
        if publish_spec(db, second).1 is Ok {
            assert(publish_spec(db, second).0.idempotency.contains_key(k));
        }
    }
}

/// A request that is carried out for the first time writes exactly one
/// issue and one task per recipient, each due at once and with no failure
/// on its count; a request that fails writes nothing.
pub proof fn law_publish_is_all_or_nothing(db: DatabaseView, request: PublishRequest)
    requires
        tasks_have_issues(db),
    ensures
        tasks_have_issues(publish_spec(db, request).0),
        publish_spec(db, request).1 is Err ==> publish_spec(db, request).0 == db,
        publish_spec(db, request).1 is Ok && !db.idempotency.contains_key(
            (request.user_id, request.idempotency_key),
        ) ==> {
            let after = publish_spec(db, request).0;
            &&& !db.issues.contains_key(request.issue_id)
            &&& after.issues == db.issues.insert(request.issue_id, after.issues[request.issue_id])
            &&& after.idempotency[(request.user_id, request.idempotency_key)].response == Some(accepted_view())
            &&& forall|k: Key| #[trigger]
                after.deliveries.contains_key(k) <==> db.deliveries.contains_key(k) || (k.0 == request.issue_id
                    && request.recipients.contains(k.1))
            &&& forall|a: Seq<char>| #[trigger]
                request.recipients.contains(a) ==> after.deliveries[(request.issue_id, a)] == fresh_task(
                    request.now,
                )
        },
{
    let after = publish_spec(db, request).0;
    if publish_spec(db, request).1 is Ok && !db.idempotency.contains_key((request.user_id, request.idempotency_key)) {
        assert forall|a: Seq<char>| #[trigger] request.recipients.contains(a) implies after.deliveries[(
            request.issue_id,
            a,
        )] == fresh_task(request.now) by {
            if db.deliveries.contains_key((request.issue_id, a)) {
                assert(db.issues.contains_key(request.issue_id));
            }
        }
    }
}

/// A task that a worker holds is handed to no second claimant: whoever
/// claims next, at whatever time, gets another task.
pub proof fn law_no_double_claim(queue: QueueView, now: u64, k: Key, next: u64, other: Key)
    requires
        claimable(queue, now, k),
        claimable(queue.insert(k, held(queue[k])), next, other),
    ensures
        other != k,
        claimable(queue, next, other),
{
}

/// The queue after the claims of `claims`, made one after the other: each
/// names the task claimed and the time of the claim.
pub open spec fn after_claims(queue: QueueView, claims: Seq<(Key, u64)>) -> QueueView
    decreases claims.len(),
{
    if claims.len() == 0 {
        queue
    } else {
        let before = after_claims(queue, claims.drop_last());
        before.insert(claims.last().0, held(before[claims.last().0]))
    }
}

/// Each claim of `claims` takes a task that can be claimed when its turn
/// comes.
pub open spec fn claims_possible(queue: QueueView, claims: Seq<(Key, u64)>) -> bool
    decreases claims.len(),
{
    claims.len() == 0 || (claims_possible(queue, claims.drop_last()) && claimable(
        after_claims(queue, claims.drop_last()),
        claims.last().1,
        claims.last().0,
    ))
}

/// However many workers claim, and in whatever order, as long as none has
/// settled: no task is claimed twice. Each claimed task was free and due in
/// the queue as it was at the start, is held afterwards, and nothing else
/// has changed.
pub proof fn law_each_task_claimed_once(queue: QueueView, claims: Seq<(Key, u64)>)
    requires
        claims_possible(queue, claims),
    ensures
        forall|i: int, j: int| 0 <= i < j < claims.len() ==> claims[i].0 != claims[j].0,
        forall|i: int| 0 <= i < claims.len() ==> claimable(queue, (#[trigger] claims[i]).1, claims[i].0),
        forall|i: int|
            0 <= i < claims.len() ==> after_claims(queue, claims)[(#[trigger] claims[i]).0] == held(
                queue[claims[i].0],
            ),
        forall|k: Key| #[trigger] after_claims(queue, claims).contains_key(k) <==> queue.contains_key(k),
        forall|k: Key|
            queue.contains_key(k) && (forall|i: int| 0 <= i < claims.len() ==> (#[trigger] claims[i]).0 != k)
                ==> #[trigger] after_claims(queue, claims)[k] == queue[k],
    decreases claims.len(),
{
    if claims.len() > 0 {
        let earlier = claims.drop_last();
        let last = claims.last();
        let before = after_claims(queue, earlier);
        law_each_task_claimed_once(queue, earlier);
        assert forall|i: int| 0 <= i < earlier.len() implies (#[trigger] claims[i]).0 != last.0 by {
            assert(earlier[i] == claims[i]);
            assert(before[earlier[i].0] == held(queue[earlier[i].0]));
        }
        assert(before[last.0] == queue[last.0]) by {
            assert forall|i: int| 0 <= i < earlier.len() implies (#[trigger] earlier[i]).0 != last.0 by {
                assert(earlier[i] == claims[i]);
            }
        }
        assert forall|i: int, j: int| 0 <= i < j < claims.len() implies claims[i].0 != claims[j].0 by {
            if j < earlier.len() {
                assert(earlier[i] == claims[i] && earlier[j] == claims[j]);
            }
        }
        assert forall|i: int| 0 <= i < claims.len() implies claimable(
            queue,
            (#[trigger] claims[i]).1,
            claims[i].0,
        ) by {
            if i < earlier.len() {
                assert(earlier[i] == claims[i]);
            }
        }
        assert forall|i: int| 0 <= i < claims.len() implies after_claims(queue, claims)[(#[trigger] claims[i]).0]
            == held(queue[claims[i].0]) by {
            if i < earlier.len() {
                assert(earlier[i] == claims[i]);
            }
        }
        assert forall|k: Key|
            queue.contains_key(k) && (forall|i: int| 0 <= i < claims.len() ==> (#[trigger] claims[i]).0 != k)
            implies #[trigger] after_claims(queue, claims)[k] == queue[k] by {
            assert(claims[claims.len() - 1].0 != k);
            assert forall|i: int| 0 <= i < earlier.len() implies (#[trigger] earlier[i]).0 != k by {
                assert(earlier[i] == claims[i]);
            }
        }
    }
}

/// A failed attempt on a task below the ceiling keeps the task, with one
/// more failure on its count, free to be claimed again, and never due
/// earlier than before; it is due strictly later where the delay is not
/// zero and the clock has room. At the ceiling the failure removes the
/// task. A delivered task is removed.
pub proof fn law_failure_retries_or_drops(task: TaskState, retry_delay: u64)
    ensures
        settle_spec(task, true, retry_delay) is None,
        task.retry_count < MAX_RETRIES ==> settle_spec(task, false, retry_delay) == Some(
            TaskState {
                retry_count: (task.retry_count + 1) as u32,
                not_before: later(task.not_before, retry_delay),
                claimed: false,
            },
        ),
        later(task.not_before, retry_delay) >= task.not_before,
        retry_delay > 0 && task.not_before + retry_delay <= u64::MAX ==> later(task.not_before, retry_delay)
            > task.not_before,
        task.retry_count >= MAX_RETRIES ==> settle_spec(task, false, retry_delay) is None,
{
}

/// The task after `failures` failed attempts in a row, or `None` once it
/// has left the queue.
pub open spec fn after_failures(task: TaskState, failures: nat, retry_delay: u64) -> Option<TaskState>
    decreases failures,
{
    if failures == 0 {
        Some(task)
    } else {
        match after_failures(task, (failures - 1) as nat, retry_delay) {
            Some(previous) => settle_spec(previous, false, retry_delay),
            None => None,
        }
    }
}

/// A new task survives ten failures, counting each and moving one delay
/// further each time, and leaves the queue with the eleventh.
pub proof fn law_eleventh_failure_drops(now: u64, failures: nat, retry_delay: u64)
    requires
        now + failures * retry_delay <= u64::MAX,
    ensures
        failures <= MAX_RETRIES ==> after_failures(fresh_task(now), failures, retry_delay) == Some(
            TaskState {
                retry_count: failures as u32,
                not_before: (now + failures * retry_delay) as u64,
                claimed: false,
            },
        ),
        failures > MAX_RETRIES ==> after_failures(fresh_task(now), failures, retry_delay) is None,
    decreases failures,
{
    if failures > 0 {
        let fewer = (failures - 1) as nat;
        assert(fewer * retry_delay + retry_delay == failures * retry_delay) by (nonlinear_arith)
            requires
                fewer + 1 == failures,
        ;
        assert(fewer * retry_delay >= 0) by (nonlinear_arith);
        law_eleventh_failure_drops(now, fewer, retry_delay);
    } else {
        assert(failures * retry_delay == 0) by (nonlinear_arith)
            requires
                failures == 0,
        ;
    }
}

/// In the queue: after a failed attempt the held task is still there, below
/// the ceiling, and gone at the ceiling; after a delivery it is gone. No
/// other task is touched but those that the sweep drops.
pub proof fn law_completion_in_queue(queue: QueueView, k: Key, sent: bool, retry_delay: u64)
    requires
        is_held(queue, k),
    ensures
        complete_spec(queue, k, sent, retry_delay).contains_key(k) <==> !sent && queue[k].retry_count < MAX_RETRIES,
        !sent && queue[k].retry_count < MAX_RETRIES ==> complete_spec(queue, k, sent, retry_delay)[k] == (TaskState {
            retry_count: (queue[k].retry_count + 1) as u32,
            not_before: later(queue[k].not_before, retry_delay),
            claimed: false,
        }),
        forall|other: Key|
            other != k ==> (#[trigger] complete_spec(queue, k, sent, retry_delay).contains_key(other)
                <==> queue.contains_key(other) && !swept(queue[other])),
        forall|other: Key|
            other != k && #[trigger] complete_spec(queue, k, sent, retry_delay).contains_key(other)
                ==> complete_spec(queue, k, sent, retry_delay)[other] == queue[other],
{
    let settled = settle_in_queue(queue, k, sent, retry_delay);
    assert forall|other: Key| other != k implies (#[trigger] complete_spec(
        queue,
        k,
        sent,
        retry_delay,
    ).contains_key(other) <==> queue.contains_key(other) && !swept(queue[other])) by {
        assert(settled.contains_key(other) <==> queue.contains_key(other));
        if queue.contains_key(other) {
            assert(settled[other] == queue[other]);
        }
    }
}

} // verus!
