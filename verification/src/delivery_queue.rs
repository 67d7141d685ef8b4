//! The delivery queue: one task per (issue, recipient) whose delivery has
//! neither succeeded nor been given up, with its count of failed attempts
//! and the time before which it is not to be tried again.
//!
//! A worker claims a task before it attempts it. A claimed task is handed to
//! no other claimant until it is settled or released.

use crate::domain::{confirmed_addresses, lemma_confirmed_addresses_step, Subscriber, SubscriptionStatus};
use crate::table::{Key, Table};
use vstd::prelude::*;

verus! {

/// The number of failed attempts after which a further failure drops the
/// task.
pub const MAX_RETRIES: u32 = 10;

/// What the queue keeps of a task besides its key.
#[derive(Debug, Clone, Copy, PartialEq, Eq, Structural)]
pub struct TaskState {
    /// How many attempts have failed.
    pub retry_count: u32,
    /// The task is not to be attempted before this time.
    pub not_before: u64,
    /// A worker holds the task.
    pub claimed: bool,
}

/// The queue as contracts see it: the tasks by (issue, recipient).
pub type QueueView = Map<Key, TaskState>;

/// A task as handed to the worker that claimed it.
#[derive(Debug, Clone, PartialEq, Eq)]
pub struct DeliveryTask {
    pub newsletter_issue_id: u128,
    pub subscriber_email: String,
    pub retry_count: u32,
    pub not_before: u64,
}

impl DeliveryTask {
    /// The task's key in the queue.
    pub open spec fn key(&self) -> Key {
        (self.newsletter_issue_id, self.subscriber_email@)
    }
}

/// A task as it is when created at time `now`.
pub open spec fn fresh_task(now: u64) -> TaskState {
    TaskState { retry_count: 0, not_before: now, claimed: false }
}

/// The task `k` can be claimed at time `now`: it is in the queue, due, and
/// held by nobody.
pub open spec fn claimable(queue: QueueView, now: u64, k: Key) -> bool {
    queue.contains_key(k) && !queue[k].claimed && queue[k].not_before <= now
}

/// The task with a worker holding it.
pub open spec fn held(task: TaskState) -> TaskState {
    TaskState { claimed: true, ..task }
}

/// The task with nobody holding it.
pub open spec fn let_go(task: TaskState) -> TaskState {
    TaskState { claimed: false, ..task }
}

/// The time `delay` after `time`, or the end of the clock where that lies
/// beyond it.
pub open spec fn later(time: u64, delay: u64) -> u64 {
    if time + delay <= u64::MAX {
        (time + delay) as u64
    } else {
        u64::MAX
    }
}

/// What becomes of a task after an attempt: `None` where it leaves the
/// queue, else its new state.
///
/// A delivered task leaves. A failed one is tried again later, with one more
/// failure on its count, unless its count has reached the ceiling: then it
/// leaves too.
pub open spec fn settle_spec(task: TaskState, sent: bool, retry_delay: u64) -> Option<TaskState> {
    if sent || task.retry_count >= MAX_RETRIES {
        None
    } else {
        Some(
            TaskState {
                retry_count: (task.retry_count + 1) as u32,
                not_before: later(task.not_before, retry_delay),
                claimed: false,
            },
        )
    }
}

/// The queue after the holder of task `k` has settled it. Where nobody
/// holds `k`, nothing changes.
pub open spec fn settle_in_queue(queue: QueueView, k: Key, sent: bool, retry_delay: u64) -> QueueView {
    if queue.contains_key(k) && queue[k].claimed {
        match settle_spec(queue[k], sent, retry_delay) {
            Some(next) => queue.insert(k, next),
            None => queue.remove(k),
        }
    } else {
        queue
    }
}

/// What the sweep drops: a task whose count is over the ceiling and that nobody
/// holds.
pub open spec fn swept(task: TaskState) -> bool {
    task.retry_count > MAX_RETRIES && !task.claimed
}

/// The queue after the sweep.
pub open spec fn purge_spec(queue: QueueView) -> QueueView {
    Map::new(|k: Key| queue.contains_key(k) && !swept(queue[k]), |k: Key| queue[k])
}

/// The queue after one task per address of `recipients` was created for
/// `issue_id` at time `now`. A task that exists already stays as it is.
pub open spec fn enqueue_spec(queue: QueueView, issue_id: u128, recipients: Set<Seq<char>>, now: u64) -> QueueView {
    Map::new(
        |k: Key| queue.contains_key(k) || (k.0 == issue_id && recipients.contains(k.1)),
        |k: Key|
            if queue.contains_key(k) {
                queue[k]
            } else {
                fresh_task(now)
            },
    )
}

/// The time `delay` after `time`, held at the end of the clock.
pub fn later_time(time: u64, delay: u64) -> (t: u64)
    ensures
        t == later(time, delay),
{
    if time <= u64::MAX - delay {
        time + delay
    } else {
        u64::MAX
    }
}

/// Decides what becomes of a task after an attempt: retry or drop, never
/// both.
pub fn settle(task: TaskState, sent: bool, retry_delay: u64) -> (next: Option<TaskState>)
    ensures
        next == settle_spec(task, sent, retry_delay),
{
    if sent || task.retry_count >= MAX_RETRIES {
        None
    } else {
        Some(
            TaskState {
                retry_count: task.retry_count + 1,
                not_before: later_time(task.not_before, retry_delay),
                claimed: false,
            },
        )
    }
}

/// The pending delivery tasks.
pub struct DeliveryQueue {
    tasks: Table<TaskState>,
}

impl View for DeliveryQueue {
    type V = QueueView;

    closed spec fn view(&self) -> QueueView {
        self.tasks@
    }
}

impl DeliveryQueue {
    /// No (issue, recipient) is held twice.
    pub closed spec fn wf(&self) -> bool {
        self.tasks.wf()
    }

    /// An empty queue.
    pub fn new() -> (queue: DeliveryQueue)
        ensures
            queue.wf(),
            queue@ == Map::<Key, TaskState>::empty(),
    {
        DeliveryQueue { tasks: Table::new() }
    }

    /// The number of tasks.
    pub fn len(&self) -> (n: usize)
        requires
            self.wf(),
        ensures
            self@.dom().finite(),
            n == self@.dom().len(),
    {
        self.tasks.len()
    }

    /// The state of the task for `(issue_id, email)`, if the queue holds it.
    pub fn task(&self, issue_id: u128, email: &str) -> (r: Option<TaskState>)
        requires
            self.wf(),
        ensures
            match r {
                Some(state) => self@.contains_key((issue_id, email@)) && self@[(issue_id, email@)] == state,
                None => !self@.contains_key((issue_id, email@)),
            },
    {
        let name = email.to_owned();
        match self.tasks.position(issue_id, &name) {
            Some(i) => Some(self.tasks.row(i).value),
            None => None,
        }
    }

    /// Puts the task for `(issue_id, email)` into the queue in the given
    /// state, as when a stored queue is loaded. A task that is there already
    /// takes the state.
    pub fn insert_task(&mut self, issue_id: u128, email: &str, state: TaskState)
        requires
            old(self).wf(),
        ensures
            final(self).wf(),
            final(self)@ == old(self)@.insert((issue_id, email@), state),
    {
        let _ = self.tasks.insert(issue_id, email.to_owned(), state);
    }

    /// Creates one task for `issue_id` per confirmed subscriber, due at
    /// `now` and with no failure on its count. A subscriber whose task exists
    /// already gets no second one.
    pub fn enqueue_delivery_task(&mut self, issue_id: u128, subscribers: &Vec<Subscriber>, now: u64)
        requires
            old(self).wf(),
        ensures
            final(self).wf(),
            final(self)@ == enqueue_spec(old(self)@, issue_id, confirmed_addresses(subscribers@), now),
    {
        let ghost before = self@;
        let mut i: usize = 0;
        proof {
            assert(confirmed_addresses(subscribers@.subrange(0, 0)) =~= Set::<Seq<char>>::empty());
            assert(self@ =~= enqueue_spec(before, issue_id, confirmed_addresses(subscribers@.subrange(0, 0)), now));
        }
        while i < subscribers.len()
            invariant
                i <= subscribers@.len(),
                self.wf(),
                self@ == enqueue_spec(before, issue_id, confirmed_addresses(subscribers@.subrange(0, i as int)), now),
            decreases subscribers@.len() - i,
        {
            proof {
                lemma_confirmed_addresses_step(subscribers@, i as int);
            }
            let ghost so_far = self@;
            let confirmed = match subscribers[i].status {
                SubscriptionStatus::Confirmed => true,
                SubscriptionStatus::PendingConfirmation => false,
            };
            if confirmed {
                let name = subscribers[i].email.clone();
                if self.tasks.position(issue_id, &name).is_none() {
                    let _ = self.tasks.insert(
                        issue_id,
                        name,
                        TaskState { retry_count: 0, not_before: now, claimed: false },
                    );
                }
            }
            i += 1;
            assert(self@ =~= enqueue_spec(
                before,
                issue_id,
                confirmed_addresses(subscribers@.subrange(0, i as int)),
                now,
            ));
        }
        assert(subscribers@.subrange(0, subscribers@.len() as int) =~= subscribers@);
    }

    /// Claims one task that is due at `now` and held by nobody, and hands it
    /// out. Where there is none, nothing changes.
    pub fn dequeue_task(&mut self, now: u64) -> (r: Option<DeliveryTask>)
        requires
            old(self).wf(),
        ensures
            final(self).wf(),
            match r {
                Some(task) => claimable(old(self)@, now, task.key()) && final(self)@ == old(self)@.insert(
                    task.key(),
                    held(old(self)@[task.key()]),
                ) && task.retry_count == old(self)@[task.key()].retry_count && task.not_before == old(
                    self,
                )@[task.key()].not_before,
                None => final(self)@ == old(self)@ && forall|k: Key| !claimable(old(self)@, now, k),
            },
    {
        let ghost rows = self.tasks.entries();
        let n = self.tasks.len();
        let mut i: usize = 0;
        while i < n
            invariant
                i <= n,
                n == rows.len(),
                self.wf(),
                self@ == old(self)@,
                self.tasks.entries() == rows,
                forall|j: int| 0 <= j < i ==> (#[trigger] rows[j]).1.claimed || rows[j].1.not_before > now,
            decreases n - i,
        {
            let row = self.tasks.row(i);
            let state = row.value;
            if !state.claimed && state.not_before <= now {
                let task = DeliveryTask {
                    newsletter_issue_id: row.id,
                    subscriber_email: row.name.clone(),
                    retry_count: state.retry_count,
                    not_before: state.not_before,
                };
                let _ = self.tasks.replace(i, TaskState { claimed: true, ..state });
                return Some(task);
            }
            i += 1;
        }
        proof {
            self.tasks.lemma_rows_and_map();
            assert forall|k: Key| !claimable(old(self)@, now, k) by {
                if old(self)@.contains_key(k) {
                    let j = choose|j: int| 0 <= j < rows.len() && #[trigger] rows[j] == (k, self@[k]);
                    assert(rows[j].1.claimed || rows[j].1.not_before > now);
                }
            }
        }
        None
    }

    /// Removes the task for `(issue_id, email)`, whoever holds it.
    pub fn delete_task(&mut self, issue_id: u128, email: &String)
        requires
            old(self).wf(),
        ensures
            final(self).wf(),
            final(self)@ == old(self)@.remove((issue_id, email@)),
    {
        match self.tasks.position(issue_id, email) {
            Some(i) => {
                let _ = self.tasks.remove(i);
            },
            None => {
                assert(self@ =~= old(self)@.remove((issue_id, email@)));
            },
        }
    }

    /// Lets the claimed task for `(issue_id, email)` go, unchanged, so that
    /// it can be claimed again.
    pub fn release_task(&mut self, issue_id: u128, email: &String)
        requires
            old(self).wf(),
        ensures
            final(self).wf(),
            final(self)@ == if old(self)@.contains_key((issue_id, email@)) {
                old(self)@.insert((issue_id, email@), let_go(old(self)@[(issue_id, email@)]))
            } else {
                old(self)@
            },
    {
        match self.tasks.position(issue_id, email) {
            Some(i) => {
                let state = self.tasks.row(i).value;
                let _ = self.tasks.replace(i, TaskState { claimed: false, ..state });
            },
            None => {},
        }
    }

    /// Settles the claimed task for `(issue_id, email)` after an attempt:
    /// delivered, it leaves the queue; failed, it is rescheduled or, at the
    /// ceiling, dropped. It says whether the task was there and claimed;
    /// where it was not, nothing changes.
    pub fn settle_task(&mut self, issue_id: u128, email: &String, sent: bool, retry_delay: u64) -> (was_held: bool)
        requires
            old(self).wf(),
        ensures
            final(self).wf(),
            was_held == (old(self)@.contains_key((issue_id, email@)) && old(self)@[(issue_id, email@)].claimed),
            final(self)@ == settle_in_queue(old(self)@, (issue_id, email@), sent, retry_delay),
    {
        match self.tasks.position(issue_id, email) {
            Some(i) => {
                let state = self.tasks.row(i).value;
                if !state.claimed {
                    return false;
                }
                match settle(state, sent, retry_delay) {
                    Some(next) => {
                        let _ = self.tasks.replace(i, next);
                    },
                    None => {
                        let _ = self.tasks.remove(i);
                    },
                }
                true
            },
            None => false,
        }
    }

    /// The sweep: removes every task whose count of failures is over the
    /// ceiling and that nobody holds.
    pub fn remove_non_complete_tasks(&mut self)
        requires
            old(self).wf(),
        ensures
            final(self).wf(),
            final(self)@ == purge_spec(old(self)@),
    {
        let ghost before = self@;
        let mut i: usize = 0;
        while i < self.tasks.len()
            invariant
                self.wf(),
                i <= self.tasks.entries().len(),
                forall|k: Key| #[trigger] self@.contains_key(k) ==> before.contains_key(k) && self@[k] == before[k],
                forall|k: Key| before.contains_key(k) && !swept(before[k]) ==> #[trigger] self@.contains_key(k),
                forall|j: int| 0 <= j < i ==> !swept((#[trigger] self.tasks.entries()[j]).1),
            decreases self.tasks.entries().len() - i,
        {
            let state = self.tasks.row(i).value;
            if state.retry_count > MAX_RETRIES && !state.claimed {
                let ghost rows = self.tasks.entries();
                let ghost current = self@;
                let ghost gone = rows[i as int].0;
                assert(current.contains_key(gone) && current[gone] == state);
                let _ = self.tasks.remove(i);
                assert(self@ == current.remove(gone));
                assert forall|j: int| 0 <= j < i implies !swept((#[trigger] self.tasks.entries()[j]).1) by {
                    assert(self.tasks.entries()[j] == rows[j]);
                }
            } else {
                i += 1;
            }
        }
        proof {
            self.tasks.lemma_rows_and_map();
            assert forall|k: Key| #[trigger] self@.contains_key(k) implies !swept(self@[k]) by {
                let j = choose|j: int|
                    0 <= j < self.tasks.entries().len() && #[trigger] self.tasks.entries()[j] == (k, self@[k]);
                assert(!swept(self.tasks.entries()[j].1));
            }
            assert(self@ =~= purge_spec(before));
        }
    }
}

} // verus!
