//! Retries are bounded: what holds of a task whose delivery keeps failing.

use vstd::prelude::*;
use crate::claims::lemma_dequeue_one;
use crate::gateway::SendError;
use crate::ids::{IssueId, SubscriberId};
use crate::queue::{
    claimable, holds_claim, same_key, DeliveryTask, Disposition, QueueError, QueueView, TaskRow,
    TaskStatus,
};
use crate::seqs::lemma_first_index;
use crate::worker::{after_failure, WorkerState};

verus! {

/// The row after `n` attempts that all failed transiently. A row that is
/// marked failed gets no further attempt.
pub open spec fn after_transient_failures(q: QueueView, row: TaskRow, n: nat) -> TaskRow
    decreases n,
{
    if n == 0 {
        row
    } else {
        let before = after_transient_failures(q, row, (n - 1) as nat);
        if before.status == TaskStatus::Pending {
            q.failed_row(before, SendError::Transient)
        } else {
            before
        }
    }
}

/// The attempts made on the row when the gateway was to be called `n` times
/// and failed transiently each time.
pub open spec fn attempts_made(q: QueueView, row: TaskRow, n: nat) -> nat
    decreases n,
{
    if n == 0 {
        0
    } else if after_transient_failures(q, row, (n - 1) as nat).status == TaskStatus::Pending {
        attempts_made(q, row, (n - 1) as nat) + 1
    } else {
        attempts_made(q, row, (n - 1) as nat)
    }
}

/// The retry bound. A pending row with `retry_count` retries behind it, whose
/// attempts all fail transiently, is released for another attempt as long as
/// retries are left, each time with one retry more on its count. The failure
/// that finds the retries used up marks it failed, and no attempt follows. So
/// a new row is retried exactly `retry_limit` times.
pub proof fn lemma_retry_bound(q: QueueView, row: TaskRow, n: nat)
    requires
        row.status == TaskStatus::Pending,
        row.retry_count <= q.retry_limit,
    ensures
        ({
            let left = q.retry_limit - row.retry_count;
            let after = after_transient_failures(q, row, n);
            &&& same_key(after, row.issue_id, row.subscriber_id)
            &&& n <= left ==> {
                &&& after.status == TaskStatus::Pending
                &&& after.retry_count == row.retry_count + n
                &&& after.claimed_until is None || n == 0
                &&& attempts_made(q, row, n) == n
            }
            &&& n > left ==> {
                &&& after.status == TaskStatus::Failed
                &&& after.retry_count == q.retry_limit
                &&& after.last_error == Some(SendError::Transient)
                &&& attempts_made(q, row, n) == left + 1
            }
        }),
    decreases n,
{
    if n > 0 {
        lemma_retry_bound(q, row, (n - 1) as nat);
    }
}

/// Some row of this issue and subscriber is marked failed.
pub open spec fn is_failed(q: QueueView, issue_id: IssueId, subscriber_id: SubscriberId) -> bool {
    exists|i: int|
        0 <= i < q.rows.len() && same_key(#[trigger] q.rows[i], issue_id, subscriber_id)
            && q.rows[i].status == TaskStatus::Failed
}

/// A failed task is never retried. Whatever is done to the queue, a row that is
/// marked failed stays so, and `dequeue_one` hands out no task for it.
pub proof fn lemma_failed_is_final(
    q: QueueView,
    issue_id: IssueId,
    subscriber_id: SubscriberId,
    now: u64,
    task: DeliveryTask,
    error: SendError,
    other_issue: IssueId,
    ids: Seq<SubscriberId>,
)
    requires
        q.wf(),
        is_failed(q, issue_id, subscriber_id),
    ensures
        is_failed(q.dequeue_one(now).0, issue_id, subscriber_id),
        q.dequeue_one(now).1 matches Some(handed) ==> !(handed.issue_id == issue_id
            && handed.subscriber_id == subscriber_id),
        is_failed(q.complete(task).0, issue_id, subscriber_id),
        is_failed(q.fail(task, error).0, issue_id, subscriber_id),
        is_failed(q.enqueue_many(other_issue, ids), issue_id, subscriber_id),
{
    let m = choose|i: int|
        0 <= i < q.rows.len() && same_key(#[trigger] q.rows[i], issue_id, subscriber_id)
            && q.rows[i].status == TaskStatus::Failed;
    // dequeue_one
    lemma_dequeue_one(q, now);
    let (dequeued, answer) = q.dequeue_one(now);
    match answer {
        Some(handed) => {
            let i = q.next_claim(now).unwrap();
            lemma_first_index(q.rows, |row: TaskRow| claimable(row, now), 0);
            assert(i != m);
            assert(dequeued.rows[m] == q.rows[m]);
            if i < m {
                assert(!same_key(q.rows[i], q.rows[m].issue_id, q.rows[m].subscriber_id));
            } else {
                assert(!same_key(q.rows[m], q.rows[i].issue_id, q.rows[i].subscriber_id));
            }
        },
        None => {},
    }
    // complete and fail
    lemma_first_index(q.rows, |row: TaskRow| holds_claim(row, task), 0);
    match q.claim_index(task) {
        Some(i) => {
            assert(i != m);
            let completed = q.complete(task).0;
            if m < i {
                assert(completed.rows[m] == q.rows[m]);
            } else {
                assert(completed.rows[m - 1] == q.rows[m]);
            }
            let failed = q.fail(task, error).0;
            assert(failed.rows[m] == q.rows[m]);
        },
        None => {},
    }
    // enqueue_many
    let grown = q.enqueue_many(other_issue, ids);
    assert(grown.rows[m] == q.rows[m]);
}

/// The worker and the queue agree on a failed send. For a task whose claim the
/// queue still holds, the worker awaits a retry exactly if the queue releases
/// the row, and takes the task for failed exactly if the queue marks it so.
pub proof fn lemma_worker_agrees_with_queue(q: QueueView, task: DeliveryTask, error: SendError)
    requires
        q.claim_index(task) is Some,
    ensures
        q.fail(task, error).1 == Ok::<Disposition, QueueError>(Disposition::Retry)
            <==> after_failure(q.retry_limit, task, error).0 == WorkerState::RetryPending(task),
        q.fail(task, error).1 == Ok::<Disposition, QueueError>(Disposition::Failed)
            <==> after_failure(q.retry_limit, task, error).0 == WorkerState::Failed(task),
        ({
            let i = q.claim_index(task).unwrap();
            &&& 0 <= i < q.rows.len()
            &&& holds_claim(q.rows[i], task)
            &&& q.fail(task, error).0.rows == q.rows.update(i, q.failed_row(q.rows[i], error))
        }),
{
    lemma_first_index(q.rows, |row: TaskRow| holds_claim(row, task), 0);
}

} // verus!
