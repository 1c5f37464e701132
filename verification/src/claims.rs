//! Claims are exclusive: what holds of the tasks that the queue hands out to
//! any number of workers, in whatever order their calls arrive.

use vstd::prelude::*;
use crate::queue::{
    claimable, lemma_update_keeps_keys, same_key, DeliveryTask, QueueView, TaskRow,
    };
use crate::seqs::lemma_first_index;

verus! {

/// The claim `later` is not older than the claim `earlier`.
pub open spec fn not_before(later: Option<u64>, earlier: Option<u64>) -> bool {
    match earlier {
        None => true,
        Some(e) => later matches Some(l) && l >= e,
    }
}

/// The task that stands for a claim on `row` that lasts through `until`.
pub open spec fn task_of(row: TaskRow, until: u64) -> DeliveryTask {
    DeliveryTask {
        issue_id: row.issue_id,
        subscriber_id: row.subscriber_id,
        retry_count: row.retry_count,
        claimed_until: until,
    }
}

/// `dequeue_one`, spelled out. With an answer, the row claimed is the first
/// that could be claimed, it now carries the new lease, and no other row
/// changed. Without one, no row could be claimed and the queue is as it was.
pub proof fn lemma_dequeue_one(q: QueueView, now: u64)
    requires
        q.wf(),
    ensures
        ({
            let (after, answer) = q.dequeue_one(now);
            &&& after.wf()
            &&& after.rows.len() == q.rows.len()
            &&& after == q.with_rows(after.rows)
            &&& q.lease_end(now) >= now
            &&& match answer {
                Some(task) => exists|i: int|
                    {
                        &&& 0 <= i < q.rows.len()
                        &&& claimable(#[trigger] q.rows[i], now)
                        &&& forall|j: int| 0 <= j < i ==> !claimable(#[trigger] q.rows[j], now)
                        &&& task == task_of(q.rows[i], q.lease_end(now))
                        &&& after.rows == q.rows.update(
                            i,
                            TaskRow { claimed_until: Some(q.lease_end(now)), ..q.rows[i] },
                        )
                    },
                None => after == q && forall|i: int|
                    0 <= i < q.rows.len() ==> !claimable(#[trigger] q.rows[i], now),
            }
        }),
{
    let p = |row: TaskRow| claimable(row, now);
    lemma_first_index(q.rows, p, 0);
    match q.next_claim(now) {
        Some(i) => {
            let row = TaskRow { claimed_until: Some(q.lease_end(now)), ..q.rows[i] };
            lemma_update_keeps_keys(q.rows, i, row);
            assert(claimable(q.rows[i], now));
        },
        None => {},
    }
}

/// The queue after a run of calls of `dequeue_one`, one at each of `times`, in
/// this order.
pub open spec fn after_calls(q: QueueView, times: Seq<u64>) -> QueueView
    decreases times.len(),
{
    if times.len() == 0 {
        q
    } else {
        after_calls(q, times.drop_last()).dequeue_one(times.last()).0
    }
}

/// What the call at `times[k]` of such a run answers.
pub open spec fn answer(q: QueueView, times: Seq<u64>, k: int) -> Option<DeliveryTask> {
    after_calls(q, times.take(k)).dequeue_one(times[k]).1
}

/// A run of calls changes no row but in its lease, and no lease to an earlier
/// end. A row whose lease it did not change was handed out by none of the
/// calls; one whose lease it changed was handed out by one of them.
pub proof fn lemma_calls_only_renew(q: QueueView, times: Seq<u64>)
    requires
        q.wf(),
    ensures
        ({
            let after = after_calls(q, times);
            &&& after.wf()
            &&& after.rows.len() == q.rows.len()
            &&& after == q.with_rows(after.rows)
            &&& forall|m: int|
                #![trigger after.rows[m]]
                0 <= m < q.rows.len() ==> {
                    &&& after.rows[m] == TaskRow { claimed_until: after.rows[m].claimed_until, ..q.rows[m] }
                    &&& not_before(after.rows[m].claimed_until, q.rows[m].claimed_until)
                    &&& after.rows[m] != q.rows[m] ==> exists|k: int|
                        0 <= k < times.len() && #[trigger] answer(q, times, k) == Some(
                            task_of(q.rows[m], q.lease_end(times[k])),
                        )
                }
        }),
    decreases times.len(),
{
    if times.len() > 0 {
        let head = times.drop_last();
        let now = times.last();
        let mid = after_calls(q, head);
        lemma_calls_only_renew(q, head);
        lemma_dequeue_one(mid, now);
        let after = after_calls(q, times);
        assert(times.take(times.len() - 1) =~= head);
        assert forall|m: int| 0 <= m < q.rows.len() implies {
            &&& (#[trigger] after.rows[m]) == TaskRow { claimed_until: after.rows[m].claimed_until, ..q.rows[m] }
            &&& not_before(after.rows[m].claimed_until, q.rows[m].claimed_until)
            &&& after.rows[m] != q.rows[m] ==> exists|k: int|
                0 <= k < times.len() && #[trigger] answer(q, times, k) == Some(
                    task_of(q.rows[m], q.lease_end(times[k])),
                )
        } by {
            let _ = mid.rows[m];
            if after.rows[m] != q.rows[m] {
                if after.rows[m] != mid.rows[m] {
                    assert(answer(q, times, times.len() - 1) == Some(
                        task_of(q.rows[m], q.lease_end(times[times.len() - 1])),
                    ));
                } else {
                    let k = choose|k: int|
                        0 <= k < head.len() && #[trigger] answer(q, head, k) == Some(
                            task_of(q.rows[m], q.lease_end(head[k])),
                        );
                    assert(head.take(k) =~= times.take(k));
                    assert(answer(q, times, k) == answer(q, head, k));
                }
            }
        }
    }
}

/// No two calls hand out the same task while the claim of the first lasts:
/// where the later of two calls comes no later than the end of the lease that
/// the earlier one gave, their tasks are for different rows.
pub proof fn lemma_claims_are_exclusive(q: QueueView, times: Seq<u64>, first: int, second: int)
    requires
        q.wf(),
        0 <= first < second < times.len(),
        answer(q, times, first) is Some,
        answer(q, times, second) is Some,
        times[second] <= answer(q, times, first).unwrap().claimed_until,
    ensures
        !({
            &&& answer(q, times, first).unwrap().issue_id == answer(q, times, second).unwrap().issue_id
            &&& answer(q, times, first).unwrap().subscriber_id == answer(
                q,
                times,
                second,
            ).unwrap().subscriber_id
        }),
{
    let a = answer(q, times, first).unwrap();
    let b = answer(q, times, second).unwrap();
    let before_first = after_calls(q, times.take(first));
    let after_first = before_first.dequeue_one(times[first]).0;
    let before_second = after_calls(q, times.take(second));
    lemma_calls_only_renew(q, times.take(first));
    lemma_dequeue_one(before_first, times[first]);
    // The calls between the two start from the queue that the first one left.
    let between = times.subrange(first + 1, second);
    lemma_calls_compose(q, times.take(first + 1), between);
    assert(times.take(first + 1) + between =~= times.take(second));
    assert(times.take(first + 1).drop_last() =~= times.take(first));
    assert(after_calls(q, times.take(first + 1)) == after_first);
    lemma_calls_only_renew(after_first, between);
    lemma_dequeue_one(before_second, times[second]);
    let i = choose|i: int|
        {
            &&& 0 <= i < before_first.rows.len()
            &&& claimable(#[trigger] before_first.rows[i], times[first])
            &&& forall|j: int| 0 <= j < i ==> !claimable(#[trigger] before_first.rows[j], times[first])
            &&& a == task_of(before_first.rows[i], before_first.lease_end(times[first]))
            &&& after_first.rows == before_first.rows.update(
                i,
                TaskRow {
                    claimed_until: Some(before_first.lease_end(times[first])),
                    ..before_first.rows[i]
                },
            )
        };
    let j = choose|j: int|
        {
            &&& 0 <= j < before_second.rows.len()
            &&& claimable(#[trigger] before_second.rows[j], times[second])
            &&& forall|k: int| 0 <= k < j ==> !claimable(#[trigger] before_second.rows[k], times[second])
            &&& b == task_of(before_second.rows[j], before_second.lease_end(times[second]))
            &&& before_second.dequeue_one(times[second]).0.rows == before_second.rows.update(
                j,
                TaskRow {
                    claimed_until: Some(before_second.lease_end(times[second])),
                    ..before_second.rows[j]
                },
            )
        };
    let _ = before_second.rows[i];
    let _ = before_second.rows[j];
    let _ = after_first.rows[i];
    let _ = after_first.rows[j];
    if i == j {
        assert(not_before(before_second.rows[i].claimed_until, after_first.rows[i].claimed_until));
        assert(false);
    } else {
        if i < j {
            assert(!same_key(before_second.rows[i], before_second.rows[j].issue_id, before_second.rows[j].subscriber_id));
        } else {
            assert(!same_key(before_second.rows[j], before_second.rows[i].issue_id, before_second.rows[i].subscriber_id));
        }
    }
}

/// A run of calls followed by another is the run of all of them.
pub proof fn lemma_calls_compose(q: QueueView, first: Seq<u64>, then: Seq<u64>)
    ensures
        after_calls(q, first + then) == after_calls(after_calls(q, first), then),
    decreases then.len(),
{
    if then.len() == 0 {
        assert(first + then =~= first);
    } else {
        lemma_calls_compose(q, first, then.drop_last());
        assert((first + then).drop_last() =~= first + then.drop_last());
    }
}

/// The workers get all there is: when a call finds nothing to claim at its
/// instant, every row that was pending at the outset, and free or under a
/// claim that ended before that instant, was handed out by an earlier call.
pub proof fn lemma_claims_are_complete(q: QueueView, times: Seq<u64>, last: int, row: int)
    requires
        q.wf(),
        0 <= last < times.len(),
        answer(q, times, last) is None,
        0 <= row < q.rows.len(),
        claimable(q.rows[row], times[last]),
    ensures
        exists|k: int|
            0 <= k < last && #[trigger] answer(q, times, k) == Some(
                task_of(q.rows[row], q.lease_end(times[k])),
            ),
{
    let head = times.take(last);
    let before = after_calls(q, head);
    lemma_calls_only_renew(q, head);
    lemma_dequeue_one(before, times[last]);
    let _ = before.rows[row];
    assert(!claimable(before.rows[row], times[last]));
    assert(before.rows[row] != q.rows[row]);
    let k = choose|k: int|
        0 <= k < head.len() && #[trigger] answer(q, head, k) == Some(
            task_of(q.rows[row], q.lease_end(head[k])),
        );
    assert(head.take(k) =~= times.take(k));
    assert(answer(q, times, k) == answer(q, head, k));
}

} // verus!
