use newsletter_backend::gateway::SendError;
use newsletter_backend::queue::{
    retries, DeliveryQueue, DeliveryTask, Disposition, QueueError, TaskRow, TaskStatus,
    DEFAULT_LEASE_SECS, DEFAULT_RETRY_LIMIT,
};

fn pending(issue_id: u64, subscriber_id: u128) -> TaskRow {
    TaskRow {
        issue_id,
        subscriber_id,
        retry_count: 0,
        status: TaskStatus::Pending,
        claimed_until: None,
        last_error: None,
    }
}

#[test]
fn the_default_policy() {
    let queue = DeliveryQueue::new();
    assert_eq!(DEFAULT_RETRY_LIMIT, 3);
    assert_eq!(DEFAULT_LEASE_SECS, 300);
    assert_eq!(queue.retry_limit(), 3);
    assert_eq!(queue.lease_secs(), 300);
    assert_eq!(queue.len(), 0);
}

#[test]
fn enqueue_many_adds_one_pending_row_each() {
    let mut queue = DeliveryQueue::new();
    assert_eq!(queue.enqueue_many(4, &vec![7, 8, 9]), Ok(()));
    assert_eq!(queue.rows(), &vec![pending(4, 7), pending(4, 8), pending(4, 9)]);
    assert_eq!(queue.count(TaskStatus::Pending), 3);
    assert_eq!(queue.count(TaskStatus::Failed), 0);
}

#[test]
fn enqueue_many_of_nothing_changes_nothing() {
    let mut queue = DeliveryQueue::new();
    assert_eq!(queue.enqueue_many(4, &Vec::new()), Ok(()));
    assert_eq!(queue.len(), 0);
}

#[test]
fn enqueue_many_rejects_a_subscriber_named_twice() {
    let mut queue = DeliveryQueue::new();
    queue.enqueue_many(1, &vec![1]).unwrap();
    assert_eq!(queue.enqueue_many(2, &vec![5, 6, 5]), Err(QueueError::DuplicateTask));
    assert_eq!(queue.rows(), &vec![pending(1, 1)]);
}

#[test]
fn enqueue_many_rejects_a_row_that_exists() {
    let mut queue = DeliveryQueue::new();
    queue.enqueue_many(1, &vec![1, 2]).unwrap();
    assert_eq!(queue.enqueue_many(1, &vec![3, 2]), Err(QueueError::DuplicateTask));
    assert_eq!(queue.rows(), &vec![pending(1, 1), pending(1, 2)]);
    // The same subscriber under another issue is another row.
    assert_eq!(queue.enqueue_many(2, &vec![2]), Ok(()));
    assert_eq!(queue.len(), 3);
}

#[test]
fn contains_tells_the_rows() {
    let mut queue = DeliveryQueue::new();
    queue.enqueue_many(1, &vec![10]).unwrap();
    assert!(queue.contains(1, 10));
    assert!(!queue.contains(1, 11));
    assert!(!queue.contains(2, 10));
}

#[test]
fn dequeue_one_claims_the_first_free_row() {
    let mut queue = DeliveryQueue::with_policy(3, 60);
    queue.enqueue_many(0, &vec![1, 2]).unwrap();
    let task = queue.dequeue_one(1000);
    assert_eq!(
        task,
        Some(DeliveryTask { issue_id: 0, subscriber_id: 1, retry_count: 0, claimed_until: 1060 })
    );
    assert_eq!(queue.rows()[0].claimed_until, Some(1060));
    assert_eq!(queue.rows()[1].claimed_until, None);
    assert_eq!(queue.len(), 2);
}

#[test]
fn dequeue_one_on_an_empty_queue() {
    let mut queue = DeliveryQueue::new();
    assert_eq!(queue.dequeue_one(0), None);
    assert_eq!(queue.dequeue_one(u64::MAX), None);
}

#[test]
fn workers_never_get_the_same_task() {
    let mut queue = DeliveryQueue::with_policy(3, 60);
    queue.enqueue_many(0, &vec![1, 2, 3, 4, 5]).unwrap();
    // Three workers take turns in some order, at clock readings within the lease.
    let times = [100, 100, 101, 130, 160, 160, 160];
    let mut handed: Vec<(u64, u128)> = Vec::new();
    let mut misses = 0;
    for now in times {
        match queue.dequeue_one(now) {
            Some(task) => handed.push((task.issue_id, task.subscriber_id)),
            None => misses += 1,
        }
    }
    assert_eq!(handed, vec![(0, 1), (0, 2), (0, 3), (0, 4), (0, 5)]);
    assert_eq!(misses, 2);
}

#[test]
fn a_claim_lasts_through_the_end_of_its_lease() {
    let mut queue = DeliveryQueue::with_policy(3, 60);
    queue.enqueue_many(0, &vec![1]).unwrap();
    let first = queue.dequeue_one(100).unwrap();
    assert_eq!(first.claimed_until, 160);
    assert_eq!(queue.dequeue_one(100), None);
    assert_eq!(queue.dequeue_one(159), None);
    assert_eq!(queue.dequeue_one(160), None);
    // The lease has run out: the row of a worker that died is claimed again.
    let second = queue.dequeue_one(161).unwrap();
    assert_eq!(
        second,
        DeliveryTask { issue_id: 0, subscriber_id: 1, retry_count: 0, claimed_until: 221 }
    );
}

#[test]
fn a_lease_of_no_seconds_holds_for_its_instant() {
    let mut queue = DeliveryQueue::with_policy(3, 0);
    queue.enqueue_many(0, &vec![1]).unwrap();
    assert_eq!(queue.dequeue_one(5).unwrap().claimed_until, 5);
    assert_eq!(queue.dequeue_one(5), None);
    assert!(queue.dequeue_one(6).is_some());
}

#[test]
fn the_end_of_a_lease_does_not_overflow() {
    let mut queue = DeliveryQueue::with_policy(3, 60);
    queue.enqueue_many(0, &vec![1, 2]).unwrap();
    assert_eq!(queue.dequeue_one(u64::MAX - 10).unwrap().claimed_until, u64::MAX);
    assert_eq!(queue.dequeue_one(u64::MAX).unwrap().claimed_until, u64::MAX);
    assert_eq!(queue.dequeue_one(u64::MAX), None);
}

#[test]
fn complete_deletes_the_row() {
    let mut queue = DeliveryQueue::with_policy(3, 60);
    queue.enqueue_many(0, &vec![1, 2, 3]).unwrap();
    let first = queue.dequeue_one(10).unwrap();
    let second = queue.dequeue_one(10).unwrap();
    assert_eq!(queue.complete(&second), Ok(()));
    assert_eq!(queue.len(), 2);
    assert!(!queue.contains(0, 2));
    assert_eq!(queue.complete(&first), Ok(()));
    assert_eq!(queue.rows(), &vec![pending(0, 3)]);
}

#[test]
fn complete_needs_the_claim() {
    let mut queue = DeliveryQueue::with_policy(3, 60);
    queue.enqueue_many(0, &vec![1]).unwrap();
    let forged = DeliveryTask { issue_id: 0, subscriber_id: 1, retry_count: 0, claimed_until: 70 };
    // Not claimed at all.
    assert_eq!(queue.complete(&forged), Err(QueueError::ClaimNotHeld));
    let task = queue.dequeue_one(10).unwrap();
    // Another lease, another subscriber, another issue, another count of retries.
    assert_eq!(
        queue.complete(&DeliveryTask { claimed_until: 71, ..task }),
        Err(QueueError::ClaimNotHeld)
    );
    assert_eq!(
        queue.complete(&DeliveryTask { subscriber_id: 2, ..task }),
        Err(QueueError::ClaimNotHeld)
    );
    assert_eq!(queue.complete(&DeliveryTask { issue_id: 1, ..task }), Err(QueueError::ClaimNotHeld));
    assert_eq!(
        queue.complete(&DeliveryTask { retry_count: 1, ..task }),
        Err(QueueError::ClaimNotHeld)
    );
    assert_eq!(queue.len(), 1);
    assert_eq!(queue.complete(&task), Ok(()));
    // The row is gone: the claim with it.
    assert_eq!(queue.complete(&task), Err(QueueError::ClaimNotHeld));
}

#[test]
fn a_claim_that_was_taken_over_is_lost() {
    let mut queue = DeliveryQueue::with_policy(3, 60);
    queue.enqueue_many(0, &vec![1]).unwrap();
    let stale = queue.dequeue_one(10).unwrap();
    let live = queue.dequeue_one(100).unwrap();
    assert_eq!(queue.complete(&stale), Err(QueueError::ClaimNotHeld));
    assert_eq!(queue.fail(&stale, SendError::Transient), Err(QueueError::ClaimNotHeld));
    assert_eq!(queue.complete(&live), Ok(()));
}

#[test]
fn a_transient_failure_releases_the_row_and_counts_the_retry() {
    let mut queue = DeliveryQueue::with_policy(2, 60);
    queue.enqueue_many(0, &vec![1]).unwrap();
    let task = queue.dequeue_one(10).unwrap();
    assert_eq!(queue.fail(&task, SendError::Transient), Ok(Disposition::Retry));
    assert_eq!(
        queue.rows(),
        &vec![TaskRow {
            issue_id: 0,
            subscriber_id: 1,
            retry_count: 1,
            status: TaskStatus::Pending,
            claimed_until: None,
            last_error: Some(SendError::Transient),
        }]
    );
    // Released: it can be claimed at once.
    let again = queue.dequeue_one(10).unwrap();
    assert_eq!(again.retry_count, 1);
}

#[test]
fn a_permanent_failure_marks_the_row_failed_at_once() {
    let mut queue = DeliveryQueue::with_policy(2, 60);
    queue.enqueue_many(0, &vec![1, 2]).unwrap();
    let task = queue.dequeue_one(10).unwrap();
    assert_eq!(queue.fail(&task, SendError::Permanent), Ok(Disposition::Failed));
    assert_eq!(
        queue.rows()[0],
        TaskRow {
            issue_id: 0,
            subscriber_id: 1,
            retry_count: 0,
            status: TaskStatus::Failed,
            claimed_until: None,
            last_error: Some(SendError::Permanent),
        }
    );
    assert_eq!(queue.count(TaskStatus::Failed), 1);
    assert_eq!(queue.count(TaskStatus::Pending), 1);
    // The other row is untouched and still to be had.
    assert_eq!(queue.dequeue_one(10).unwrap().subscriber_id, 2);
}

#[test]
fn transient_failures_are_retried_up_to_the_limit() {
    let limit = 3;
    let mut queue = DeliveryQueue::with_policy(limit, 60);
    queue.enqueue_many(0, &vec![1]).unwrap();
    let mut attempts = 0;
    let mut now = 0;
    while let Some(task) = queue.dequeue_one(now) {
        assert_eq!(task.retry_count, attempts);
        attempts += 1;
        let disposition = queue.fail(&task, SendError::Transient).unwrap();
        if attempts <= limit {
            assert_eq!(disposition, Disposition::Retry);
        } else {
            assert_eq!(disposition, Disposition::Failed);
        }
        now += 1000;
    }
    // One attempt and three retries.
    assert_eq!(attempts, limit + 1);
    assert_eq!(
        queue.rows(),
        &vec![TaskRow {
            issue_id: 0,
            subscriber_id: 1,
            retry_count: limit,
            status: TaskStatus::Failed,
            claimed_until: None,
            last_error: Some(SendError::Transient),
        }]
    );
    // Never again, however late.
    assert_eq!(queue.dequeue_one(u64::MAX), None);
}

#[test]
fn without_retries_the_first_failure_is_final() {
    let mut queue = DeliveryQueue::with_policy(0, 60);
    queue.enqueue_many(0, &vec![1]).unwrap();
    let task = queue.dequeue_one(0).unwrap();
    assert_eq!(queue.fail(&task, SendError::Transient), Ok(Disposition::Failed));
    assert_eq!(queue.dequeue_one(1000), None);
}

#[test]
fn a_failed_row_keeps_its_place_in_the_table() {
    let mut queue = DeliveryQueue::with_policy(0, 60);
    queue.enqueue_many(0, &vec![1]).unwrap();
    let task = queue.dequeue_one(0).unwrap();
    queue.fail(&task, SendError::Permanent).unwrap();
    assert_eq!(queue.complete(&task), Err(QueueError::ClaimNotHeld));
    assert_eq!(queue.fail(&task, SendError::Transient), Err(QueueError::ClaimNotHeld));
    assert_eq!(queue.enqueue_many(0, &vec![1]), Err(QueueError::DuplicateTask));
    assert_eq!(queue.count(TaskStatus::Failed), 1);
}

#[test]
fn retries_needs_a_transient_failure_and_retries_left() {
    assert!(retries(3, SendError::Transient, 0));
    assert!(retries(3, SendError::Transient, 2));
    assert!(!retries(3, SendError::Transient, 3));
    assert!(!retries(3, SendError::Transient, 4));
    assert!(!retries(3, SendError::Permanent, 0));
    assert!(!retries(0, SendError::Transient, 0));
    assert!(retries(u32::MAX, SendError::Transient, u32::MAX - 1));
    assert!(!retries(u32::MAX, SendError::Transient, u32::MAX));
}

#[test]
fn row_finds_the_row_of_a_subscriber() {
    let mut queue = DeliveryQueue::with_policy(3, 60);
    queue.enqueue_many(0, &vec![1, 2]).unwrap();
    queue.dequeue_one(10).unwrap();
    assert_eq!(queue.row(0, 1), Some(TaskRow { claimed_until: Some(70), ..pending(0, 1) }));
    assert_eq!(queue.row(0, 2), Some(pending(0, 2)));
    assert_eq!(queue.row(0, 3), None);
    assert_eq!(queue.row(1, 1), None);
}

#[test]
fn with_status_lists_the_rows_for_the_operator() {
    let mut queue = DeliveryQueue::with_policy(0, 60);
    queue.enqueue_many(0, &vec![1, 2, 3]).unwrap();
    let first = queue.dequeue_one(10).unwrap();
    queue.fail(&first, SendError::Permanent).unwrap();
    let second = queue.dequeue_one(10).unwrap();
    queue.fail(&second, SendError::Transient).unwrap();
    let failed = queue.with_status(TaskStatus::Failed);
    assert_eq!(failed.len(), 2);
    assert_eq!(failed[0].subscriber_id, 1);
    assert_eq!(failed[0].last_error, Some(SendError::Permanent));
    assert_eq!(failed[1].subscriber_id, 2);
    assert_eq!(failed[1].last_error, Some(SendError::Transient));
    assert_eq!(queue.with_status(TaskStatus::Pending), vec![pending(0, 3)]);
    assert_eq!(DeliveryQueue::new().with_status(TaskStatus::Pending), Vec::new());
}
