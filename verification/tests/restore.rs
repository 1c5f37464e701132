use newsletter_backend::gateway::SendError;
use newsletter_backend::idempotency::{
    IdempotencyRecord, IdempotencyStore, SaveError, SavedResponse,
};
use newsletter_backend::issue::{Issue, IssueLog};
use newsletter_backend::queue::{DeliveryQueue, QueueError, TaskRow, TaskStatus};
use newsletter_backend::store::{AssembleError, Store};

fn row(issue_id: u64, subscriber_id: u128) -> TaskRow {
    TaskRow {
        issue_id,
        subscriber_id,
        retry_count: 0,
        status: TaskStatus::Pending,
        claimed_until: None,
        last_error: None,
    }
}

fn record(user_id: u128, key: &str) -> IdempotencyRecord {
    IdempotencyRecord {
        user_id,
        key: key.to_string(),
        response: SavedResponse { status_code: 200, body: "published".to_string() },
    }
}

fn issue(id: u64, title: &str) -> Issue {
    Issue {
        id,
        title: title.to_string(),
        text_body: "text".to_string(),
        html_body: "<p>html</p>".to_string(),
    }
}

#[test]
fn a_queue_comes_back_as_it_was() {
    let rows = vec![
        TaskRow { retry_count: 2, last_error: Some(SendError::Transient), ..row(0, 1) },
        TaskRow { claimed_until: Some(500), ..row(0, 2) },
        TaskRow { status: TaskStatus::Failed, last_error: Some(SendError::Permanent), ..row(1, 1) },
    ];
    let mut queue = DeliveryQueue::restore(rows.clone(), 5, 30).ok().unwrap();
    assert_eq!(queue.rows(), &rows);
    assert_eq!(queue.retry_limit(), 5);
    assert_eq!(queue.lease_secs(), 30);
    // The work goes on where it stopped.
    let task = queue.dequeue_one(100).unwrap();
    assert_eq!((task.subscriber_id, task.retry_count, task.claimed_until), (1, 2, 130));
    // The second row is under a claim from before, which lasts through 500.
    assert_eq!(queue.dequeue_one(100), None);
    assert_eq!(queue.complete(&task), Ok(()));
    assert_eq!(queue.dequeue_one(500), None);
    assert_eq!(queue.dequeue_one(501).unwrap().subscriber_id, 2);
}

#[test]
fn a_queue_with_a_row_twice_is_refused() {
    let rows = vec![row(0, 1), row(0, 2), TaskRow { retry_count: 1, ..row(0, 1) }];
    assert_eq!(DeliveryQueue::restore(rows, 5, 30).err(), Some(QueueError::DuplicateTask));
    assert!(DeliveryQueue::restore(Vec::new(), 5, 30).is_ok());
    assert!(DeliveryQueue::restore(vec![row(0, 1), row(1, 1), row(0, 2)], 5, 30).is_ok());
}

#[test]
fn an_idempotency_store_comes_back_as_it_was() {
    let records = vec![record(1, "a"), record(2, "a"), record(1, "b")];
    let store = IdempotencyStore::restore(records.clone()).ok().unwrap();
    assert_eq!(store.records(), &records);
    assert!(store.lookup(1, &"b".to_string()).is_some());
    assert!(store.lookup(2, &"b".to_string()).is_none());
}

#[test]
fn an_idempotency_store_with_a_key_twice_is_refused() {
    let records = vec![record(1, "a"), record(1, "b"), record(1, "a")];
    assert_eq!(IdempotencyStore::restore(records).err(), Some(SaveError::DuplicateKey));
    assert!(IdempotencyStore::restore(Vec::new()).is_ok());
}

#[test]
fn a_log_comes_back_as_it_was() {
    let issues = vec![issue(0, "One"), issue(1, "Two")];
    let mut log = IssueLog::restore(issues.clone()).unwrap();
    assert_eq!(log.issues(), &issues);
    assert_eq!(log.get(1), Some(&issue(1, "Two")));
    assert_eq!(log.insert("Three".to_string(), "t".to_string(), "h".to_string()), 2);
}

#[test]
fn a_log_out_of_order_is_refused() {
    assert!(IssueLog::restore(vec![issue(1, "One")]).is_none());
    assert!(IssueLog::restore(vec![issue(0, "One"), issue(2, "Two")]).is_none());
    assert!(IssueLog::restore(vec![issue(0, "One"), issue(0, "Two")]).is_none());
    assert!(IssueLog::restore(Vec::new()).is_some());
}

#[test]
fn a_restored_store_replays_and_publishes() {
    let mut store = Store::assemble(
        IssueLog::restore(vec![issue(0, "One")]).unwrap(),
        DeliveryQueue::restore(vec![row(0, 1)], 3, 300).ok().unwrap(),
        IdempotencyStore::restore(vec![record(9, "abc")]).ok().unwrap(),
    )
    .ok()
    .unwrap();
    let replayed = store.publish_issue(
        &Vec::new(),
        9,
        &"abc".to_string(),
        "One".to_string(),
        "text".to_string(),
        "<p>html</p>".to_string(),
    );
    assert_eq!(replayed, SavedResponse { status_code: 200, body: "published".to_string() });
    assert_eq!(store.issues().len(), 1);
    let fresh = store.publish_issue(
        &Vec::new(),
        9,
        &"abd".to_string(),
        "Two".to_string(),
        "text".to_string(),
        "<p>html</p>".to_string(),
    );
    assert_eq!(fresh.status_code, 200);
    assert_eq!(store.issues().len(), 2);
}

#[test]
fn tables_with_a_task_without_its_issue_are_no_store() {
    let assembled = Store::assemble(
        IssueLog::restore(vec![issue(0, "One")]).unwrap(),
        DeliveryQueue::restore(vec![row(0, 1), row(1, 1)], 3, 300).ok().unwrap(),
        IdempotencyStore::restore(Vec::new()).ok().unwrap(),
    );
    assert_eq!(assembled.err(), Some(AssembleError::TaskWithoutIssue));
    let empty = Store::assemble(
        IssueLog::new(),
        DeliveryQueue::new(),
        IdempotencyStore::new(),
    );
    assert!(empty.is_ok());
}
