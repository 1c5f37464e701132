use newsletter_backend::gateway::SendError;
use newsletter_backend::idempotency::SavedResponse;
use newsletter_backend::queue::{DeliveryTask, TaskStatus};
use newsletter_backend::store::Store;
use newsletter_backend::subscribers::{Subscriber, SubscriberStatus};
use newsletter_backend::worker::{
    step, Worker, WorkerAction, WorkerEvent, WorkerPool, WorkerState, POLL_INTERVAL_SECS,
};

fn task(retry_count: u32) -> DeliveryTask {
    DeliveryTask { issue_id: 0, subscriber_id: 1, retry_count, claimed_until: 60 }
}

fn confirmed(id: u128) -> Subscriber {
    Subscriber { id, email: format!("reader{}@example.com", id), status: SubscriberStatus::Confirmed }
}

/// Runs one worker until the queue has nothing to claim at `now`. `gateway`
/// stands for the email gateway; the number of its calls is returned.
fn run_worker(
    store: &mut Store,
    now: u64,
    gateway: &mut dyn FnMut(&DeliveryTask) -> Result<(), SendError>,
) -> usize {
    let mut worker = Worker::new(store.queue().retry_limit());
    let mut sends = 0;
    let mut action = worker.step(WorkerEvent::Wake, false);
    loop {
        let event = match action {
            WorkerAction::Dequeue => WorkerEvent::Dequeued(store.dequeue_one(now)),
            WorkerAction::Prepare(task) => {
                if store.issues().get(task.issue_id).is_some() {
                    WorkerEvent::Prepared
                } else {
                    WorkerEvent::Unprepared
                }
            }
            WorkerAction::Send(task) => {
                sends += 1;
                WorkerEvent::Sent(gateway(&task))
            }
            WorkerAction::Complete(task) => {
                store.complete(&task).unwrap();
                WorkerEvent::Recorded
            }
            WorkerAction::Fail(task, error) => {
                store.fail(&task, error).unwrap();
                WorkerEvent::Recorded
            }
            WorkerAction::Wait | WorkerAction::Stop | WorkerAction::Ignore => break,
        };
        action = worker.step(event, false);
    }
    assert_eq!(worker.state(), WorkerState::Idle);
    sends
}

#[test]
fn publish_replay_and_drain() {
    let mut store = Store::new();
    let subscribers = vec![confirmed(1), confirmed(2), confirmed(3)];
    let key = "abc".to_string();
    let first = store.publish_issue(
        &subscribers,
        9,
        &key,
        "Hello".to_string(),
        "Hello, readers".to_string(),
        "<p>Hello, readers</p>".to_string(),
    );
    assert_eq!(first, SavedResponse { status_code: 200, body: "published".to_string() });
    let second = store.publish_issue(
        &subscribers,
        9,
        &key,
        "Hello".to_string(),
        "Hello, readers".to_string(),
        "<p>Hello, readers</p>".to_string(),
    );
    assert_eq!(second, SavedResponse { status_code: 200, body: "published".to_string() });
    assert_eq!(store.queue().len(), 3);
    assert_eq!(store.queue().count(TaskStatus::Pending), 3);

    let mut delivered: Vec<u128> = Vec::new();
    let sends = run_worker(&mut store, 1000, &mut |task| {
        delivered.push(task.subscriber_id);
        Ok(())
    });
    assert_eq!(sends, 3);
    assert_eq!(delivered, vec![1, 2, 3]);
    assert_eq!(store.queue().count(TaskStatus::Pending), 0);
    assert_eq!(store.queue().count(TaskStatus::Failed), 0);
    assert_eq!(store.queue().len(), 0);
    assert_eq!(store.issues().len(), 1);
}

#[test]
fn a_gateway_that_always_fails_is_called_limit_plus_one_times() {
    let mut store = Store::with_policy(4, 60);
    store.publish_issue(
        &vec![confirmed(1)],
        9,
        &"abc".to_string(),
        "Hello".to_string(),
        "text".to_string(),
        "<p>html</p>".to_string(),
    );
    let sends = run_worker(&mut store, 1000, &mut |_| Err(SendError::Transient));
    assert_eq!(sends, 5);
    assert_eq!(store.queue().count(TaskStatus::Pending), 0);
    assert_eq!(store.queue().count(TaskStatus::Failed), 1);
    assert_eq!(store.queue().rows()[0].retry_count, 4);
    // A later run finds nothing to do.
    assert_eq!(run_worker(&mut store, 1_000_000, &mut |_| Ok(())), 0);
}

#[test]
fn one_bad_task_does_not_stop_the_others() {
    let mut store = Store::with_policy(3, 60);
    store.publish_issue(
        &vec![confirmed(1), confirmed(2), confirmed(3)],
        9,
        &"abc".to_string(),
        "Hello".to_string(),
        "text".to_string(),
        "<p>html</p>".to_string(),
    );
    let sends = run_worker(&mut store, 1000, &mut |task| {
        if task.subscriber_id == 2 {
            Err(SendError::Permanent)
        } else {
            Ok(())
        }
    });
    assert_eq!(sends, 3);
    assert_eq!(store.queue().len(), 1);
    assert_eq!(store.queue().rows()[0].subscriber_id, 2);
    assert_eq!(store.queue().rows()[0].status, TaskStatus::Failed);
    assert_eq!(store.queue().rows()[0].last_error, Some(SendError::Permanent));
}

#[test]
fn a_task_that_fails_once_is_delivered_on_the_retry() {
    let mut store = Store::with_policy(3, 60);
    store.publish_issue(
        &vec![confirmed(1)],
        9,
        &"abc".to_string(),
        "Hello".to_string(),
        "text".to_string(),
        "<p>html</p>".to_string(),
    );
    let mut calls = 0;
    let sends = run_worker(&mut store, 1000, &mut |task| {
        calls += 1;
        if task.retry_count == 0 {
            Err(SendError::Transient)
        } else {
            Ok(())
        }
    });
    assert_eq!(sends, 2);
    assert_eq!(store.queue().len(), 0);
}

#[test]
fn the_polling_interval() {
    assert_eq!(POLL_INTERVAL_SECS, 1);
}

#[test]
fn an_idle_worker_asks_the_queue() {
    assert_eq!(
        step(3, false, WorkerState::Idle, WorkerEvent::Wake),
        (WorkerState::Idle, WorkerAction::Dequeue)
    );
    assert_eq!(
        step(3, false, WorkerState::Idle, WorkerEvent::Dequeued(None)),
        (WorkerState::Idle, WorkerAction::Wait)
    );
    assert_eq!(
        step(3, false, WorkerState::Idle, WorkerEvent::Dequeued(Some(task(0)))),
        (WorkerState::Claimed(task(0)), WorkerAction::Prepare(task(0)))
    );
}

#[test]
fn a_claimed_task_is_sent() {
    assert_eq!(
        step(3, false, WorkerState::Claimed(task(0)), WorkerEvent::Prepared),
        (WorkerState::Sending(task(0)), WorkerAction::Send(task(0)))
    );
    assert_eq!(
        step(3, false, WorkerState::Claimed(task(0)), WorkerEvent::Unprepared),
        (WorkerState::Failed(task(0)), WorkerAction::Fail(task(0), SendError::Permanent))
    );
}

#[test]
fn the_outcome_of_a_send_decides() {
    assert_eq!(
        step(3, false, WorkerState::Sending(task(0)), WorkerEvent::Sent(Ok(()))),
        (WorkerState::Completed(task(0)), WorkerAction::Complete(task(0)))
    );
    assert_eq!(
        step(3, false, WorkerState::Sending(task(2)), WorkerEvent::Sent(Err(SendError::Transient))),
        (WorkerState::RetryPending(task(2)), WorkerAction::Fail(task(2), SendError::Transient))
    );
    assert_eq!(
        step(3, false, WorkerState::Sending(task(3)), WorkerEvent::Sent(Err(SendError::Transient))),
        (WorkerState::Failed(task(3)), WorkerAction::Fail(task(3), SendError::Transient))
    );
    assert_eq!(
        step(3, false, WorkerState::Sending(task(0)), WorkerEvent::Sent(Err(SendError::Permanent))),
        (WorkerState::Failed(task(0)), WorkerAction::Fail(task(0), SendError::Permanent))
    );
}

#[test]
fn a_timeout_is_a_transient_failure() {
    assert_eq!(
        step(3, false, WorkerState::Sending(task(0)), WorkerEvent::TimedOut),
        (WorkerState::RetryPending(task(0)), WorkerAction::Fail(task(0), SendError::Transient))
    );
    assert_eq!(
        step(0, false, WorkerState::Sending(task(0)), WorkerEvent::TimedOut),
        (WorkerState::Failed(task(0)), WorkerAction::Fail(task(0), SendError::Transient))
    );
}

#[test]
fn a_recorded_outcome_leads_back_to_the_queue() {
    for state in [
        WorkerState::Completed(task(0)),
        WorkerState::RetryPending(task(0)),
        WorkerState::Failed(task(0)),
    ] {
        assert_eq!(
            step(3, false, state, WorkerEvent::Recorded),
            (WorkerState::Idle, WorkerAction::Dequeue)
        );
        assert_eq!(
            step(3, true, state, WorkerEvent::Recorded),
            (WorkerState::Stopped, WorkerAction::Stop)
        );
    }
}

#[test]
fn shutdown_stops_an_idle_worker() {
    assert_eq!(
        step(3, true, WorkerState::Idle, WorkerEvent::Wake),
        (WorkerState::Stopped, WorkerAction::Stop)
    );
    assert_eq!(
        step(3, true, WorkerState::Idle, WorkerEvent::Dequeued(None)),
        (WorkerState::Stopped, WorkerAction::Stop)
    );
}

#[test]
fn shutdown_lets_a_held_task_finish() {
    let mut worker = Worker::new(3);
    assert_eq!(worker.retry_limit(), 3);
    assert_eq!(worker.step(WorkerEvent::Wake, false), WorkerAction::Dequeue);
    // The shutdown is asked for while the queue answers with a task.
    assert_eq!(
        worker.step(WorkerEvent::Dequeued(Some(task(0))), true),
        WorkerAction::Prepare(task(0))
    );
    assert_eq!(worker.step(WorkerEvent::Prepared, true), WorkerAction::Send(task(0)));
    assert_eq!(worker.state(), WorkerState::Sending(task(0)));
    assert_eq!(worker.step(WorkerEvent::Sent(Ok(())), true), WorkerAction::Complete(task(0)));
    assert_eq!(worker.step(WorkerEvent::Recorded, true), WorkerAction::Stop);
    assert_eq!(worker.state(), WorkerState::Stopped);
    assert_eq!(worker.step(WorkerEvent::Wake, false), WorkerAction::Ignore);
    assert_eq!(worker.state(), WorkerState::Stopped);
}

#[test]
fn events_out_of_turn_are_ignored() {
    assert_eq!(
        step(3, false, WorkerState::Idle, WorkerEvent::Sent(Ok(()))),
        (WorkerState::Idle, WorkerAction::Ignore)
    );
    assert_eq!(
        step(3, false, WorkerState::Sending(task(0)), WorkerEvent::Wake),
        (WorkerState::Sending(task(0)), WorkerAction::Ignore)
    );
    assert_eq!(
        step(3, true, WorkerState::Claimed(task(0)), WorkerEvent::Recorded),
        (WorkerState::Claimed(task(0)), WorkerAction::Ignore)
    );
    assert_eq!(
        step(3, false, WorkerState::Stopped, WorkerEvent::Dequeued(None)),
        (WorkerState::Stopped, WorkerAction::Ignore)
    );
}

#[test]
fn a_pool_starts_with_idle_workers() {
    let pool = WorkerPool::start(3, 5);
    assert_eq!(pool.len(), 3);
    assert!(!pool.is_shutting_down());
    assert!(!pool.is_drained());
    for worker in 0..3 {
        assert_eq!(pool.state(worker), Some(WorkerState::Idle));
    }
    assert_eq!(pool.state(3), None);
}

#[test]
fn a_pool_without_workers_is_drained() {
    let mut pool = WorkerPool::start(0, 5);
    assert_eq!(pool.len(), 0);
    assert!(pool.is_drained());
    assert_eq!(pool.step(0, WorkerEvent::Wake), None);
}

#[test]
fn the_workers_of_a_pool_step_on_their_own() {
    let mut pool = WorkerPool::start(2, 1);
    assert_eq!(pool.step(0, WorkerEvent::Wake), Some(WorkerAction::Dequeue));
    assert_eq!(
        pool.step(0, WorkerEvent::Dequeued(Some(task(1)))),
        Some(WorkerAction::Prepare(task(1)))
    );
    assert_eq!(pool.state(0), Some(WorkerState::Claimed(task(1))));
    assert_eq!(pool.state(1), Some(WorkerState::Idle));
    assert_eq!(pool.step(0, WorkerEvent::Prepared), Some(WorkerAction::Send(task(1))));
    // The pool grants one retry, and the task has had it.
    assert_eq!(
        pool.step(0, WorkerEvent::TimedOut),
        Some(WorkerAction::Fail(task(1), SendError::Transient))
    );
    assert_eq!(pool.state(0), Some(WorkerState::Failed(task(1))));
    assert_eq!(pool.step(2, WorkerEvent::Wake), None);
}

#[test]
fn a_pool_drains_after_the_shutdown() {
    let mut pool = WorkerPool::start(2, 3);
    assert_eq!(pool.step(0, WorkerEvent::Wake), Some(WorkerAction::Dequeue));
    assert_eq!(
        pool.step(0, WorkerEvent::Dequeued(Some(task(0)))),
        Some(WorkerAction::Prepare(task(0)))
    );
    pool.shutdown();
    assert!(pool.is_shutting_down());
    assert!(!pool.is_drained());
    // The idle worker stops at its next step.
    assert_eq!(pool.step(1, WorkerEvent::Wake), Some(WorkerAction::Stop));
    assert!(!pool.is_drained());
    // The other one brings its task to an end first.
    assert_eq!(pool.step(0, WorkerEvent::Prepared), Some(WorkerAction::Send(task(0))));
    assert_eq!(pool.step(0, WorkerEvent::Sent(Ok(()))), Some(WorkerAction::Complete(task(0))));
    assert!(!pool.is_drained());
    assert_eq!(pool.step(0, WorkerEvent::Recorded), Some(WorkerAction::Stop));
    assert!(pool.is_drained());
    assert_eq!(pool.state(0), Some(WorkerState::Stopped));
}
