//! The delivery worker: what one worker of the pool does next.
//!
//! A worker is a loop around `step`. The loop performs the action that `step`
//! names (it asks the queue, waits, calls the gateway) and hands the outcome
//! back as the next event. The decisions are all here; the loop makes none.
//! Workers share nothing but the queue, so a pool is any number of such loops.
//!
//! A worker that is asked to shut down claims no further task. A task that it
//! holds is brought to its end first: the send finishes or runs into its
//! timeout, and the outcome is recorded in the queue.

use vstd::prelude::*;
use crate::gateway::SendError;
use crate::queue::{retries, DeliveryTask};

verus! {

/// Seconds that an idle worker waits before it asks the queue again.
pub const POLL_INTERVAL_SECS: u64 = 1;

/// Where a worker stands.
#[derive(Clone, Copy, Debug, PartialEq, Eq)]
pub enum WorkerState {
    /// It holds no task.
    Idle,
    /// It holds a task and gathers what the email needs: the recipient's
    /// address and the issue.
    Claimed(DeliveryTask),
    /// The gateway is sending the email.
    Sending(DeliveryTask),
    /// The email was sent; the queue is to drop the task.
    Completed(DeliveryTask),
    /// The send failed and will be tried again; the queue is to release the task.
    RetryPending(DeliveryTask),
    /// The send failed for good; the queue is to mark the task failed.
    Failed(DeliveryTask),
    /// The worker has shut down.
    Stopped,
}

/// What happened since the last step.
#[derive(Clone, Copy, Debug, PartialEq, Eq)]
pub enum WorkerEvent {
    /// The worker was started, or its wait is over.
    Wake,
    /// The queue answered: a task, or none to claim.
    Dequeued(Option<DeliveryTask>),
    /// The recipient's address and the issue were found.
    Prepared,
    /// The recipient's address or the issue does not exist.
    Unprepared,
    /// The gateway answered.
    Sent(Result<(), SendError>),
    /// The gateway did not answer in time.
    TimedOut,
    /// The queue recorded the outcome of the task.
    Recorded,
}

/// What the loop is to do next.
#[derive(Clone, Copy, Debug, PartialEq, Eq)]
pub enum WorkerAction {
    /// Ask the queue for a task with `dequeue_one`; answer with `Dequeued`.
    Dequeue,
    /// Wait for the polling interval; answer with `Wake`.
    Wait,
    /// Look up the recipient's address and the issue of the task; answer with
    /// `Prepared` or `Unprepared`.
    Prepare(DeliveryTask),
    /// Have the gateway send the email, within its timeout; answer with `Sent`
    /// or `TimedOut`.
    Send(DeliveryTask),
    /// Tell the queue with `complete`; answer with `Recorded`.
    Complete(DeliveryTask),
    /// Tell the queue with `fail`; answer with `Recorded`.
    Fail(DeliveryTask, SendError),
    /// Leave the loop.
    Stop,
    /// The event does not belong to the state: nothing is to be done.
    Ignore,
}

/// The failure that the outcome of a send amounts to, if it is one. A send
/// that ran into its timeout failed transiently.
pub open spec fn send_failure(event: WorkerEvent) -> Option<SendError> {
    match event {
        WorkerEvent::Sent(Err(error)) => Some(error),
        WorkerEvent::TimedOut => Some(SendError::Transient),
        _ => None,
    }
}

/// The state and the action that follow a worker's being without a task.
pub open spec fn at_rest(shutdown: bool, action: WorkerAction) -> (WorkerState, WorkerAction) {
    if shutdown {
        (WorkerState::Stopped, WorkerAction::Stop)
    } else {
        (WorkerState::Idle, action)
    }
}

/// The state and the action that follow a failed send of `task`.
pub open spec fn after_failure(retry_limit: u32, task: DeliveryTask, error: SendError) -> (
    WorkerState,
    WorkerAction,
) {
    if error == SendError::Transient && task.retry_count < retry_limit {
        (WorkerState::RetryPending(task), WorkerAction::Fail(task, error))
    } else {
        (WorkerState::Failed(task), WorkerAction::Fail(task, error))
    }
}

/// The state that follows `state` on `event`, and the action to perform, for a
/// worker of a queue that grants `retry_limit` retries. `shutdown` says
/// whether the worker has been asked to shut down.
pub open spec fn next(retry_limit: u32, shutdown: bool, state: WorkerState, event: WorkerEvent) -> (
    WorkerState,
    WorkerAction,
) {
    match (state, event) {
        (WorkerState::Idle, WorkerEvent::Wake) => at_rest(shutdown, WorkerAction::Dequeue),
        (WorkerState::Idle, WorkerEvent::Dequeued(None)) => at_rest(shutdown, WorkerAction::Wait),
        (WorkerState::Idle, WorkerEvent::Dequeued(Some(task))) => (
            WorkerState::Claimed(task),
            WorkerAction::Prepare(task),
        ),
        (WorkerState::Claimed(task), WorkerEvent::Prepared) => (
            WorkerState::Sending(task),
            WorkerAction::Send(task),
        ),
        (WorkerState::Claimed(task), WorkerEvent::Unprepared) => after_failure(
            retry_limit,
            task,
            SendError::Permanent,
        ),
        (WorkerState::Sending(task), WorkerEvent::Sent(Ok(()))) => (
            WorkerState::Completed(task),
            WorkerAction::Complete(task),
        ),
        (WorkerState::Sending(task), WorkerEvent::Sent(Err(error))) => after_failure(
            retry_limit,
            task,
            error,
        ),
        (WorkerState::Sending(task), WorkerEvent::TimedOut) => after_failure(
            retry_limit,
            task,
            SendError::Transient,
        ),
        (WorkerState::Completed(_), WorkerEvent::Recorded) => at_rest(shutdown, WorkerAction::Dequeue),
        (WorkerState::RetryPending(_), WorkerEvent::Recorded) => at_rest(shutdown, WorkerAction::Dequeue),
        (WorkerState::Failed(_), WorkerEvent::Recorded) => at_rest(shutdown, WorkerAction::Dequeue),
        _ => (state, WorkerAction::Ignore),
    }
}

/// The task that a worker in this state holds.
pub open spec fn held(state: WorkerState) -> Option<DeliveryTask> {
    match state {
        WorkerState::Idle => None,
        WorkerState::Claimed(task) => Some(task),
        WorkerState::Sending(task) => Some(task),
        WorkerState::Completed(task) => Some(task),
        WorkerState::RetryPending(task) => Some(task),
        WorkerState::Failed(task) => Some(task),
        WorkerState::Stopped => None,
    }
}

/// One worker of the pool.
#[derive(Clone, Copy, Debug, PartialEq, Eq)]
pub struct Worker {
    retry_limit: u32,
    state: WorkerState,
}

impl Worker {
    /// The retries that the worker reckons with.
    pub closed spec fn spec_retry_limit(&self) -> u32 {
        self.retry_limit
    }

    /// Where the worker stands.
    pub closed spec fn spec_state(&self) -> WorkerState {
        self.state
    }

    /// An idle worker for a queue that grants `retry_limit` retries.
    pub fn new(retry_limit: u32) -> (worker: Worker)
        ensures
            worker.spec_retry_limit() == retry_limit,
            worker.spec_state() == WorkerState::Idle,
    {
        Worker { retry_limit, state: WorkerState::Idle }
    }

    /// Where the worker stands.
    #[verifier::when_used_as_spec(spec_state)]
    pub fn state(&self) -> (state: WorkerState)
        ensures
            state == self.spec_state(),
    {
        self.state
    }

    /// The retries that the worker reckons with.
    #[verifier::when_used_as_spec(spec_retry_limit)]
    pub fn retry_limit(&self) -> (n: u32)
        ensures
            n == self.spec_retry_limit(),
    {
        self.retry_limit
    }

    /// Takes an event and says what the loop is to do next.
    pub fn step(&mut self, event: WorkerEvent, shutdown: bool) -> (action: WorkerAction)
        ensures
            final(self).spec_retry_limit() == old(self).spec_retry_limit(),
            (final(self).spec_state(), action) == next(
                old(self).spec_retry_limit(),
                shutdown,
                old(self).spec_state(),
                event,
            ),
    {
        let (state, action) = step(self.retry_limit, shutdown, self.state, event);
        self.state = state;
        action
    }
}

/// A worker that was asked to shut down claims nothing more: it neither asks
/// the queue nor waits to ask it.
pub proof fn lemma_shutdown_claims_nothing(retry_limit: u32, state: WorkerState, event: WorkerEvent)
    ensures
        next(retry_limit, true, state, event).1 != WorkerAction::Dequeue,
        next(retry_limit, true, state, event).1 != WorkerAction::Wait,
        held(state) is None && !(event matches WorkerEvent::Dequeued(Some(_))) ==> held(
            next(retry_limit, true, state, event).0,
        ) is None,
{
}

/// A worker does not drop a task that it holds. It holds the task through
/// every step until the queue has recorded the outcome, and it never holds a
/// second task beside it. A stopped worker holds none.
pub proof fn lemma_held_task_is_finished(
    retry_limit: u32,
    shutdown: bool,
    state: WorkerState,
    event: WorkerEvent,
)
    requires
        held(state) is Some,
    ensures
        ({
            let after = next(retry_limit, shutdown, state, event).0;
            let recorded = event == WorkerEvent::Recorded && (state is Completed || state is RetryPending
                || state is Failed);
            &&& recorded ==> held(after) is None
            &&& !recorded ==> held(after) == held(state)
            &&& after == WorkerState::Stopped ==> recorded
        }),
{
}

/// The pool as a mathematical value.
pub struct PoolView {
    /// Where each worker stands.
    pub states: Seq<WorkerState>,
    /// The retries that the workers reckon with.
    pub retry_limit: u32,
    /// Whether the pool was asked to shut down.
    pub shutdown: bool,
}

impl PoolView {
    /// Every worker has stopped.
    pub open spec fn drained(self) -> bool {
        forall|i: int| 0 <= i < self.states.len() ==> #[trigger] self.states[i] == WorkerState::Stopped
    }

    /// The pool after worker `worker` took `event`, and the action for its loop.
    /// A pool without such a worker stays as it is.
    pub open spec fn step(self, worker: int, event: WorkerEvent) -> (PoolView, Option<WorkerAction>) {
        if 0 <= worker < self.states.len() {
            let (state, action) = next(self.retry_limit, self.shutdown, self.states[worker], event);
            (PoolView { states: self.states.update(worker, state), ..self }, Some(action))
        } else {
            (self, None)
        }
    }
}

/// The workers of one process. The pool keeps where each stands and whether
/// the shutdown was asked for; the loops of the workers run elsewhere.
pub struct WorkerPool {
    workers: Vec<WorkerState>,
    retry_limit: u32,
    shutdown: bool,
}

impl View for WorkerPool {
    type V = PoolView;

    closed spec fn view(&self) -> PoolView {
        PoolView { states: self.workers@, retry_limit: self.retry_limit, shutdown: self.shutdown }
    }
}

impl WorkerPool {
    /// A pool of `n_workers` idle workers for a queue that grants
    /// `retry_limit` retries.
    pub fn start(n_workers: usize, retry_limit: u32) -> (pool: WorkerPool)
        ensures
            pool@ == (PoolView {
                states: Seq::new(n_workers as nat, |i: int| WorkerState::Idle),
                retry_limit,
                shutdown: false,
            }),
    {
        let mut workers: Vec<WorkerState> = Vec::new();
        let mut i: usize = 0;
        while i < n_workers
            invariant
                i <= n_workers,
                workers@ == Seq::new(i as nat, |i: int| WorkerState::Idle),
            decreases n_workers - i,
        {
            workers.push(WorkerState::Idle);
            i += 1;
            assert(workers@ =~= Seq::new(i as nat, |i: int| WorkerState::Idle));
        }
        WorkerPool { workers, retry_limit, shutdown: false }
    }

    /// The number of workers.
    pub fn len(&self) -> (n: usize)
        ensures
            n == self@.states.len(),
    {
        self.workers.len()
    }

    /// Asks the pool to shut down. From now on no worker claims a task; each
    /// stops once it is without one.
    pub fn shutdown(&mut self)
        ensures
            final(self)@ == (PoolView { shutdown: true, ..old(self)@ }),
    {
        self.shutdown = true;
    }

    /// Whether the pool was asked to shut down.
    pub fn is_shutting_down(&self) -> (r: bool)
        ensures
            r == self@.shutdown,
    {
        self.shutdown
    }

    /// Where worker `worker` stands, if the pool has such a worker.
    pub fn state(&self, worker: usize) -> (r: Option<WorkerState>)
        ensures
            r == if worker < self@.states.len() {
                Some(self@.states[worker as int])
            } else {
                None
            },
    {
        if worker < self.workers.len() {
            Some(self.workers[worker])
        } else {
            None
        }
    }

    /// Hands an event to worker `worker` and says what its loop is to do next.
    /// A pool without such a worker answers `None`.
    pub fn step(&mut self, worker: usize, event: WorkerEvent) -> (action: Option<WorkerAction>)
        ensures
            (final(self)@, action) == old(self)@.step(worker as int, event),
    {
        if worker < self.workers.len() {
            let (state, action) = step(self.retry_limit, self.shutdown, self.workers[worker], event);
            self.workers.set(worker, state);
            Some(action)
        } else {
            None
        }
    }

    /// Whether every worker has stopped, so that the process can end.
    pub fn is_drained(&self) -> (r: bool)
        ensures
            r == self@.drained(),
    {
        let mut i: usize = 0;
        while i < self.workers.len()
            invariant
                i <= self.workers.len(),
                forall|j: int| 0 <= j < i ==> #[trigger] self.workers@[j] == WorkerState::Stopped,
            decreases self.workers.len() - i,
        {
            match self.workers[i] {
                WorkerState::Stopped => {},
                _ => {
                    return false;
                },
            }
            i += 1;
        }
        true
    }
}

/// The state and the action for a worker that is without a task.
fn rest(shutdown: bool, action: WorkerAction) -> (r: (WorkerState, WorkerAction))
    ensures
        r == at_rest(shutdown, action),
{
    if shutdown {
        (WorkerState::Stopped, WorkerAction::Stop)
    } else {
        (WorkerState::Idle, action)
    }
}

/// The state and the action after a failed send.
fn failure(retry_limit: u32, task: DeliveryTask, error: SendError) -> (r: (WorkerState, WorkerAction))
    ensures
        r == after_failure(retry_limit, task, error),
{
    if retries(retry_limit, error, task.retry_count) {
        (WorkerState::RetryPending(task), WorkerAction::Fail(task, error))
    } else {
        (WorkerState::Failed(task), WorkerAction::Fail(task, error))
    }
}

/// The state that follows `state` on `event`, and the action to perform.
pub fn step(retry_limit: u32, shutdown: bool, state: WorkerState, event: WorkerEvent) -> (r: (
    WorkerState,
    WorkerAction,
))
    ensures
        r == next(retry_limit, shutdown, state, event),
{
    match state {
        WorkerState::Idle => match event {
            WorkerEvent::Wake => rest(shutdown, WorkerAction::Dequeue),
            WorkerEvent::Dequeued(None) => rest(shutdown, WorkerAction::Wait),
            WorkerEvent::Dequeued(Some(task)) => (WorkerState::Claimed(task), WorkerAction::Prepare(task)),
            _ => (state, WorkerAction::Ignore),
        },
        WorkerState::Claimed(task) => match event {
            WorkerEvent::Prepared => (WorkerState::Sending(task), WorkerAction::Send(task)),
            WorkerEvent::Unprepared => failure(retry_limit, task, SendError::Permanent),
            _ => (state, WorkerAction::Ignore),
        },
        WorkerState::Sending(task) => match event {
            WorkerEvent::Sent(Ok(())) => (WorkerState::Completed(task), WorkerAction::Complete(task)),
            WorkerEvent::Sent(Err(error)) => failure(retry_limit, task, error),
            WorkerEvent::TimedOut => failure(retry_limit, task, SendError::Transient),
            _ => (state, WorkerAction::Ignore),
        },
        WorkerState::Completed(_) | WorkerState::RetryPending(_) | WorkerState::Failed(_) => match event {
            WorkerEvent::Recorded => rest(shutdown, WorkerAction::Dequeue),
            _ => (state, WorkerAction::Ignore),
        },
        WorkerState::Stopped => (state, WorkerAction::Ignore),
    }
}

} // verus!
