//! The delivery queue: one row per issue and subscriber, claimed by one worker
//! at a time.
//!
//! A claim is a lease. A worker that claims a row at the instant `now` holds it
//! through the instant `now + lease_secs`; after that the row can be claimed
//! again, so that a row whose worker died is not lost. The rows come out in
//! the order in which they went in, but no caller should build on that order.

use vstd::prelude::*;
use crate::gateway::SendError;
use crate::ids::{IssueId, SubscriberId};
use crate::seqs::{first_index, lemma_first_index_is, lemma_first_index_none};

verus! {

/// Retries granted to a row by a queue made with `DeliveryQueue::new`.
pub const DEFAULT_RETRY_LIMIT: u32 = 3;

/// Seconds that a claim lasts in a queue made with `DeliveryQueue::new`.
pub const DEFAULT_LEASE_SECS: u64 = 300;

/// Whether a row still waits for delivery.
#[derive(Clone, Copy, Debug, PartialEq, Eq, Structural)]
pub enum TaskStatus {
    /// The email has not been delivered yet.
    Pending,
    /// Delivery was given up; the row is kept for the operator.
    Failed,
}

/// A row of the queue.
#[derive(Clone, Copy, Debug, PartialEq, Eq)]
pub struct TaskRow {
    pub issue_id: IssueId,
    pub subscriber_id: SubscriberId,
    /// Failed attempts that were followed by a release of the claim.
    pub retry_count: u32,
    pub status: TaskStatus,
    /// The last instant of the current claim, if the row was ever claimed and
    /// not released since.
    pub claimed_until: Option<u64>,
    /// The failure of the last attempt, if it failed.
    pub last_error: Option<SendError>,
}

/// A claimed row, as a worker holds it.
#[derive(Clone, Copy, Debug, PartialEq, Eq)]
pub struct DeliveryTask {
    pub issue_id: IssueId,
    pub subscriber_id: SubscriberId,
    /// Failed attempts before this one.
    pub retry_count: u32,
    /// The last instant of the claim; it also tells this claim from later ones.
    pub claimed_until: u64,
}

/// What became of a row whose delivery failed.
#[derive(Clone, Copy, Debug, PartialEq, Eq, Structural)]
pub enum Disposition {
    /// The claim was released; the row can be claimed again.
    Retry,
    /// The row was marked failed and will not be claimed again.
    Failed,
}

/// Why the queue refused an operation.
#[derive(Clone, Copy, Debug, PartialEq, Eq, Structural)]
pub enum QueueError {
    /// A row for the same issue and subscriber exists already, or the
    /// subscriber was named twice.
    DuplicateTask,
    /// No pending row carries the claim that the task stands for.
    ClaimNotHeld,
    /// The store holds no issue of this identity. Only the store answers so:
    /// the queue by itself knows no issues.
    UnknownIssue,
}

/// The row that `enqueue_many` makes for one subscriber.
pub open spec fn fresh_row(issue_id: IssueId, subscriber_id: SubscriberId) -> TaskRow {
    TaskRow {
        issue_id,
        subscriber_id,
        retry_count: 0,
        status: TaskStatus::Pending,
        claimed_until: None,
        last_error: None,
    }
}

/// The rows that `enqueue_many` makes for a list of subscribers.
pub open spec fn fresh_rows(issue_id: IssueId, ids: Seq<SubscriberId>) -> Seq<TaskRow> {
    Seq::new(ids.len(), |k: int| fresh_row(issue_id, ids[k]))
}

/// The row is the one for this issue and subscriber.
pub open spec fn same_key(row: TaskRow, issue_id: IssueId, subscriber_id: SubscriberId) -> bool {
    row.issue_id == issue_id && row.subscriber_id == subscriber_id
}

/// Some row is the one for this issue and subscriber.
pub open spec fn holds_key(rows: Seq<TaskRow>, issue_id: IssueId, subscriber_id: SubscriberId) -> bool {
    exists|i: int| 0 <= i < rows.len() && same_key(#[trigger] rows[i], issue_id, subscriber_id)
}

/// The row for this issue and subscriber: the first, should there be several.
pub open spec fn row_of(rows: Seq<TaskRow>, issue_id: IssueId, subscriber_id: SubscriberId) -> Option<
    TaskRow,
> {
    match first_index(rows, |row: TaskRow| same_key(row, issue_id, subscriber_id), 0) {
        Some(i) => Some(rows[i]),
        None => None,
    }
}

/// No two rows are for the same issue and subscriber.
pub open spec fn keys_unique(rows: Seq<TaskRow>) -> bool {
    forall|i: int, j: int|
        #![trigger rows[i], rows[j]]
        0 <= i < j < rows.len() ==> !same_key(rows[i], rows[j].issue_id, rows[j].subscriber_id)
}

/// The row can be claimed at the instant `now`: it is pending, and no claim on
/// it reaches `now`.
pub open spec fn claimable(row: TaskRow, now: u64) -> bool {
    &&& row.status == TaskStatus::Pending
    &&& match row.claimed_until {
        Some(until) => until < now,
        None => true,
    }
}

/// The row is pending under exactly the claim that `task` stands for: the
/// same issue and subscriber, the same retries behind it, the same end of the
/// lease.
pub open spec fn holds_claim(row: TaskRow, task: DeliveryTask) -> bool {
    &&& same_key(row, task.issue_id, task.subscriber_id)
    &&& row.status == TaskStatus::Pending
    &&& row.retry_count == task.retry_count
    &&& row.claimed_until == Some(task.claimed_until)
}

/// The number of rows with this status.
pub open spec fn count_status(rows: Seq<TaskRow>, status: TaskStatus) -> nat
    decreases rows.len(),
{
    if rows.len() == 0 {
        0
    } else if rows.last().status == status {
        count_status(rows.drop_last(), status) + 1
    } else {
        count_status(rows.drop_last(), status)
    }
}

/// The rows with this status, in their order.
pub open spec fn rows_with_status(rows: Seq<TaskRow>, status: TaskStatus) -> Seq<TaskRow>
    decreases rows.len(),
{
    if rows.len() == 0 {
        Seq::empty()
    } else if rows.last().status == status {
        rows_with_status(rows.drop_last(), status).push(rows.last())
    } else {
        rows_with_status(rows.drop_last(), status)
    }
}

/// There are as many rows with a status as `count_status` counts, each of them
/// has the status, and each is a row of the table.
pub proof fn lemma_rows_with_status(rows: Seq<TaskRow>, status: TaskStatus)
    ensures
        rows_with_status(rows, status).len() == count_status(rows, status),
        forall|k: int|
            0 <= k < rows_with_status(rows, status).len() ==> {
                &&& (#[trigger] rows_with_status(rows, status)[k]).status == status
                &&& rows.contains(rows_with_status(rows, status)[k])
            },
        forall|i: int|
            0 <= i < rows.len() && (#[trigger] rows[i]).status == status ==> rows_with_status(
                rows,
                status,
            ).contains(rows[i]),
    decreases rows.len(),
{
    if rows.len() > 0 {
        let head = rows.drop_last();
        lemma_rows_with_status(head, status);
        let picked = rows_with_status(rows, status);
        let before = rows_with_status(head, status);
        assert forall|k: int| 0 <= k < picked.len() implies {
            &&& (#[trigger] picked[k]).status == status
            &&& rows.contains(picked[k])
        } by {
            if k < before.len() {
                assert(picked[k] == before[k]);
                assert(head.contains(before[k]));
                let i = choose|i: int| 0 <= i < head.len() && head[i] == before[k];
                assert(rows[i] == picked[k]);
            } else {
                assert(rows[rows.len() - 1] == picked[k]);
            }
        }
        assert forall|i: int| 0 <= i < rows.len() && (#[trigger] rows[i]).status == status implies picked.contains(
            rows[i],
        ) by {
            if i < head.len() {
                assert(head[i] == rows[i]);
                assert(before.contains(head[i]));
                let k = choose|k: int| 0 <= k < before.len() && before[k] == head[i];
                assert(picked[k] == rows[i]);
            } else {
                assert(picked[picked.len() - 1] == rows[i]);
            }
        }
    }
}

/// The rows of the issues before `issues`, in their order.
pub open spec fn rows_below(rows: Seq<TaskRow>, issues: nat) -> Seq<TaskRow>
    decreases rows.len(),
{
    if rows.len() == 0 {
        Seq::empty()
    } else if rows.last().issue_id < issues {
        rows_below(rows.drop_last(), issues).push(rows.last())
    } else {
        rows_below(rows.drop_last(), issues)
    }
}

/// The rows of the issues from `issues` on, in their order.
pub open spec fn rows_from(rows: Seq<TaskRow>, issues: nat) -> Seq<TaskRow>
    decreases rows.len(),
{
    if rows.len() == 0 {
        Seq::empty()
    } else if rows.last().issue_id >= issues {
        rows_from(rows.drop_last(), issues).push(rows.last())
    } else {
        rows_from(rows.drop_last(), issues)
    }
}

/// The rows of the issues before `issues` are rows of the table, all of them
/// of such issues, and they name no issue and subscriber twice if the table
/// names none twice.
pub proof fn lemma_rows_below(rows: Seq<TaskRow>, issues: nat)
    ensures
        rows_below(rows, issues).len() <= rows.len(),
        forall|k: int|
            0 <= k < rows_below(rows, issues).len() ==> {
                &&& (#[trigger] rows_below(rows, issues)[k]).issue_id < issues
                &&& rows.contains(rows_below(rows, issues)[k])
            },
        keys_unique(rows) ==> keys_unique(rows_below(rows, issues)),
    decreases rows.len(),
{
    if rows.len() > 0 {
        let head = rows.drop_last();
        lemma_rows_below(head, issues);
        let kept = rows_below(rows, issues);
        let before = rows_below(head, issues);
        assert forall|k: int| 0 <= k < kept.len() implies {
            &&& (#[trigger] kept[k]).issue_id < issues
            &&& rows.contains(kept[k])
        } by {
            if k < before.len() {
                assert(kept[k] == before[k]);
                assert(head.contains(before[k]));
                let i = choose|i: int| 0 <= i < head.len() && head[i] == before[k];
                assert(rows[i] == kept[k]);
            } else {
                assert(rows[rows.len() - 1] == kept[k]);
            }
        }
        if keys_unique(rows) {
            assert(keys_unique(head)) by {
                assert forall|a: int, b: int| 0 <= a < b < head.len() implies !same_key(
                    #[trigger] head[a],
                    #[trigger] head[b].issue_id,
                    head[b].subscriber_id,
                ) by {
                    assert(!same_key(rows[a], rows[b].issue_id, rows[b].subscriber_id));
                }
            }
            assert forall|a: int, b: int| 0 <= a < b < kept.len() implies !same_key(
                #[trigger] kept[a],
                #[trigger] kept[b].issue_id,
                kept[b].subscriber_id,
            ) by {
                if b < before.len() {
                    assert(!same_key(before[a], before[b].issue_id, before[b].subscriber_id));
                } else {
                    assert(kept[a] == before[a]);
                    assert(head.contains(before[a]));
                    let i = choose|i: int| 0 <= i < head.len() && head[i] == before[a];
                    assert(!same_key(rows[i], rows[rows.len() - 1].issue_id, rows[rows.len() - 1].subscriber_id));
                }
            }
        }
    }
}

/// Where every row is of an issue before `issues`, the rows of such issues are
/// all the rows, and none is of an issue from `issues` on.
pub proof fn lemma_rows_all_below(rows: Seq<TaskRow>, issues: nat)
    requires
        forall|i: int| 0 <= i < rows.len() ==> (#[trigger] rows[i]).issue_id < issues,
    ensures
        rows_below(rows, issues) == rows,
        rows_from(rows, issues) == Seq::<TaskRow>::empty(),
    decreases rows.len(),
{
    if rows.len() > 0 {
        let head = rows.drop_last();
        assert forall|i: int| 0 <= i < head.len() implies (#[trigger] head[i]).issue_id < issues by {
            assert(head[i] == rows[i]);
        }
        lemma_rows_all_below(head, issues);
        assert(rows[rows.len() - 1].issue_id < issues);
        assert(head.push(rows.last()) =~= rows);
    }
}

/// Rows of issues from `issues` on, added at the end of a table, are not among
/// the rows of the issues before `issues`; they are what is added to the rows
/// of the issues from `issues` on.
pub proof fn lemma_rows_added_from(rows: Seq<TaskRow>, added: Seq<TaskRow>, issues: nat)
    requires
        forall|i: int| 0 <= i < added.len() ==> (#[trigger] added[i]).issue_id >= issues,
    ensures
        rows_below(rows + added, issues) == rows_below(rows, issues),
        rows_from(rows + added, issues) == rows_from(rows, issues) + added,
    decreases added.len(),
{
    if added.len() == 0 {
        assert(rows + added =~= rows);
        assert(rows_from(rows, issues) + added =~= rows_from(rows, issues));
    } else {
        let head = added.drop_last();
        assert forall|i: int| 0 <= i < head.len() implies (#[trigger] head[i]).issue_id >= issues by {
            assert(head[i] == added[i]);
        }
        lemma_rows_added_from(rows, head, issues);
        assert((rows + added).drop_last() =~= rows + head);
        assert((rows + added).last() == added[added.len() - 1]);
        assert((rows_from(rows, issues) + head).push(added.last()) =~= rows_from(rows, issues) + added);
    }
}

/// The queue as a mathematical value: its rows in order, and its policy.
pub struct QueueView {
    pub rows: Seq<TaskRow>,
    /// Retries granted to each row after transient failures.
    pub retry_limit: u32,
    /// Seconds that a claim lasts.
    pub lease_secs: u64,
}

impl QueueView {
    /// The invariant of the queue: one row at most per issue and subscriber.
    pub open spec fn wf(self) -> bool {
        keys_unique(self.rows)
    }

    /// The same queue with other rows.
    pub open spec fn with_rows(self, rows: Seq<TaskRow>) -> QueueView {
        QueueView { rows, ..self }
    }

    /// Rows for these subscribers can be added: no subscriber is named twice,
    /// and none has a row for this issue already.
    pub open spec fn admits(self, issue_id: IssueId, ids: Seq<SubscriberId>) -> bool {
        &&& ids.no_duplicates()
        &&& forall|k: int| 0 <= k < ids.len() ==> !holds_key(self.rows, issue_id, #[trigger] ids[k])
    }

    /// The queue after `enqueue_many`: all the rows are added, or none.
    pub open spec fn enqueue_many(self, issue_id: IssueId, ids: Seq<SubscriberId>) -> QueueView {
        if self.admits(issue_id, ids) {
            self.with_rows(self.rows + fresh_rows(issue_id, ids))
        } else {
            self
        }
    }

    /// The last instant of a claim made at `now`.
    pub open spec fn lease_end(self, now: u64) -> u64 {
        if now + self.lease_secs > u64::MAX {
            u64::MAX
        } else {
            (now + self.lease_secs) as u64
        }
    }

    /// The position of the row that `dequeue_one` claims at `now`: the first
    /// that can be claimed.
    pub open spec fn next_claim(self, now: u64) -> Option<int> {
        first_index(self.rows, |row: TaskRow| claimable(row, now), 0)
    }

    /// The queue after `dequeue_one` at `now`, and the task handed out.
    pub open spec fn dequeue_one(self, now: u64) -> (QueueView, Option<DeliveryTask>) {
        match self.next_claim(now) {
            Some(i) => {
                let row = self.rows[i];
                let until = self.lease_end(now);
                (
                    self.with_rows(self.rows.update(i, TaskRow { claimed_until: Some(until), ..row })),
                    Some(
                        DeliveryTask {
                            issue_id: row.issue_id,
                            subscriber_id: row.subscriber_id,
                            retry_count: row.retry_count,
                            claimed_until: until,
                        },
                    ),
                )
            },
            None => (self, None),
        }
    }

    /// The position of the row that is pending under the claim of `task`.
    pub open spec fn claim_index(self, task: DeliveryTask) -> Option<int> {
        first_index(self.rows, |row: TaskRow| holds_claim(row, task), 0)
    }

    /// The queue after `complete`, and its answer.
    pub open spec fn complete(self, task: DeliveryTask) -> (QueueView, Result<(), QueueError>) {
        match self.claim_index(task) {
            Some(i) => (self.with_rows(self.rows.remove(i)), Ok(())),
            None => (self, Err(QueueError::ClaimNotHeld)),
        }
    }

    /// A failure with this error, on a row with this many retries behind it,
    /// is followed by another attempt.
    pub open spec fn retries(self, error: SendError, retry_count: u32) -> bool {
        error == SendError::Transient && retry_count < self.retry_limit
    }

    /// The row after a failed attempt.
    pub open spec fn failed_row(self, row: TaskRow, error: SendError) -> TaskRow {
        if self.retries(error, row.retry_count) {
            TaskRow {
                retry_count: (row.retry_count + 1) as u32,
                claimed_until: None,
                last_error: Some(error),
                ..row
            }
        } else {
            TaskRow { status: TaskStatus::Failed, claimed_until: None, last_error: Some(error), ..row }
        }
    }

    /// The queue after `fail`, and its answer.
    pub open spec fn fail(self, task: DeliveryTask, error: SendError) -> (
        QueueView,
        Result<Disposition, QueueError>,
    ) {
        match self.claim_index(task) {
            Some(i) => {
                let row = self.rows[i];
                (
                    self.with_rows(self.rows.update(i, self.failed_row(row, error))),
                    Ok(
                        if self.retries(error, row.retry_count) {
                            Disposition::Retry
                        } else {
                            Disposition::Failed
                        },
                    ),
                )
            },
            None => (self, Err(QueueError::ClaimNotHeld)),
        }
    }

    /// The queue without the rows of the issues from `issues` on.
    pub open spec fn without_issues_from(self, issues: nat) -> QueueView {
        self.with_rows(rows_below(self.rows, issues))
    }
}

/// The delivery queue.
pub struct DeliveryQueue {
    rows: Vec<TaskRow>,
    retry_limit: u32,
    lease_secs: u64,
}

impl View for DeliveryQueue {
    type V = QueueView;

    closed spec fn view(&self) -> QueueView {
        QueueView { rows: self.rows@, retry_limit: self.retry_limit, lease_secs: self.lease_secs }
    }
}

impl DeliveryQueue {
    /// The invariant that every operation keeps.
    pub open spec fn wf(&self) -> bool {
        self@.wf()
    }

    /// The queue that `new` makes.
    pub open spec fn new_view() -> QueueView {
        QueueView {
            rows: Seq::empty(),
            retry_limit: DEFAULT_RETRY_LIMIT,
            lease_secs: DEFAULT_LEASE_SECS,
        }
    }

    /// An empty queue with the default policy.
    pub fn new() -> (q: DeliveryQueue)
        ensures
            q.wf(),
            q@ == Self::new_view(),
    {
        DeliveryQueue { rows: Vec::new(), retry_limit: DEFAULT_RETRY_LIMIT, lease_secs: DEFAULT_LEASE_SECS }
    }

    /// An empty queue that grants `retry_limit` retries and whose claims last
    /// `lease_secs` seconds.
    pub fn with_policy(retry_limit: u32, lease_secs: u64) -> (q: DeliveryQueue)
        ensures
            q.wf(),
            q@.rows == Seq::<TaskRow>::empty(),
            q@.retry_limit == retry_limit,
            q@.lease_secs == lease_secs,
    {
        DeliveryQueue { rows: Vec::new(), retry_limit, lease_secs }
    }

    /// The queue that holds these rows, as they were written down before the
    /// process ended. Rows that name an issue and subscriber twice are no
    /// queue: they are refused.
    pub fn restore(rows: Vec<TaskRow>, retry_limit: u32, lease_secs: u64) -> (r: Result<
        DeliveryQueue,
        QueueError,
    >)
        ensures
            match r {
                Ok(q) => keys_unique(rows@) && q.wf() && q@ == (QueueView {
                    rows: rows@,
                    retry_limit,
                    lease_secs,
                }),
                Err(e) => !keys_unique(rows@) && e == QueueError::DuplicateTask,
            },
    {
        let mut j: usize = 0;
        while j < rows.len()
            invariant
                j <= rows.len(),
                forall|a: int, b: int|
                    #![trigger rows@[a], rows@[b]]
                    0 <= a < b < j ==> !same_key(rows@[a], rows@[b].issue_id, rows@[b].subscriber_id),
            decreases rows.len() - j,
        {
            let mut i: usize = 0;
            while i < j
                invariant
                    i <= j < rows.len(),
                    forall|a: int|
                        #![trigger rows@[a]]
                        0 <= a < i ==> !same_key(rows@[a], rows@[j as int].issue_id, rows@[j as int].subscriber_id),
                decreases j - i,
            {
                if rows[i].issue_id == rows[j].issue_id && rows[i].subscriber_id
                    == rows[j].subscriber_id {
                    assert(same_key(rows@[i as int], rows@[j as int].issue_id, rows@[j as int].subscriber_id));
                    return Err(QueueError::DuplicateTask);
                }
                i += 1;
            }
            j += 1;
        }
        Ok(DeliveryQueue { rows, retry_limit, lease_secs })
    }

    /// The number of rows, pending and failed.
    pub fn len(&self) -> (n: usize)
        ensures
            n == self@.rows.len(),
    {
        self.rows.len()
    }

    /// The retries granted to each row.
    pub fn retry_limit(&self) -> (n: u32)
        ensures
            n == self@.retry_limit,
    {
        self.retry_limit
    }

    /// The rows, in order.
    pub fn rows(&self) -> (rows: &Vec<TaskRow>)
        ensures
            rows@ == self@.rows,
    {
        &self.rows
    }

    /// The seconds that a claim lasts.
    pub fn lease_secs(&self) -> (n: u64)
        ensures
            n == self@.lease_secs,
    {
        self.lease_secs
    }

    /// The number of rows with this status: of those that wait for delivery,
    /// or of those that were given up.
    pub fn count(&self, status: TaskStatus) -> (n: usize)
        ensures
            n == count_status(self@.rows, status),
    {
        let mut n: usize = 0;
        let mut i: usize = 0;
        while i < self.rows.len()
            invariant
                i <= self.rows.len(),
                n <= i,
                n == count_status(self.rows@.take(i as int), status),
            decreases self.rows.len() - i,
        {
            proof {
                assert(self.rows@.take(i as int + 1).drop_last() =~= self.rows@.take(i as int));
            }
            let same = match (self.rows[i].status, status) {
                (TaskStatus::Pending, TaskStatus::Pending) => true,
                (TaskStatus::Failed, TaskStatus::Failed) => true,
                _ => false,
            };
            if same {
                n += 1;
            }
            i += 1;
        }
        assert(self.rows@.take(i as int) =~= self.rows@);
        n
    }

    /// The rows with this status, in their order: those that wait for delivery,
    /// or those that were given up and are kept for the operator.
    pub fn with_status(&self, status: TaskStatus) -> (picked: Vec<TaskRow>)
        ensures
            picked@ == rows_with_status(self@.rows, status),
    {
        let mut picked: Vec<TaskRow> = Vec::new();
        let mut i: usize = 0;
        while i < self.rows.len()
            invariant
                i <= self.rows.len(),
                picked@ == rows_with_status(self.rows@.take(i as int), status),
            decreases self.rows.len() - i,
        {
            proof {
                assert(self.rows@.take(i as int + 1).drop_last() =~= self.rows@.take(i as int));
            }
            let same = match (self.rows[i].status, status) {
                (TaskStatus::Pending, TaskStatus::Pending) => true,
                (TaskStatus::Failed, TaskStatus::Failed) => true,
                _ => false,
            };
            if same {
                picked.push(self.rows[i]);
            }
            i += 1;
        }
        assert(self.rows@.take(i as int) =~= self.rows@);
        picked
    }

    /// The row for this issue and subscriber, if there is one.
    pub fn row(&self, issue_id: IssueId, subscriber_id: SubscriberId) -> (r: Option<TaskRow>)
        ensures
            r == row_of(self@.rows, issue_id, subscriber_id),
            r is Some <==> holds_key(self@.rows, issue_id, subscriber_id),
    {
        let ghost p = |row: TaskRow| same_key(row, issue_id, subscriber_id);
        let mut i: usize = 0;
        while i < self.rows.len()
            invariant
                i <= self.rows.len(),
                p == |row: TaskRow| same_key(row, issue_id, subscriber_id),
                forall|j: int| 0 <= j < i ==> !p(#[trigger] self.rows@[j]),
            decreases self.rows.len() - i,
        {
            if self.rows[i].issue_id == issue_id && self.rows[i].subscriber_id == subscriber_id {
                proof {
                    assert(p(self.rows@[i as int]));
                    lemma_first_index_is(self.rows@, p, i as int);
                }
                return Some(self.rows[i]);
            }
            assert(!p(self.rows@[i as int]));
            i += 1;
        }
        proof {
            lemma_first_index_none(self.rows@, p);
            assert forall|j: int| 0 <= j < self.rows@.len() implies !same_key(
                #[trigger] self.rows@[j],
                issue_id,
                subscriber_id,
            ) by {
                assert(!p(self.rows@[j]));
            }
        }
        None
    }

    /// Whether a row for this issue and subscriber exists.
    pub fn contains(&self, issue_id: IssueId, subscriber_id: SubscriberId) -> (found: bool)
        ensures
            found == holds_key(self@.rows, issue_id, subscriber_id),
    {
        let mut i: usize = 0;
        while i < self.rows.len()
            invariant
                i <= self.rows.len(),
                forall|j: int| 0 <= j < i ==> !same_key(#[trigger] self.rows@[j], issue_id, subscriber_id),
            decreases self.rows.len() - i,
        {
            if self.rows[i].issue_id == issue_id && self.rows[i].subscriber_id == subscriber_id {
                return true;
            }
            i += 1;
        }
        false
    }

    /// Adds one pending row per subscriber, or none at all: the queue rejects
    /// the whole list if it names a subscriber twice or one who has a row for
    /// this issue already.
    pub fn enqueue_many(&mut self, issue_id: IssueId, subscriber_ids: &Vec<SubscriberId>) -> (r: Result<
        (),
        QueueError,
    >)
        requires
            old(self).wf(),
        ensures
            final(self).wf(),
            final(self)@ == old(self)@.enqueue_many(issue_id, subscriber_ids@),
            r == if old(self)@.admits(issue_id, subscriber_ids@) {
                Ok::<(), QueueError>(())
            } else {
                Err::<(), QueueError>(QueueError::DuplicateTask)
            },
    {
        let start = self.rows.len();
        let ghost before = self@;
        let ghost ids = subscriber_ids@;
        let mut k: usize = 0;
        while k < subscriber_ids.len()
            invariant
                k <= subscriber_ids.len(),
                ids == subscriber_ids@,
                before == old(self)@,
                start == before.rows.len(),
                keys_unique(before.rows),
                self@ == before.with_rows(before.rows + fresh_rows(issue_id, ids.take(k as int))),
                self.wf(),
                before.admits(issue_id, ids.take(k as int)),
            decreases subscriber_ids.len() - k,
        {
            let id = subscriber_ids[k];
            if self.contains(issue_id, id) {
                proof {
                    let i = choose|i: int|
                        0 <= i < self@.rows.len() && same_key(#[trigger] self@.rows[i], issue_id, id);
                    if i < before.rows.len() {
                        assert(same_key(before.rows[i], issue_id, ids[k as int]));
                    } else {
                        let j = i - before.rows.len();
                        assert(ids.take(k as int)[j] == ids[j]);
                        assert(ids[j] == ids[k as int]);
                    }
                    assert(!before.admits(issue_id, ids));
                }
                self.rows.truncate(start);
                assert(self@.rows =~= before.rows);
                return Err(QueueError::DuplicateTask);
            }
            self.rows.push(
                TaskRow {
                    issue_id,
                    subscriber_id: id,
                    retry_count: 0,
                    status: TaskStatus::Pending,
                    claimed_until: None,
                    last_error: None,
                },
            );
            proof {
                let grown = ids.take(k as int + 1);
                assert(grown =~= ids.take(k as int).push(id));
                assert(self@.rows =~= before.rows + fresh_rows(issue_id, grown));
                assert(grown.no_duplicates()) by {
                    assert forall|a: int, b: int| 0 <= a < grown.len() && 0 <= b < grown.len() && a != b implies grown[a] != grown[b] by {
                        if a == k as int || b == k as int {
                            let other = if a == k as int { b } else { a };
                            let at = before.rows.len() + other;
                            assert(same_key((before.rows + fresh_rows(issue_id, ids.take(k as int)))[at], issue_id, ids[other]));
                        } else {
                            assert(ids.take(k as int)[a] == grown[a]);
                            assert(ids.take(k as int)[b] == grown[b]);
                        }
                    }
                }
                assert forall|m: int| 0 <= m < grown.len() implies !holds_key(before.rows, issue_id, #[trigger] grown[m]) by {
                    if m < k as int {
                        assert(ids.take(k as int)[m] == grown[m]);
                    } else {
                        if holds_key(before.rows, issue_id, id) {
                            let i = choose|i: int| 0 <= i < before.rows.len() && same_key(#[trigger] before.rows[i], issue_id, id);
                            assert(same_key((before.rows + fresh_rows(issue_id, ids.take(k as int)))[i], issue_id, id));
                        }
                    }
                }
                assert(keys_unique(self@.rows)) by {
                    let rows = self@.rows;
                    let last = rows.len() - 1;
                    assert forall|i: int, j: int| 0 <= i < j < rows.len() implies !same_key(#[trigger] rows[i], #[trigger] rows[j].issue_id, rows[j].subscriber_id) by {
                        let prior = before.rows + fresh_rows(issue_id, ids.take(k as int));
                        if j < last {
                            assert(rows[i] == prior[i]);
                            assert(rows[j] == prior[j]);
                        } else {
                            assert(rows[i] == prior[i]);
                        }
                    }
                }
            }
            k += 1;
        }
        assert(ids.take(k as int) =~= ids);
        Ok(())
    }

    /// The position of the first row that can be claimed at `now`.
    fn find_claimable(&self, now: u64) -> (r: Option<usize>)
        ensures
            match r {
                Some(i) => self@.next_claim(now) == Some(i as int) && i < self@.rows.len(),
                None => self@.next_claim(now) is None,
            },
    {
        let ghost p = |row: TaskRow| claimable(row, now);
        let mut i: usize = 0;
        while i < self.rows.len()
            invariant
                i <= self.rows.len(),
                p == |row: TaskRow| claimable(row, now),
                forall|j: int| 0 <= j < i ==> !p(#[trigger] self.rows@[j]),
            decreases self.rows.len() - i,
        {
            let row = self.rows[i];
            let free = match row.claimed_until {
                Some(until) => until < now,
                None => true,
            };
            let pending = match row.status {
                TaskStatus::Pending => true,
                TaskStatus::Failed => false,
            };
            if pending && free {
                proof {
                    assert(p(self.rows@[i as int]));
                    lemma_first_index_is(self.rows@, p, i as int);
                }
                return Some(i);
            }
            assert(!p(self.rows@[i as int]));
            i += 1;
        }
        proof {
            lemma_first_index_none(self.rows@, p);
        }
        None
    }

    /// The position of the row that is pending under the claim of `task`.
    fn find_claim(&self, task: &DeliveryTask) -> (r: Option<usize>)
        ensures
            match r {
                Some(i) => self@.claim_index(*task) == Some(i as int) && i < self@.rows.len(),
                None => self@.claim_index(*task) is None,
            },
    {
        let ghost p = |row: TaskRow| holds_claim(row, *task);
        let mut i: usize = 0;
        while i < self.rows.len()
            invariant
                i <= self.rows.len(),
                p == |row: TaskRow| holds_claim(row, *task),
                forall|j: int| 0 <= j < i ==> !p(#[trigger] self.rows@[j]),
            decreases self.rows.len() - i,
        {
            let row = self.rows[i];
            let claimed = match row.claimed_until {
                Some(until) => until == task.claimed_until,
                None => false,
            };
            let pending = match row.status {
                TaskStatus::Pending => true,
                TaskStatus::Failed => false,
            };
            if pending && claimed && row.issue_id == task.issue_id && row.subscriber_id
                == task.subscriber_id && row.retry_count == task.retry_count {
                proof {
                    assert(p(self.rows@[i as int]));
                    lemma_first_index_is(self.rows@, p, i as int);
                }
                return Some(i);
            }
            assert(!p(self.rows@[i as int]));
            i += 1;
        }
        proof {
            lemma_first_index_none(self.rows@, p);
        }
        None
    }

    /// Claims the first row that is pending and not under a claim that reaches
    /// `now`, and hands it out; the claim lasts through `now + lease_secs`.
    /// Rows under a live claim are passed over. Without such a row the queue
    /// stays as it is and the answer is `None`.
    pub fn dequeue_one(&mut self, now: u64) -> (r: Option<DeliveryTask>)
        requires
            old(self).wf(),
        ensures
            final(self).wf(),
            (final(self)@, r) == old(self)@.dequeue_one(now),
    {
        match self.find_claimable(now) {
            Some(i) => {
                let row = self.rows[i];
                let until = now.saturating_add(self.lease_secs);
                self.rows.set(i, TaskRow { claimed_until: Some(until), ..row });
                proof {
                    lemma_update_keeps_keys(old(self)@.rows, i as int, self@.rows[i as int]);
                }
                Some(
                    DeliveryTask {
                        issue_id: row.issue_id,
                        subscriber_id: row.subscriber_id,
                        retry_count: row.retry_count,
                        claimed_until: until,
                    },
                )
            },
            None => None,
        }
    }

    /// Deletes the row that `task` stands for, which acknowledges the delivery.
    /// The row must still be pending under the claim of `task`; otherwise the
    /// queue stays as it is.
    pub fn complete(&mut self, task: &DeliveryTask) -> (r: Result<(), QueueError>)
        requires
            old(self).wf(),
        ensures
            final(self).wf(),
            (final(self)@, r) == old(self)@.complete(*task),
    {
        match self.find_claim(task) {
            Some(i) => {
                self.rows.remove(i);
                proof {
                    lemma_remove_keeps_keys(old(self)@.rows, i as int);
                }
                Ok(())
            },
            None => Err(QueueError::ClaimNotHeld),
        }
    }

    /// Records a failed delivery of the row that `task` stands for. After a
    /// transient failure with retries left the claim is released and the retry
    /// counted; after a permanent failure, or with the retries used up, the
    /// row is marked failed and kept. The row must still be pending under the
    /// claim of `task`; otherwise the queue stays as it is.
    pub fn fail(&mut self, task: &DeliveryTask, error: SendError) -> (r: Result<Disposition, QueueError>)
        requires
            old(self).wf(),
        ensures
            final(self).wf(),
            (final(self)@, r) == old(self)@.fail(*task, error),
    {
        match self.find_claim(task) {
            Some(i) => {
                let row = self.rows[i];
                let retry = retries(self.retry_limit, error, row.retry_count);
                let next = if retry {
                    TaskRow {
                        retry_count: row.retry_count + 1,
                        claimed_until: None,
                        last_error: Some(error),
                        ..row
                    }
                } else {
                    TaskRow {
                        status: TaskStatus::Failed,
                        claimed_until: None,
                        last_error: Some(error),
                        ..row
                    }
                };
                self.rows.set(i, next);
                proof {
                    lemma_update_keeps_keys(old(self)@.rows, i as int, next);
                }
                Ok(if retry { Disposition::Retry } else { Disposition::Failed })
            },
            None => Err(QueueError::ClaimNotHeld),
        }
    }

    /// Drops the rows of the issues from `issues` on.
    pub(crate) fn drop_issues_from(&mut self, issues: usize)
        requires
            old(self).wf(),
        ensures
            final(self).wf(),
            final(self)@ == old(self)@.without_issues_from(issues as nat),
    {
        let mut kept: Vec<TaskRow> = Vec::new();
        let mut i: usize = 0;
        while i < self.rows.len()
            invariant
                i <= self.rows.len(),
                kept@ == rows_below(self.rows@.take(i as int), issues as nat),
            decreases self.rows.len() - i,
        {
            proof {
                assert(self.rows@.take(i as int + 1).drop_last() =~= self.rows@.take(i as int));
            }
            if self.rows[i].issue_id < issues as u64 {
                kept.push(self.rows[i]);
            }
            i += 1;
        }
        proof {
            assert(self.rows@.take(i as int) =~= self.rows@);
            lemma_rows_below(self.rows@, issues as nat);
        }
        self.rows = kept;
    }

    /// The rows of the issues from `issues` on, in their order.
    pub fn rows_of_issues_from(&self, issues: usize) -> (picked: Vec<TaskRow>)
        ensures
            picked@ == rows_from(self@.rows, issues as nat),
    {
        let mut picked: Vec<TaskRow> = Vec::new();
        let mut i: usize = 0;
        while i < self.rows.len()
            invariant
                i <= self.rows.len(),
                picked@ == rows_from(self.rows@.take(i as int), issues as nat),
            decreases self.rows.len() - i,
        {
            proof {
                assert(self.rows@.take(i as int + 1).drop_last() =~= self.rows@.take(i as int));
            }
            if self.rows[i].issue_id >= issues as u64 {
                picked.push(self.rows[i]);
            }
            i += 1;
        }
        assert(self.rows@.take(i as int) =~= self.rows@);
        picked
    }
}

/// Whether a failure with this error, after `retry_count` retries, is followed
/// by another attempt: only a transient failure is, and only while the retries
/// granted are not used up.
pub fn retries(retry_limit: u32, error: SendError, retry_count: u32) -> (r: bool)
    ensures
        r == (error == SendError::Transient && retry_count < retry_limit),
{
    match error {
        SendError::Transient => retry_count < retry_limit,
        SendError::Permanent => false,
    }
}

/// Replacing a row by one with the same key keeps the keys unique.
pub proof fn lemma_update_keeps_keys(rows: Seq<TaskRow>, i: int, row: TaskRow)
    requires
        keys_unique(rows),
        0 <= i < rows.len(),
        same_key(row, rows[i].issue_id, rows[i].subscriber_id),
    ensures
        keys_unique(rows.update(i, row)),
{
    let next = rows.update(i, row);
    assert forall|a: int, b: int| 0 <= a < b < next.len() implies !same_key(
        #[trigger] next[a],
        #[trigger] next[b].issue_id,
        next[b].subscriber_id,
    ) by {
        assert(!same_key(rows[a], rows[b].issue_id, rows[b].subscriber_id));
    }
}

/// Removing a row keeps the keys unique.
pub proof fn lemma_remove_keeps_keys(rows: Seq<TaskRow>, i: int)
    requires
        keys_unique(rows),
        0 <= i < rows.len(),
    ensures
        keys_unique(rows.remove(i)),
{
    let next = rows.remove(i);
    assert forall|a: int, b: int| 0 <= a < b < next.len() implies !same_key(
        #[trigger] next[a],
        #[trigger] next[b].issue_id,
        next[b].subscriber_id,
    ) by {
        let a0 = if a < i { a } else { a + 1 };
        let b0 = if b < i { b } else { b + 1 };
        assert(next[a] == rows[a0]);
        assert(next[b] == rows[b0]);
        assert(!same_key(rows[a0], rows[b0].issue_id, rows[b0].subscriber_id));
    }
}

} // verus!
