//! The persistent state of the pipeline: the log of issues, the delivery
//! queue and the idempotency store, and the means to undo what a publication
//! wrote so far.
//!
//! The store keeps the three tables consistent: every row of the queue is
//! for an issue that the log holds. A publication writes to all three. It
//! takes a savepoint first; if a step fails, it rolls the store back to the
//! savepoint, so that nobody sees an issue without its tasks or tasks without
//! the saved response. A rollback drops the issues and saved responses that
//! came after the savepoint, and the rows of the queue that are for those
//! issues; what the workers did to the rows of earlier issues in the
//! meantime stays.

use vstd::prelude::*;
use crate::gateway::SendError;
use crate::idempotency::{
    is_for, records_after_save, records_truncated, records_unique, saved_response, IdempotencyRecord,
    IdempotencyStore, RecordView, ResponseView, SaveError, SavedResponse,
};
use crate::ids::{IssueId, SubscriberId, UserId};
use crate::issue::{ids_in_order, issues_truncated, Issue, IssueLog, IssueView};
use crate::queue::{
    claimable, fresh_rows, holds_claim, lemma_rows_added_from, lemma_rows_all_below,
    lemma_rows_below, rows_below, rows_from, DeliveryQueue, DeliveryTask, Disposition, QueueError, QueueView,
    TaskRow,
};
use crate::seqs::lemma_first_index;

verus! {

/// The sizes of the log of issues and of the idempotency store at one moment.
/// Only `Store::begin` makes one.
#[derive(Clone, Copy, Debug, PartialEq, Eq)]
pub struct Savepoint {
    issues: usize,
    records: usize,
}

impl Savepoint {
    /// The number of issues.
    pub closed spec fn spec_issues(self) -> nat {
        self.issues as nat
    }

    /// The number of rows of the idempotency store.
    pub closed spec fn spec_records(self) -> nat {
        self.records as nat
    }

    /// The number of issues.
    pub fn issues(&self) -> (n: usize)
        ensures
            n == self.spec_issues(),
    {
        self.issues
    }

    /// The number of rows of the idempotency store.
    pub fn records(&self) -> (n: usize)
        ensures
            n == self.spec_records(),
    {
        self.records
    }
}

/// The rows of a table from position `from` on; none, if the table is shorter.
pub open spec fn rows_since<A>(rows: Seq<A>, from: nat) -> Seq<A> {
    if from <= rows.len() {
        rows.skip(from as int)
    } else {
        Seq::empty()
    }
}

/// The store as a mathematical value.
pub struct StoreView {
    pub issues: Seq<IssueView>,
    pub queue: QueueView,
    pub records: Seq<RecordView>,
}

impl StoreView {
    /// Every row of the queue is for an issue that the log holds.
    pub open spec fn tasks_have_issues(self) -> bool {
        forall|i: int|
            0 <= i < self.queue.rows.len() ==> (#[trigger] self.queue.rows[i]).issue_id
                < self.issues.len()
    }

    /// The invariant of the store: those of its three tables, and that every
    /// row of the queue is for an issue that the log holds.
    pub open spec fn wf(self) -> bool {
        &&& ids_in_order(self.issues)
        &&& self.queue.wf()
        &&& records_unique(self.records)
        &&& self.tasks_have_issues()
    }

    /// The store fits in memory.
    pub open spec fn sized(self) -> bool {
        &&& self.issues.len() <= usize::MAX
        &&& self.queue.rows.len() <= usize::MAX
        &&& self.records.len() <= usize::MAX
    }

    /// The identity that the next issue gets.
    pub open spec fn next_issue_id(self) -> IssueId {
        self.issues.len() as IssueId
    }

    /// The store with one more issue of this content.
    pub open spec fn insert_issue(self, title: Seq<char>, text_body: Seq<char>, html_body: Seq<char>) -> StoreView {
        StoreView {
            issues: self.issues.push(
                IssueView { id: self.next_issue_id(), title, text_body, html_body },
            ),
            ..self
        }
    }

    /// The queue takes rows for these subscribers and this issue: the log holds
    /// the issue, and the queue admits the rows.
    pub open spec fn admits(self, issue_id: IssueId, ids: Seq<SubscriberId>) -> bool {
        issue_id < self.issues.len() && self.queue.admits(issue_id, ids)
    }

    /// The store after `enqueue_many`: all the rows are added, or none.
    pub open spec fn enqueue_many(self, issue_id: IssueId, ids: Seq<SubscriberId>) -> StoreView {
        if issue_id < self.issues.len() {
            StoreView { queue: self.queue.enqueue_many(issue_id, ids), ..self }
        } else {
            self
        }
    }

    /// The store after `save`.
    pub open spec fn save(self, user_id: UserId, key: Seq<char>, response: ResponseView) -> StoreView {
        StoreView { records: records_after_save(self.records, user_id, key, response), ..self }
    }

    /// The store with another queue.
    pub open spec fn with_queue(self, queue: QueueView) -> StoreView {
        StoreView { queue, ..self }
    }

    /// The store after a rollback to a savepoint that names these sizes: the
    /// log and the idempotency store are cut back to them, where they have
    /// grown beyond, and the rows of the issues that the savepoint does not
    /// cover leave the queue.
    pub open spec fn rollback(self, issues: nat, records: nat) -> StoreView {
        StoreView {
            issues: issues_truncated(self.issues, issues),
            queue: self.queue.without_issues_from(issues),
            records: records_truncated(self.records, records),
        }
    }
}

/// A publication that is interrupted leaves no trace. Whether it has written
/// the issue only, the issue and its tasks, or the saved response as well, a
/// rollback to the savepoint taken before gives the store as it was: neither
/// the issue nor any of its tasks nor the response is left.
pub proof fn lemma_no_partial_publish(
    base: StoreView,
    title: Seq<char>,
    text_body: Seq<char>,
    html_body: Seq<char>,
    ids: Seq<SubscriberId>,
    user_id: UserId,
    key: Seq<char>,
    response: ResponseView,
)
    requires
        base.wf(),
        base.sized(),
    ensures
        ({
            let issue_id = base.next_issue_id();
            let with_issue = base.insert_issue(title, text_body, html_body);
            let with_tasks = with_issue.enqueue_many(issue_id, ids);
            let with_record = with_tasks.save(user_id, key, response);
            &&& with_issue.rollback(base.issues.len(), base.records.len()) == base
            &&& with_tasks.rollback(base.issues.len(), base.records.len()) == base
            &&& with_record.rollback(base.issues.len(), base.records.len()) == base
        }),
{
    let issue_id = base.next_issue_id();
    let with_issue = base.insert_issue(title, text_body, html_body);
    let with_tasks = with_issue.enqueue_many(issue_id, ids);
    let with_record = with_tasks.save(user_id, key, response);
    let added = with_tasks.queue.rows.skip(base.queue.rows.len() as int);
    assert(with_tasks.queue.rows =~= base.queue.rows + added);
    assert forall|i: int| 0 <= i < added.len() implies (#[trigger] added[i]).issue_id
        >= base.issues.len() by {
        assert(added[i] == fresh_rows(issue_id, ids)[i]);
    }
    lemma_rows_all_below(base.queue.rows, base.issues.len());
    lemma_rows_added_from(base.queue.rows, added, base.issues.len());
    let n = base.issues.len();
    let m = base.records.len();
    assert(with_issue.issues.take(n as int) =~= base.issues);
    assert(base.records.take(m as int) =~= base.records);
    assert(with_record.records.take(m as int) =~= base.records);
    assert(with_issue.rollback(n, m).queue == base.queue);
    assert(with_tasks.rollback(n, m).queue == base.queue);
    assert(with_record.rollback(n, m).queue == base.queue);
}

/// A rollback keeps what the workers did meanwhile. Where a publication has
/// added an issue with its tasks, and rows of earlier issues were claimed,
/// completed or marked since, the rollback drops the tasks of the new issue
/// and no other row.
pub proof fn lemma_rollback_keeps_earlier_rows(store: StoreView, issues: nat, records: nat)
    requires
        store.wf(),
    ensures
        store.rollback(issues, records).wf(),
        forall|i: int|
            0 <= i < store.queue.rows.len() && (#[trigger] store.queue.rows[i]).issue_id < issues
                ==> store.rollback(issues, records).queue.rows.contains(store.queue.rows[i]),
        forall|k: int|
            0 <= k < store.rollback(issues, records).queue.rows.len() ==> store.queue.rows.contains(
                #[trigger] store.rollback(issues, records).queue.rows[k],
            ) && store.rollback(issues, records).queue.rows[k].issue_id < issues,
{
    let after = store.rollback(issues, records);
    lemma_rows_below(store.queue.rows, issues);
    lemma_rows_below_keeps(store.queue.rows, issues);
    assert forall|a: int, b: int| 0 <= a < b < after.records.len() implies !is_for(
        #[trigger] after.records[a],
        #[trigger] after.records[b].user_id,
        after.records[b].key,
    ) by {
        assert(after.records[a] == store.records[a]);
        assert(after.records[b] == store.records[b]);
    }
    assert forall|i: int| 0 <= i < after.queue.rows.len() implies (#[trigger] after.queue.rows[i]).issue_id
        < after.issues.len() by {
        let row = after.queue.rows[i];
        assert(store.queue.rows.contains(row));
        let j = choose|j: int| 0 <= j < store.queue.rows.len() && store.queue.rows[j] == row;
        assert(store.queue.rows[j].issue_id < store.issues.len());
    }
}

/// Every row of an issue before `issues` is among the rows of such issues.
proof fn lemma_rows_below_keeps(rows: Seq<TaskRow>, issues: nat)
    ensures
        forall|i: int|
            0 <= i < rows.len() && (#[trigger] rows[i]).issue_id < issues ==> rows_below(
                rows,
                issues,
            ).contains(rows[i]),
    decreases rows.len(),
{
    if rows.len() > 0 {
        let head = rows.drop_last();
        lemma_rows_below_keeps(head, issues);
        let kept = rows_below(rows, issues);
        let before = rows_below(head, issues);
        assert forall|i: int| 0 <= i < rows.len() && (#[trigger] rows[i]).issue_id < issues implies kept.contains(
            rows[i],
        ) by {
            if i < head.len() {
                assert(head[i] == rows[i]);
                assert(before.contains(head[i]));
                let k = choose|k: int| 0 <= k < before.len() && before[k] == head[i];
                assert(kept[k] == rows[i]);
            } else {
                assert(kept[kept.len() - 1] == rows[i]);
            }
        }
    }
}

/// What a store holds beyond a savepoint.
#[derive(Clone, Debug, PartialEq, Eq)]
pub struct Written {
    pub issues: Vec<Issue>,
    pub tasks: Vec<TaskRow>,
    pub records: Vec<IdempotencyRecord>,
}

/// Why the parts of a store do not fit together.
#[derive(Clone, Copy, Debug, PartialEq, Eq, Structural)]
pub enum AssembleError {
    /// A row of the queue is for an issue that the log does not hold.
    TaskWithoutIssue,
}

/// The store.
pub struct Store {
    issues: IssueLog,
    queue: DeliveryQueue,
    idempotency: IdempotencyStore,
}

impl View for Store {
    type V = StoreView;

    closed spec fn view(&self) -> StoreView {
        StoreView { issues: self.issues@, queue: self.queue@, records: self.idempotency@ }
    }
}

impl Store {
    /// The invariant that every operation keeps.
    pub closed spec fn wf(&self) -> bool {
        &&& self.issues.wf()
        &&& self.queue.wf()
        &&& self.idempotency.wf()
        &&& self@.tasks_have_issues()
    }

    /// A well-formed store has a well-formed view.
    pub proof fn lemma_wf(&self)
        requires
            self.wf(),
        ensures
            self@.wf(),
    {
    }

    /// An empty store whose queue has the default policy.
    pub fn new() -> (store: Store)
        ensures
            store.wf(),
            store@.issues == Seq::<IssueView>::empty(),
            store@.queue == DeliveryQueue::new_view(),
            store@.records == Seq::<RecordView>::empty(),
    {
        Store { issues: IssueLog::new(), queue: DeliveryQueue::new(), idempotency: IdempotencyStore::new() }
    }

    /// An empty store whose queue grants `retry_limit` retries and whose claims
    /// last `lease_secs` seconds.
    pub fn with_policy(retry_limit: u32, lease_secs: u64) -> (store: Store)
        ensures
            store.wf(),
            store@.issues == Seq::<IssueView>::empty(),
            store@.queue == (QueueView { rows: Seq::<TaskRow>::empty(), retry_limit, lease_secs }),
            store@.records == Seq::<RecordView>::empty(),
    {
        Store {
            issues: IssueLog::new(),
            queue: DeliveryQueue::with_policy(retry_limit, lease_secs),
            idempotency: IdempotencyStore::new(),
        }
    }

    /// The store of these three tables, as they were read back when the
    /// process started. Tables of which a row of the queue is for an issue
    /// that the log does not hold are no store: they are refused.
    pub fn assemble(issues: IssueLog, queue: DeliveryQueue, idempotency: IdempotencyStore) -> (r: Result<
        Store,
        AssembleError,
    >)
        requires
            issues.wf(),
            queue.wf(),
            idempotency.wf(),
        ensures
            match r {
                Ok(store) => store.wf() && store@ == (StoreView {
                    issues: issues@,
                    queue: queue@,
                    records: idempotency@,
                }),
                Err(e) => e == AssembleError::TaskWithoutIssue && !(StoreView {
                    issues: issues@,
                    queue: queue@,
                    records: idempotency@,
                }).tasks_have_issues(),
            },
    {
        let n = issues.len();
        let rows = queue.rows();
        let mut i: usize = 0;
        while i < rows.len()
            invariant
                i <= rows.len(),
                rows@ == queue@.rows,
                n == issues@.len(),
                forall|j: int| 0 <= j < i ==> (#[trigger] rows@[j]).issue_id < n,
            decreases rows.len() - i,
        {
            if rows[i].issue_id >= n as u64 {
                return Err(AssembleError::TaskWithoutIssue);
            }
            i += 1;
        }
        Ok(Store { issues, queue, idempotency })
    }

    /// The log of issues.
    pub fn issues(&self) -> (issues: &IssueLog)
        requires
            self.wf(),
        ensures
            issues.wf(),
            issues@ == self@.issues,
    {
        &self.issues
    }

    /// The delivery queue.
    pub fn queue(&self) -> (queue: &DeliveryQueue)
        requires
            self.wf(),
        ensures
            queue.wf(),
            queue@ == self@.queue,
    {
        &self.queue
    }

    /// The idempotency store.
    pub fn idempotency(&self) -> (idempotency: &IdempotencyStore)
        requires
            self.wf(),
        ensures
            idempotency.wf(),
            idempotency@ == self@.records,
    {
        &self.idempotency
    }

    /// Adds an issue with this content and gives its identity.
    pub fn insert_issue(&mut self, title: String, text_body: String, html_body: String) -> (id: IssueId)
        requires
            old(self).wf(),
        ensures
            final(self).wf(),
            id == old(self)@.next_issue_id(),
            id == old(self)@.issues.len(),
            final(self)@ == old(self)@.insert_issue(title@, text_body@, html_body@),
    {
        self.issues.insert(title, text_body, html_body)
    }

    /// Adds one pending row per subscriber to the queue, or none at all. The
    /// rows are refused if the log holds no issue of this identity, if the
    /// list names a subscriber twice, or if it names one who has a row for
    /// this issue already.
    pub fn enqueue_many(&mut self, issue_id: IssueId, subscriber_ids: &Vec<SubscriberId>) -> (r: Result<
        (),
        QueueError,
    >)
        requires
            old(self).wf(),
        ensures
            final(self).wf(),
            final(self)@ == old(self)@.enqueue_many(issue_id, subscriber_ids@),
            r == if issue_id >= old(self)@.issues.len() {
                Err::<(), QueueError>(QueueError::UnknownIssue)
            } else if old(self)@.queue.admits(issue_id, subscriber_ids@) {
                Ok::<(), QueueError>(())
            } else {
                Err::<(), QueueError>(QueueError::DuplicateTask)
            },
    {
        if issue_id >= self.issues.len() as u64 {
            return Err(QueueError::UnknownIssue);
        }
        let r = self.queue.enqueue_many(issue_id, subscriber_ids);
        proof {
            let before = old(self)@.queue.rows;
            let after = self@.queue.rows;
            assert forall|i: int| 0 <= i < after.len() implies (#[trigger] after[i]).issue_id
                < self@.issues.len() by {
                if r is Ok {
                    if i < before.len() {
                        assert(after[i] == before[i]);
                    } else {
                        assert(after[i] == fresh_rows(issue_id, subscriber_ids@)[i - before.len()]);
                    }
                }
            }
        }
        r
    }

    /// The response saved under this user and key, if there is one.
    pub fn lookup(&self, user_id: UserId, key: &String) -> (r: Option<SavedResponse>)
        ensures
            match r {
                Some(response) => saved_response(self@.records, user_id, key@) == Some(response@),
                None => saved_response(self@.records, user_id, key@) is None,
            },
    {
        self.idempotency.lookup(user_id, key)
    }

    /// Saves the response under this user and key. Where a response is saved
    /// under them already, the store refuses and stays as it is.
    pub fn save(&mut self, user_id: UserId, key: String, status_code: u16, body: String) -> (r: Result<
        (),
        SaveError,
    >)
        requires
            old(self).wf(),
        ensures
            final(self).wf(),
            final(self)@ == old(self)@.save(user_id, key@, ResponseView { status_code, body: body@ }),
            r == if saved_response(old(self)@.records, user_id, key@) is Some {
                Err::<(), SaveError>(SaveError::DuplicateKey)
            } else {
                Ok::<(), SaveError>(())
            },
    {
        self.idempotency.save(user_id, key, status_code, body)
    }

    /// Claims a row of the queue for a worker; see `DeliveryQueue::dequeue_one`.
    pub fn dequeue_one(&mut self, now: u64) -> (r: Option<DeliveryTask>)
        requires
            old(self).wf(),
        ensures
            final(self).wf(),
            final(self)@ == old(self)@.with_queue(old(self)@.queue.dequeue_one(now).0),
            r == old(self)@.queue.dequeue_one(now).1,
    {
        proof {
            lemma_first_index(old(self)@.queue.rows, |row: TaskRow| claimable(row, now), 0);
        }
        let r = self.queue.dequeue_one(now);
        proof {
            let before = old(self)@.queue.rows;
            let after = self@.queue.rows;
            assert forall|i: int| 0 <= i < after.len() implies (#[trigger] after[i]).issue_id
                < self@.issues.len() by {
                assert(after[i].issue_id == before[i].issue_id);
            }
        }
        r
    }

    /// Drops the row of a delivered task from the queue; see
    /// `DeliveryQueue::complete`.
    pub fn complete(&mut self, task: &DeliveryTask) -> (r: Result<(), QueueError>)
        requires
            old(self).wf(),
        ensures
            final(self).wf(),
            final(self)@ == old(self)@.with_queue(old(self)@.queue.complete(*task).0),
            r == old(self)@.queue.complete(*task).1,
    {
        proof {
            lemma_first_index(old(self)@.queue.rows, |row: TaskRow| holds_claim(row, *task), 0);
        }
        let r = self.queue.complete(task);
        proof {
            let before = old(self)@.queue.rows;
            let after = self@.queue.rows;
            assert forall|i: int| 0 <= i < after.len() implies (#[trigger] after[i]).issue_id
                < self@.issues.len() by {
                if r is Ok {
                    let at = old(self)@.queue.claim_index(*task).unwrap();
                    if i < at {
                        assert(after[i] == before[i]);
                    } else {
                        assert(after[i] == before[i + 1]);
                    }
                }
            }
        }
        r
    }

    /// Records a failed delivery in the queue; see `DeliveryQueue::fail`.
    pub fn fail(&mut self, task: &DeliveryTask, error: SendError) -> (r: Result<Disposition, QueueError>)
        requires
            old(self).wf(),
        ensures
            final(self).wf(),
            final(self)@ == old(self)@.with_queue(old(self)@.queue.fail(*task, error).0),
            r == old(self)@.queue.fail(*task, error).1,
    {
        proof {
            lemma_first_index(old(self)@.queue.rows, |row: TaskRow| holds_claim(row, *task), 0);
        }
        let r = self.queue.fail(task, error);
        proof {
            let before = old(self)@.queue.rows;
            let after = self@.queue.rows;
            assert forall|i: int| 0 <= i < after.len() implies (#[trigger] after[i]).issue_id
                < self@.issues.len() by {
                assert(after[i].issue_id == before[i].issue_id);
            }
        }
        r
    }

    /// Takes a savepoint: the sizes of the log and of the idempotency store now.
    pub fn begin(&self) -> (to: Savepoint)
        ensures
            self@.sized(),
            to.spec_issues() == self@.issues.len(),
            to.spec_records() == self@.records.len(),
    {
        let _ = self.queue.len();
        Savepoint { issues: self.issues.len(), records: self.idempotency.len() }
    }

    /// What the store holds beyond a savepoint, so that it can be written down
    /// elsewhere: the issues and saved responses from the sizes that the
    /// savepoint names, and the rows of the queue that are for those issues.
    pub fn written_since(&self, to: Savepoint) -> (written: Written)
        ensures
            written.issues@.map_values(|issue: Issue| issue@) == rows_since(
                self@.issues,
                to.spec_issues(),
            ),
            written.tasks@ == rows_from(self@.queue.rows, to.spec_issues()),
            written.records@.map_values(|record: IdempotencyRecord| record@) == rows_since(
                self@.records,
                to.spec_records(),
            ),
    {
        let all_issues = self.issues.issues();
        let first: usize = if to.issues <= all_issues.len() {
            to.issues
        } else {
            all_issues.len()
        };
        let mut issues: Vec<Issue> = Vec::new();
        let mut i: usize = first;
        while i < all_issues.len()
            invariant
                first <= i <= all_issues.len(),
                all_issues@.map_values(|issue: Issue| issue@) == self@.issues,
                issues@.map_values(|issue: Issue| issue@) == self@.issues.subrange(first as int, i as int),
            decreases all_issues.len() - i,
        {
            let issue = &all_issues[i];
            assert(self@.issues[i as int] == issue@);
            let ghost before = issues@.map_values(|issue: Issue| issue@);
            issues.push(
                Issue {
                    id: issue.id,
                    title: issue.title.clone(),
                    text_body: issue.text_body.clone(),
                    html_body: issue.html_body.clone(),
                },
            );
            i += 1;
            assert(issues@.map_values(|issue: Issue| issue@) =~= before.push(self@.issues[i - 1]));
            assert(before.push(self@.issues[i - 1]) =~= self@.issues.subrange(first as int, i as int));
        }
        assert(issues@.map_values(|issue: Issue| issue@) =~= rows_since(self@.issues, to.issues as nat));

        let tasks = self.queue.rows_of_issues_from(to.issues);

        let all_records = self.idempotency.records();
        let first: usize = if to.records <= all_records.len() {
            to.records
        } else {
            all_records.len()
        };
        let mut records: Vec<IdempotencyRecord> = Vec::new();
        let mut i: usize = first;
        while i < all_records.len()
            invariant
                first <= i <= all_records.len(),
                all_records@.map_values(|record: IdempotencyRecord| record@) == self@.records,
                records@.map_values(|record: IdempotencyRecord| record@) == self@.records.subrange(
                    first as int,
                    i as int,
                ),
            decreases all_records.len() - i,
        {
            let record = &all_records[i];
            assert(self@.records[i as int] == record@);
            let ghost before = records@.map_values(|record: IdempotencyRecord| record@);
            records.push(
                IdempotencyRecord {
                    user_id: record.user_id,
                    key: record.key.clone(),
                    response: SavedResponse {
                        status_code: record.response.status_code,
                        body: record.response.body.clone(),
                    },
                },
            );
            i += 1;
            assert(records@.map_values(|record: IdempotencyRecord| record@) =~= before.push(
                self@.records[i - 1],
            ));
            assert(before.push(self@.records[i - 1]) =~= self@.records.subrange(first as int, i as int));
        }
        assert(records@.map_values(|record: IdempotencyRecord| record@) =~= rows_since(
            self@.records,
            to.records as nat,
        ));
        Written { issues, tasks, records }
    }

    /// Rolls the store back to a savepoint. The log and the idempotency store
    /// are cut back to the sizes that the savepoint names, where they have
    /// grown beyond them, and the rows of the issues that the savepoint does
    /// not cover leave the queue.
    pub fn rollback(&mut self, to: Savepoint)
        requires
            old(self).wf(),
        ensures
            final(self).wf(),
            final(self)@ == old(self)@.rollback(to.spec_issues(), to.spec_records()),
    {
        proof {
            lemma_rollback_keeps_earlier_rows(old(self)@, to.issues as nat, to.records as nat);
        }
        self.issues.truncate(to.issues);
        self.queue.drop_issues_from(to.issues);
        self.idempotency.truncate(to.records);
    }
}

} // verus!
