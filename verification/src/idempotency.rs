//! The idempotency store: the response that a user's request got the first
//! time, kept under the key that the client chose for the request.
//!
//! A response is saved once per user and key. A second save under the same
//! user and key is refused and changes nothing: it would mean that the lookup
//! before it was skipped.

use vstd::prelude::*;
use crate::ids::UserId;
use crate::seqs::{first_index, lemma_first_index, lemma_first_index_is, lemma_first_index_none};

verus! {

/// A response as the caller saw it: the status and the body.
#[derive(Clone, Debug, PartialEq, Eq)]
pub struct SavedResponse {
    pub status_code: u16,
    pub body: String,
}

/// A response as a mathematical value.
pub struct ResponseView {
    pub status_code: u16,
    pub body: Seq<char>,
}

impl View for SavedResponse {
    type V = ResponseView;

    open spec fn view(&self) -> ResponseView {
        ResponseView { status_code: self.status_code, body: self.body@ }
    }
}

/// A row of the store.
#[derive(Clone, Debug, PartialEq, Eq)]
pub struct IdempotencyRecord {
    pub user_id: UserId,
    pub key: String,
    pub response: SavedResponse,
}

/// A row as a mathematical value.
pub struct RecordView {
    pub user_id: UserId,
    pub key: Seq<char>,
    pub response: ResponseView,
}

impl View for IdempotencyRecord {
    type V = RecordView;

    open spec fn view(&self) -> RecordView {
        RecordView { user_id: self.user_id, key: self.key@, response: self.response@ }
    }
}

/// Why the store refused to save.
#[derive(Clone, Copy, Debug, PartialEq, Eq, Structural)]
pub enum SaveError {
    /// A response is saved under this user and key already.
    DuplicateKey,
}

/// The row is the one of this user and key.
pub open spec fn is_for(record: RecordView, user_id: UserId, key: Seq<char>) -> bool {
    record.user_id == user_id && record.key == key
}

/// No two rows are for the same user and key.
pub open spec fn records_unique(records: Seq<RecordView>) -> bool {
    forall|i: int, j: int|
        #![trigger records[i], records[j]]
        0 <= i < j < records.len() ==> !is_for(records[i], records[j].user_id, records[j].key)
}

/// The position of the row of this user and key.
pub open spec fn record_index(records: Seq<RecordView>, user_id: UserId, key: Seq<char>) -> Option<int> {
    first_index(records, |record: RecordView| is_for(record, user_id, key), 0)
}

/// The response saved under this user and key.
pub open spec fn saved_response(records: Seq<RecordView>, user_id: UserId, key: Seq<char>) -> Option<
    ResponseView,
> {
    match record_index(records, user_id, key) {
        Some(i) => Some(records[i].response),
        None => None,
    }
}

/// The rows after `save`: one more, unless the user and key have one already.
pub open spec fn records_after_save(
    records: Seq<RecordView>,
    user_id: UserId,
    key: Seq<char>,
    response: ResponseView,
) -> Seq<RecordView> {
    if saved_response(records, user_id, key) is Some {
        records
    } else {
        records.push(RecordView { user_id, key, response })
    }
}

/// The rows cut back to the first `len`.
pub open spec fn records_truncated(records: Seq<RecordView>, len: nat) -> Seq<RecordView> {
    if len <= records.len() {
        records.take(len as int)
    } else {
        records
    }
}

/// A response that was saved is found again under its user and key, and a save
/// changes what is found under no other user or key.
pub proof fn lemma_save_then_lookup(
    records: Seq<RecordView>,
    user_id: UserId,
    key: Seq<char>,
    response: ResponseView,
    other_user: UserId,
    other_key: Seq<char>,
)
    requires
        saved_response(records, user_id, key) is None,
    ensures
        saved_response(records_after_save(records, user_id, key, response), user_id, key) == Some(
            response,
        ),
        !(other_user == user_id && other_key == key) ==> saved_response(
            records_after_save(records, user_id, key, response),
            other_user,
            other_key,
        ) == saved_response(records, other_user, other_key),
{
    let after = records.push(RecordView { user_id, key, response });
    let p = |record: RecordView| is_for(record, user_id, key);
    lemma_first_index(records, p, 0);
    assert forall|j: int| 0 <= j < records.len() implies !p(#[trigger] after[j]) by {
        assert(after[j] == records[j]);
    }
    lemma_first_index_is(after, p, records.len() as int);
    if !(other_user == user_id && other_key == key) {
        let q = |record: RecordView| is_for(record, other_user, other_key);
        lemma_first_index(records, q, 0);
        match first_index(records, q, 0) {
            Some(i) => {
                assert forall|j: int| 0 <= j < i implies !q(#[trigger] after[j]) by {
                    assert(after[j] == records[j]);
                }
                assert(after[i] == records[i]);
                lemma_first_index_is(after, q, i);
            },
            None => {
                assert forall|j: int| 0 <= j < after.len() implies !q(#[trigger] after[j]) by {
                    if j < records.len() {
                        assert(after[j] == records[j]);
                    }
                }
                lemma_first_index_none(after, q);
            },
        }
    }
}

/// The idempotency store.
pub struct IdempotencyStore {
    records: Vec<IdempotencyRecord>,
}

impl View for IdempotencyStore {
    type V = Seq<RecordView>;

    closed spec fn view(&self) -> Seq<RecordView> {
        self.records@.map_values(|record: IdempotencyRecord| record@)
    }
}

impl IdempotencyStore {
    /// The invariant that every operation keeps: one row at most per user and key.
    pub open spec fn wf(&self) -> bool {
        records_unique(self@)
    }

    /// An empty store.
    pub fn new() -> (store: IdempotencyStore)
        ensures
            store.wf(),
            store@ == Seq::<RecordView>::empty(),
    {
        let store = IdempotencyStore { records: Vec::new() };
        assert(store@ =~= Seq::<RecordView>::empty());
        store
    }

    /// The store that holds these rows, as they were written down before the
    /// process ended. Rows that name a user and key twice are no store: they
    /// are refused.
    pub fn restore(records: Vec<IdempotencyRecord>) -> (r: Result<IdempotencyStore, SaveError>)
        ensures
            match r {
                Ok(store) => store.wf() && store@ == records@.map_values(
                    |record: IdempotencyRecord| record@,
                ),
                Err(e) => e == SaveError::DuplicateKey && !records_unique(
                    records@.map_values(|record: IdempotencyRecord| record@),
                ),
            },
    {
        let ghost views = records@.map_values(|record: IdempotencyRecord| record@);
        let mut j: usize = 0;
        while j < records.len()
            invariant
                j <= records.len(),
                views == records@.map_values(|record: IdempotencyRecord| record@),
                forall|a: int, b: int|
                    #![trigger views[a], views[b]]
                    0 <= a < b < j ==> !is_for(views[a], views[b].user_id, views[b].key),
            decreases records.len() - j,
        {
            let mut i: usize = 0;
            while i < j
                invariant
                    i <= j < records.len(),
                    views == records@.map_values(|record: IdempotencyRecord| record@),
                    forall|a: int|
                        #![trigger views[a]]
                        0 <= a < i ==> !is_for(views[a], views[j as int].user_id, views[j as int].key),
                decreases j - i,
            {
                assert(views[i as int] == records@[i as int]@);
                assert(views[j as int] == records@[j as int]@);
                if records[i].user_id == records[j].user_id && records[i].key == records[j].key {
                    assert(is_for(views[i as int], views[j as int].user_id, views[j as int].key));
                    return Err(SaveError::DuplicateKey);
                }
                i += 1;
            }
            j += 1;
        }
        Ok(IdempotencyStore { records })
    }

    /// The number of rows.
    pub fn len(&self) -> (n: usize)
        ensures
            n == self@.len(),
    {
        self.records.len()
    }

    /// The rows, in order.
    pub fn records(&self) -> (records: &Vec<IdempotencyRecord>)
        ensures
            records@.map_values(|record: IdempotencyRecord| record@) == self@,
    {
        &self.records
    }

    /// The position of the row of this user and key.
    fn find(&self, user_id: UserId, key: &String) -> (r: Option<usize>)
        ensures
            match r {
                Some(i) => record_index(self@, user_id, key@) == Some(i as int) && i < self.records@.len(),
                None => record_index(self@, user_id, key@) is None,
            },
    {
        let ghost p = |record: RecordView| is_for(record, user_id, key@);
        let mut i: usize = 0;
        while i < self.records.len()
            invariant
                i <= self.records.len(),
                self@.len() == self.records@.len(),
                p == |record: RecordView| is_for(record, user_id, key@),
                forall|j: int| 0 <= j < i ==> !p(#[trigger] self@[j]),
            decreases self.records.len() - i,
        {
            assert(self@[i as int] == self.records@[i as int]@);
            if self.records[i].user_id == user_id && self.records[i].key == *key {
                proof {
                    lemma_first_index_is(self@, p, i as int);
                }
                return Some(i);
            }
            i += 1;
        }
        proof {
            lemma_first_index_none(self@, p);
        }
        None
    }

    /// The response saved under this user and key, if there is one.
    pub fn lookup(&self, user_id: UserId, key: &String) -> (r: Option<SavedResponse>)
        ensures
            match r {
                Some(response) => saved_response(self@, user_id, key@) == Some(response@),
                None => saved_response(self@, user_id, key@) is None,
            },
    {
        match self.find(user_id, key) {
            Some(i) => {
                assert(self@[i as int] == self.records@[i as int]@);
                let stored = &self.records[i].response;
                Some(SavedResponse { status_code: stored.status_code, body: stored.body.clone() })
            },
            None => None,
        }
    }

    /// Saves the response under this user and key. Where a response is saved
    /// under them already, the store refuses and stays as it is.
    pub fn save(&mut self, user_id: UserId, key: String, status_code: u16, body: String) -> (r: Result<
        (),
        SaveError,
    >)
        requires
            old(self).wf(),
        ensures
            final(self).wf(),
            final(self)@ == records_after_save(
                old(self)@,
                user_id,
                key@,
                ResponseView { status_code, body: body@ },
            ),
            r == if saved_response(old(self)@, user_id, key@) is Some {
                Err::<(), SaveError>(SaveError::DuplicateKey)
            } else {
                Ok::<(), SaveError>(())
            },
    {
        match self.find(user_id, &key) {
            Some(_) => Err(SaveError::DuplicateKey),
            None => {
                let ghost row = RecordView {
                    user_id,
                    key: key@,
                    response: ResponseView { status_code, body: body@ },
                };
                self.records.push(
                    IdempotencyRecord { user_id, key, response: SavedResponse { status_code, body } },
                );
                proof {
                    assert(self@ =~= old(self)@.push(row));
                    lemma_first_index(
                        old(self)@,
                        |record: RecordView| is_for(record, row.user_id, row.key),
                        0,
                    );
                    let after = self@;
                    assert forall|a: int, b: int| 0 <= a < b < after.len() implies !is_for(
                        #[trigger] after[a],
                        #[trigger] after[b].user_id,
                        after[b].key,
                    ) by {
                        assert(after[a] == old(self)@[a]);
                        if b < old(self)@.len() {
                            assert(after[b] == old(self)@[b]);
                        }
                    }
                }
                Ok(())
            },
        }
    }

    /// Cuts the store back to its first `len` rows; a store that is not longer
    /// stays as it is.
    pub(crate) fn truncate(&mut self, len: usize)
        requires
            old(self).wf(),
        ensures
            final(self).wf(),
            final(self)@ == records_truncated(old(self)@, len as nat),
    {
        self.records.truncate(len);
        assert(len <= old(self)@.len() ==> self@ =~= old(self)@.take(len as int));
        assert(len > old(self)@.len() ==> self@ =~= old(self)@);
    }
}

} // verus!
