//! The issue publisher: the one path by which an issue enters the pipeline.
//!
//! A request carries the content of the issue and an idempotency key that the
//! client chose. The content is checked first. A request whose user and key
//! have a saved response gets that response again, whatever its content is
//! this time: the content of a repeated request is not compared with that of
//! the first. Any other request is published: the issue, one task per
//! confirmed subscriber and the response are stored together or not at all.

use vstd::prelude::*;
use vstd::string::*;
use crate::idempotency::{
    is_for, lemma_save_then_lookup, saved_response, RecordView, ResponseView, SavedResponse,
};
use crate::ids::{IssueId, SubscriberId, UserId};
use crate::issue::{validate, validation_error, ValidationError};
use crate::queue::{fresh_rows, holds_key, same_key, TaskRow};
use crate::seqs::lemma_first_index;
use crate::store::{lemma_no_partial_publish, Store, StoreView};
use crate::subscribers::{
    confirmed_ids, lemma_confirmed_ids, list_confirmed_subscriber_ids, Subscriber, SubscriberStatus,
};

verus! {

/// Status of the response to a request that was published.
pub const STATUS_PUBLISHED: u16 = 200;

/// Status of the response to a request whose content is not valid.
pub const STATUS_REJECTED: u16 = 400;

/// Status of the response to a request that the store could not take.
pub const STATUS_STORAGE_FAILURE: u16 = 500;

/// The response to a request that was published.
pub open spec fn published() -> ResponseView {
    ResponseView { status_code: STATUS_PUBLISHED, body: "published"@ }
}

/// The response to a request whose content is not valid.
pub open spec fn rejected(error: ValidationError) -> ResponseView {
    ResponseView {
        status_code: STATUS_REJECTED,
        body: match error {
            ValidationError::EmptyTitle => "the title is empty"@,
            ValidationError::EmptyTextBody => "the plain-text body is empty"@,
            ValidationError::EmptyHtmlBody => "the HTML body is empty"@,
        },
    }
}

/// The response to a request that the store could not take. Nothing of the
/// request is stored, so it can be sent again.
pub open spec fn storage_failure() -> ResponseView {
    ResponseView { status_code: STATUS_STORAGE_FAILURE, body: "the issue could not be stored"@ }
}

/// The store after a request, and the response to it.
pub open spec fn publish(
    store: StoreView,
    subscribers: Seq<Subscriber>,
    user_id: UserId,
    key: Seq<char>,
    title: Seq<char>,
    text_body: Seq<char>,
    html_body: Seq<char>,
) -> (StoreView, ResponseView) {
    match validation_error(title, text_body, html_body) {
        Some(error) => (store, rejected(error)),
        None => match saved_response(store.records, user_id, key) {
            Some(saved) => (store, saved),
            None => {
                let issue_id = store.next_issue_id();
                let ids = confirmed_ids(subscribers);
                if store.queue.admits(issue_id, ids) {
                    (
                        store.insert_issue(title, text_body, html_body).enqueue_many(issue_id, ids).save(
                            user_id,
                            key,
                            published(),
                        ),
                        published(),
                    )
                } else {
                    (store, storage_failure())
                }
            },
        },
    }
}

/// The request is answered from the store or published: its content is valid,
/// and either its user and key have a saved response or the queue takes the
/// tasks of the new issue.
pub open spec fn goes_through(
    store: StoreView,
    subscribers: Seq<Subscriber>,
    user_id: UserId,
    key: Seq<char>,
    title: Seq<char>,
    text_body: Seq<char>,
    html_body: Seq<char>,
) -> bool {
    &&& validation_error(title, text_body, html_body) is None
    &&& (saved_response(store.records, user_id, key) is Some || store.queue.admits(
        store.next_issue_id(),
        confirmed_ids(subscribers),
    ))
}

/// When a request goes through. In a well-formed store the queue holds no row
/// for the issue to come, so that a request with valid content fails only if
/// its user and key have no saved response and the subscribers name one
/// confirmed subscriber twice.
pub proof fn lemma_goes_through(
    store: StoreView,
    subscribers: Seq<Subscriber>,
    user_id: UserId,
    key: Seq<char>,
    title: Seq<char>,
    text_body: Seq<char>,
    html_body: Seq<char>,
)
    requires
        store.wf(),
        store.sized(),
        validation_error(title, text_body, html_body) is None,
    ensures
        goes_through(store, subscribers, user_id, key, title, text_body, html_body) <==> (
        saved_response(store.records, user_id, key) is Some || confirmed_ids(
            subscribers,
        ).no_duplicates()),
{
    let ids = confirmed_ids(subscribers);
    let new_id = store.next_issue_id();
    if ids.no_duplicates() {
        assert forall|k: int| 0 <= k < ids.len() implies !holds_key(
            store.queue.rows,
            new_id,
            #[trigger] ids[k],
        ) by {
            if holds_key(store.queue.rows, new_id, ids[k]) {
                let i = choose|i: int|
                    0 <= i < store.queue.rows.len() && same_key(
                        #[trigger] store.queue.rows[i],
                        new_id,
                        ids[k],
                    );
                assert(store.queue.rows[i].issue_id < store.issues.len());
            }
        }
    }
}

/// Publishing is idempotent. A request that went through, sent again under the
/// same user and key with any valid content and whatever the subscribers are
/// by then, gets the same response and leaves the store as the first request
/// left it: one issue at most was added, with one task per subscriber who was
/// confirmed at the first request.
pub proof fn lemma_publish_is_idempotent(
    store: StoreView,
    user_id: UserId,
    key: Seq<char>,
    subscribers: Seq<Subscriber>,
    title: Seq<char>,
    text_body: Seq<char>,
    html_body: Seq<char>,
    subscribers_again: Seq<Subscriber>,
    title_again: Seq<char>,
    text_body_again: Seq<char>,
    html_body_again: Seq<char>,
)
    requires
        goes_through(store, subscribers, user_id, key, title, text_body, html_body),
        validation_error(title_again, text_body_again, html_body_again) is None,
    ensures
        ({
            let (first, response) = publish(store, subscribers, user_id, key, title, text_body, html_body);
            let (second, response_again) = publish(
                first,
                subscribers_again,
                user_id,
                key,
                title_again,
                text_body_again,
                html_body_again,
            );
            &&& response_again == response
            &&& second == first
            &&& saved_response(first.records, user_id, key) == Some(response)
            &&& first.issues.len() <= store.issues.len() + 1
            &&& first.issues.len() == store.issues.len() ==> first == store
            &&& first.issues.len() == store.issues.len() + 1 ==> first.queue.rows == store.queue.rows
                + fresh_rows(store.next_issue_id(), confirmed_ids(subscribers))
        }),
{
    if saved_response(store.records, user_id, key) is None {
        lemma_save_then_lookup(store.records, user_id, key, published(), user_id, key);
    }
}

/// A request leaves the store well formed.
pub proof fn lemma_publish_keeps_invariants(
    store: StoreView,
    subscribers: Seq<Subscriber>,
    user_id: UserId,
    key: Seq<char>,
    title: Seq<char>,
    text_body: Seq<char>,
    html_body: Seq<char>,
)
    requires
        store.wf(),
        store.sized(),
    ensures
        publish(store, subscribers, user_id, key, title, text_body, html_body).0.wf(),
{
    let after = publish(store, subscribers, user_id, key, title, text_body, html_body).0;
    if after != store {
        let new_id = store.next_issue_id();
        let ids = confirmed_ids(subscribers);
        let fresh = fresh_rows(new_id, ids);
        let before = store.queue.rows;
        assert(after.queue.rows == before + fresh);
        assert forall|i: int, j: int| 0 <= i < j < after.queue.rows.len() implies !same_key(
            #[trigger] after.queue.rows[i],
            #[trigger] after.queue.rows[j].issue_id,
            after.queue.rows[j].subscriber_id,
        ) by {
            if j < before.len() {
                assert(!same_key(before[i], before[j].issue_id, before[j].subscriber_id));
            } else {
                let m = j - before.len();
                assert(after.queue.rows[j] == fresh[m]);
                if i < before.len() {
                    assert(!holds_key(before, new_id, ids[m]));
                } else {
                    let k = i - before.len();
                    assert(after.queue.rows[i] == fresh[k]);
                    assert(ids[k] != ids[m]);
                }
            }
        }
        lemma_save_then_lookup(store.records, user_id, key, published(), user_id, key);
        lemma_first_index(store.records, |record: RecordView| is_for(record, user_id, key), 0);
        assert forall|a: int, b: int| 0 <= a < b < after.records.len() implies !is_for(
            #[trigger] after.records[a],
            #[trigger] after.records[b].user_id,
            after.records[b].key,
        ) by {
            assert(after.records[a] == store.records[a]);
            if b < store.records.len() {
                assert(after.records[b] == store.records[b]);
            }
        }
        assert forall|i: int| 0 <= i < after.queue.rows.len() implies (#[trigger] after.queue.rows[i]).issue_id
            < after.issues.len() by {
            if i < before.len() {
                assert(before[i].issue_id < store.issues.len());
            } else {
                assert(after.queue.rows[i] == fresh[i - before.len()]);
            }
        }
    }
}

/// The fan-out is complete and exact. After a request that was published, the
/// queue holds a task of the new issue for a subscriber exactly if that
/// subscriber is among the given ones and confirmed, and the tasks of other
/// issues are as before.
pub proof fn lemma_fan_out(
    store: StoreView,
    subscribers: Seq<Subscriber>,
    user_id: UserId,
    key: Seq<char>,
    title: Seq<char>,
    text_body: Seq<char>,
    html_body: Seq<char>,
    issue_id: IssueId,
    subscriber_id: SubscriberId,
)
    requires
        store.wf(),
        store.sized(),
        validation_error(title, text_body, html_body) is None,
        saved_response(store.records, user_id, key) is None,
        store.queue.admits(store.next_issue_id(), confirmed_ids(subscribers)),
    ensures
        ({
            let after = publish(store, subscribers, user_id, key, title, text_body, html_body).0;
            let confirmed = exists|i: int|
                0 <= i < subscribers.len() && (#[trigger] subscribers[i]).id == subscriber_id
                    && subscribers[i].status == SubscriberStatus::Confirmed;
            &&& after.queue.rows.len() == store.queue.rows.len() + confirmed_ids(subscribers).len()
            &&& holds_key(after.queue.rows, store.next_issue_id(), subscriber_id) <==> confirmed
            &&& issue_id != store.next_issue_id() ==> (holds_key(
                after.queue.rows,
                issue_id,
                subscriber_id,
            ) <==> holds_key(store.queue.rows, issue_id, subscriber_id))
        }),
{
    let new_id = store.next_issue_id();
    let ids = confirmed_ids(subscribers);
    let fresh = fresh_rows(new_id, ids);
    let before = store.queue.rows;
    let rows = publish(store, subscribers, user_id, key, title, text_body, html_body).0.queue.rows;
    assert(rows == before + fresh);
    lemma_confirmed_ids(subscribers, subscriber_id);
    lemma_rows_added(before, new_id, ids, new_id, subscriber_id);
    lemma_rows_added(before, new_id, ids, issue_id, subscriber_id);
    if ids.contains(subscriber_id) {
        let k = choose|k: int| 0 <= k < ids.len() && ids[k] == subscriber_id;
        assert(!holds_key(before, new_id, ids[k]));
    } else {
        assert(!holds_key(before, new_id, subscriber_id)) by {
            if holds_key(before, new_id, subscriber_id) {
                let i = choose|i: int|
                    0 <= i < before.len() && same_key(#[trigger] before[i], new_id, subscriber_id);
                assert(before[i].issue_id < store.issues.len());
            }
        }
    }
    assert(rows.len() == before.len() + ids.len());
    assert(holds_key(rows, new_id, subscriber_id) <==> ids.contains(subscriber_id));
}

/// A key is held after rows were added exactly if it was held before or one of
/// the added rows holds it.
proof fn lemma_rows_added(
    before: Seq<TaskRow>,
    new_id: IssueId,
    ids: Seq<SubscriberId>,
    issue_id: IssueId,
    subscriber_id: SubscriberId,
)
    ensures
        holds_key(before + fresh_rows(new_id, ids), issue_id, subscriber_id) <==> (holds_key(
            before,
            issue_id,
            subscriber_id,
        ) || (issue_id == new_id && ids.contains(subscriber_id))),
{
    let fresh = fresh_rows(new_id, ids);
    let rows = before + fresh;
    if holds_key(rows, issue_id, subscriber_id) {
        let i = choose|i: int| 0 <= i < rows.len() && same_key(#[trigger] rows[i], issue_id, subscriber_id);
        if i < before.len() {
            assert(same_key(before[i], issue_id, subscriber_id));
        } else {
            let k = i - before.len();
            assert(rows[i] == fresh[k]);
            assert(ids[k] == subscriber_id);
        }
    }
    if holds_key(before, issue_id, subscriber_id) {
        let i = choose|i: int| 0 <= i < before.len() && same_key(#[trigger] before[i], issue_id, subscriber_id);
        assert(same_key(rows[i], issue_id, subscriber_id));
    }
    if issue_id == new_id && ids.contains(subscriber_id) {
        let k = choose|k: int| 0 <= k < ids.len() && ids[k] == subscriber_id;
        assert(rows[before.len() + k] == fresh[k]);
        assert(same_key(rows[before.len() + k], issue_id, subscriber_id));
    }
}

/// Makes the response to a request that was published.
fn published_response() -> (r: SavedResponse)
    ensures
        r@ == published(),
{
    SavedResponse { status_code: STATUS_PUBLISHED, body: String::from_str("published") }
}

/// Makes the response to a request whose content is not valid.
fn rejected_response(error: ValidationError) -> (r: SavedResponse)
    ensures
        r@ == rejected(error),
{
    let body = match error {
        ValidationError::EmptyTitle => String::from_str("the title is empty"),
        ValidationError::EmptyTextBody => String::from_str("the plain-text body is empty"),
        ValidationError::EmptyHtmlBody => String::from_str("the HTML body is empty"),
    };
    SavedResponse { status_code: STATUS_REJECTED, body }
}

/// Makes the response to a request that the store could not take.
fn storage_failure_response() -> (r: SavedResponse)
    ensures
        r@ == storage_failure(),
{
    SavedResponse {
        status_code: STATUS_STORAGE_FAILURE,
        body: String::from_str("the issue could not be stored"),
    }
}

impl Store {
    /// Takes a request to publish an issue and gives the response to it.
    ///
    /// Content with an empty title or body is rejected before the store is
    /// touched. A request whose user and key have a saved response gets that
    /// response and changes nothing. Otherwise the issue is added to the log,
    /// one task per confirmed subscriber is added to the queue, and the
    /// response is saved under the user and key. If the queue refuses the
    /// tasks, which it does where the subscribers name one confirmed
    /// subscriber twice, the store is rolled back to where it was and the
    /// response says that the issue could not be stored.
    pub fn publish_issue(
        &mut self,
        subscribers: &Vec<Subscriber>,
        user_id: UserId,
        idempotency_key: &String,
        title: String,
        text_body: String,
        html_body: String,
    ) -> (response: SavedResponse)
        requires
            old(self).wf(),
        ensures
            final(self).wf(),
            (final(self)@, response@) == publish(
                old(self)@,
                subscribers@,
                user_id,
                idempotency_key@,
                title@,
                text_body@,
                html_body@,
            ),
    {
        match validate(&title, &text_body, &html_body) {
            Err(error) => {
                return rejected_response(error);
            },
            Ok(()) => {},
        }
        match self.lookup(user_id, idempotency_key) {
            Some(saved) => {
                return saved;
            },
            None => {},
        }
        let to = self.begin();
        let ids = list_confirmed_subscriber_ids(subscribers);
        proof {
            self.lemma_wf();
            lemma_no_partial_publish(
                self@,
                title@,
                text_body@,
                html_body@,
                ids@,
                user_id,
                idempotency_key@,
                published(),
            );
        }
        let issue_id = self.insert_issue(title, text_body, html_body);
        match self.enqueue_many(issue_id, &ids) {
            Err(_) => {
                self.rollback(to);
                return storage_failure_response();
            },
            Ok(()) => {},
        }
        let response = published_response();
        match self.save(user_id, idempotency_key.clone(), response.status_code, response.body.clone()) {
            Err(_) => {
                self.rollback(to);
                storage_failure_response()
            },
            Ok(()) => response,
        }
    }
}

} // verus!
