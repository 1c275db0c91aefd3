//! Publishing an issue: the request is accepted at most once per
//! idempotency key, and its deliveries are queued, not sent.

use crate::idempotency::key::is_valid_key;
use crate::idempotency::key::key_error;
use crate::idempotency::key::IdempotencyKey;
use crate::idempotency::persistence::columns_of;
use crate::idempotency::persistence::lemma_saved_response_round_trip;
use crate::idempotency::persistence::record_response;
use crate::idempotency::persistence::IdempotencyError;
use crate::idempotency::persistence::IdempotencyRecord;
use crate::idempotency::persistence::IdempotencyRecordView;
use crate::idempotency::persistence::Response;
use crate::idempotency::persistence::ResponseView;
use crate::idempotency::persistence::SavedResponse;
use crate::idempotency::persistence::SavedResponseView;
use crate::routes::newsletters::PublishError;
use crate::routes::newsletters::PublishFault;
use crate::store::batch;
use crate::store::texts;
use crate::store::IssueView;
use crate::store::NewsletterIssue;
use crate::store::Store;
use crate::store::StoreView;
use crate::store::TransactionView;
use crate::utils::see_other;
use crate::utils::see_other_view;
use vstd::prelude::*;

verus! {

/// The fields of a publish request.
#[derive(Debug)]
pub struct FormData {
    pub title: String,
    pub html_content: String,
    pub text_content: String,
    pub idempotency_key: String,
}

impl FormData {
    /// What the issue of this request says.
    pub open spec fn content(self) -> IssueView {
        IssueView {
            title: self.title@,
            html_content: self.html_content@,
            text_content: self.text_content@,
        }
    }
}

/// The response to a publish request that was accepted.
pub open spec fn accepted_response() -> ResponseView {
    see_other_view("/admin/newsletters"@)
}

/// The transaction of a publish request as it stands at completion.
pub open spec fn publish_transaction(
    user_id: u128,
    key: Seq<char>,
    issue_id: u128,
    content: IssueView,
    subscribers: Seq<Seq<char>>,
) -> TransactionView {
    TransactionView { user_id, key, issue: Some((issue_id, content)), recipients: subscribers }
}

/// The store after a publish request was accepted: the key is completed with
/// the accepted response, the issue is stored, and one task per subscriber of
/// the snapshot is queued.
pub open spec fn published(
    store: StoreView,
    user_id: u128,
    key: Seq<char>,
    issue_id: u128,
    content: IssueView,
    subscribers: Seq<Seq<char>>,
    now: u64,
) -> StoreView {
    store.with_claim(user_id, key, now).committed(
        publish_transaction(user_id, key, issue_id, content, subscribers),
        columns_of(accepted_response()),
    )
}

/// What a publish request answers, and why.
pub open spec fn publish_result(
    store: StoreView,
    user_id: u128,
    key: Seq<char>,
    issue_id: u128,
) -> Result<ResponseView, PublishError> {
    if let Some(e) = key_error(key) {
        Err(PublishError::ValidationError(e))
    } else if store.idempotency.contains_key((user_id, key)) {
        match store.lookup_error(user_id, key) {
            Some(e) => Err(PublishError::UnexpectedError(PublishFault::Idempotency(e))),
            None => Ok(store.saved_response(user_id, key)->0),
        }
    } else if store.issues.contains_key(issue_id) {
        Err(PublishError::UnexpectedError(PublishFault::Storage))
    } else {
        Ok(accepted_response())
    }
}

/// Whether a publish request writes: its key is valid and free, and the
/// identifier for its issue is unused.
pub open spec fn publish_writes(store: StoreView, user_id: u128, key: Seq<char>, issue_id: u128) -> bool {
    &&& key_error(key) is None
    &&& !store.idempotency.contains_key((user_id, key))
    &&& !store.issues.contains_key(issue_id)
}

/// The store that a publish request leaves.
pub open spec fn publish_store(
    store: StoreView,
    user_id: u128,
    key: Seq<char>,
    issue_id: u128,
    content: IssueView,
    subscribers: Seq<Seq<char>>,
    now: u64,
) -> StoreView {
    if publish_writes(store, user_id, key, issue_id) {
        published(store, user_id, key, issue_id, content, subscribers, now)
    } else {
        store
    }
}

/// A publish request on its way: whose it is, the key it holds, and the
/// issue it carries.
#[derive(Debug)]
pub struct Draft {
    pub user_id: u128,
    pub key: IdempotencyKey,
    pub issue: NewsletterIssue,
}

/// Where a publish request stands.
#[derive(Debug)]
pub enum PublishState {
    /// Waiting to learn whether the key could be claimed.
    Claiming(Draft),
    /// The key was taken: waiting for the row saved under it.
    Replaying,
    /// The key is claimed: waiting for the commit of the writes, to answer
    /// with this response.
    Committing(Response),
    /// The request has answered.
    Finished,
}

/// What the storage did since the request's last action.
#[derive(Debug)]
pub enum PublishEvent {
    /// The claim was tried; `true` where the claim row was inserted.
    Claimed(bool),
    /// The row under the key was read; `None` where there is none.
    Saved(Option<IdempotencyRecord>),
    /// The writes were committed.
    Committed,
    /// The storage failed, or refused a write.
    Failed,
}

/// What the request asks to be done next.
#[derive(Debug)]
pub enum PublishAction {
    /// Open a transaction and insert a bare claim row for the key, unless
    /// the key has a row already.
    Claim { user_id: u128, key: IdempotencyKey },
    /// Read the row under the key.
    LoadSaved { user_id: u128, key: IdempotencyKey },
    /// In the open transaction and in this order: insert the issue, insert
    /// one delivery task per confirmed subscriber, put the response into the
    /// claim row; then commit, all or nothing.
    Commit { user_id: u128, key: IdempotencyKey, issue: NewsletterIssue, columns: SavedResponse },
    /// Answer the client. A transaction that is still open is rolled back.
    Respond(Result<Response, PublishError>),
}

/// A request's state as plain values.
pub enum PublishStateView {
    Claiming { user_id: u128, key: Seq<char>, issue_id: u128, content: IssueView },
    Replaying,
    Committing(ResponseView),
    Finished,
}

/// An event as plain values.
pub enum PublishEventView {
    Claimed(bool),
    Saved(Option<IdempotencyRecordView>),
    Committed,
    Failed,
}

/// An action as plain values.
pub enum PublishActionView {
    Claim { user_id: u128, key: Seq<char> },
    LoadSaved { user_id: u128, key: Seq<char> },
    Commit {
        user_id: u128,
        key: Seq<char>,
        issue_id: u128,
        content: IssueView,
        columns: SavedResponseView,
    },
    Respond(Result<ResponseView, PublishError>),
}

impl View for PublishState {
    type V = PublishStateView;

    open spec fn view(&self) -> PublishStateView {
        match *self {
            PublishState::Claiming(draft) => PublishStateView::Claiming {
                user_id: draft.user_id,
                key: draft.key@,
                issue_id: draft.issue.issue_id,
                content: draft.issue.content(),
            },
            PublishState::Replaying => PublishStateView::Replaying,
            PublishState::Committing(response) => PublishStateView::Committing(response@),
            PublishState::Finished => PublishStateView::Finished,
        }
    }
}

impl View for PublishEvent {
    type V = PublishEventView;

    open spec fn view(&self) -> PublishEventView {
        match *self {
            PublishEvent::Claimed(inserted) => PublishEventView::Claimed(inserted),
            PublishEvent::Saved(Some(record)) => PublishEventView::Saved(Some(record@)),
            PublishEvent::Saved(None) => PublishEventView::Saved(None),
            PublishEvent::Committed => PublishEventView::Committed,
            PublishEvent::Failed => PublishEventView::Failed,
        }
    }
}

impl View for PublishAction {
    type V = PublishActionView;

    open spec fn view(&self) -> PublishActionView {
        match *self {
            PublishAction::Claim { user_id, key } => PublishActionView::Claim { user_id, key: key@ },
            PublishAction::LoadSaved { user_id, key } => PublishActionView::LoadSaved {
                user_id,
                key: key@,
            },
            PublishAction::Commit { user_id, key, issue, columns } => PublishActionView::Commit {
                user_id,
                key: key@,
                issue_id: issue.issue_id,
                content: issue.content(),
                columns: columns@,
            },
            PublishAction::Respond(Ok(response)) => PublishActionView::Respond(Ok(response@)),
            PublishAction::Respond(Err(e)) => PublishActionView::Respond(Err(e)),
        }
    }
}

/// The answer that a row of the idempotency table gives to a request that
/// found its key taken: the saved response, or the reason why there is none
/// to replay.
pub open spec fn replayed(record: Option<IdempotencyRecordView>) -> Result<
    ResponseView,
    PublishError,
> {
    match record {
        Some(row) => match record_response(row) {
            Ok(response) => Ok(response),
            Err(e) => Err(PublishError::UnexpectedError(PublishFault::Idempotency(e))),
        },
        None => Err(
            PublishError::UnexpectedError(
                PublishFault::Idempotency(IdempotencyError::MissingSavedResponse),
            ),
        ),
    }
}

/// How a publish request starts: a malformed key is answered at once, before
/// anything is read or written; a valid one is to be claimed.
pub open spec fn publish_start(user_id: u128, key: Seq<char>, issue_id: u128, content: IssueView) -> (
    PublishStateView,
    PublishActionView,
) {
    match key_error(key) {
        Some(e) => (
            PublishStateView::Finished,
            PublishActionView::Respond(Err(PublishError::ValidationError(e))),
        ),
        None => (
            PublishStateView::Claiming { user_id, key, issue_id, content },
            PublishActionView::Claim { user_id, key },
        ),
    }
}

/// The transition of a publish request: the state it moves to and the
/// action it asks for.
///
/// A request that claimed its key commits its issue, its tasks and the
/// accepted response together. One that found the key taken replays what is
/// saved under it. A failure of the storage, or an event that the state does
/// not wait for, ends the request with an error.
pub open spec fn publish_transition(state: PublishStateView, event: PublishEventView) -> (
    PublishStateView,
    PublishActionView,
) {
    match (state, event) {
        (
            PublishStateView::Claiming { user_id, key, issue_id, content },
            PublishEventView::Claimed(true),
        ) => (
            PublishStateView::Committing(accepted_response()),
            PublishActionView::Commit {
                user_id,
                key,
                issue_id,
                content,
                columns: columns_of(accepted_response()),
            },
        ),
        (PublishStateView::Claiming { user_id, key, .. }, PublishEventView::Claimed(false)) => (
            PublishStateView::Replaying,
            PublishActionView::LoadSaved { user_id, key },
        ),
        (PublishStateView::Replaying, PublishEventView::Saved(record)) => (
            PublishStateView::Finished,
            PublishActionView::Respond(replayed(record)),
        ),
        (PublishStateView::Committing(response), PublishEventView::Committed) => (
            PublishStateView::Finished,
            PublishActionView::Respond(Ok(response)),
        ),
        _ => (
            PublishStateView::Finished,
            PublishActionView::Respond(Err(PublishError::UnexpectedError(PublishFault::Storage))),
        ),
    }
}

impl PublishState {
    /// Starts a publish request of the user `user_id`, with `issue_id` as
    /// the identifier of its issue: see `publish_start`.
    pub fn start(form: FormData, user_id: u128, issue_id: u128) -> (first: (
        PublishState,
        PublishAction,
    ))
        ensures
            (first.0@, first.1@) == publish_start(
                user_id,
                form.idempotency_key@,
                issue_id,
                form.content(),
            ),
    {
        let FormData { title, html_content, text_content, idempotency_key } = form;
        match IdempotencyKey::parse(idempotency_key) {
            Err(e) => (
                PublishState::Finished,
                PublishAction::Respond(Err(PublishError::ValidationError(e))),
            ),
            Ok(key) => {
                let claim = PublishAction::Claim { user_id, key: key.clone() };
                let issue = NewsletterIssue { issue_id, title, html_content, text_content };
                (PublishState::Claiming(Draft { user_id, key, issue }), claim)
            },
        }
    }

    /// Takes one event and decides: see `publish_transition`.
    pub fn step(self, event: PublishEvent) -> (next: (PublishState, PublishAction))
        ensures
            (next.0@, next.1@) == publish_transition(self@, event@),
    {
        match (self, event) {
            (PublishState::Claiming(draft), PublishEvent::Claimed(true)) => {
                let response = see_other("/admin/newsletters");
                let columns = SavedResponse::from_response(&response);
                let Draft { user_id, key, issue } = draft;
                (
                    PublishState::Committing(response),
                    PublishAction::Commit { user_id, key, issue, columns },
                )
            },
            (PublishState::Claiming(draft), PublishEvent::Claimed(false)) => (
                PublishState::Replaying,
                PublishAction::LoadSaved { user_id: draft.user_id, key: draft.key },
            ),
            (PublishState::Replaying, PublishEvent::Saved(record)) => {
                let answer = match record {
                    Some(row) => match row.to_response() {
                        Ok(response) => Ok(response),
                        Err(e) => Err(
                            PublishError::UnexpectedError(PublishFault::Idempotency(e)),
                        ),
                    },
                    None => Err(
                        PublishError::UnexpectedError(
                            PublishFault::Idempotency(IdempotencyError::MissingSavedResponse),
                        ),
                    ),
                };
                (PublishState::Finished, PublishAction::Respond(answer))
            },
            (PublishState::Committing(response), PublishEvent::Committed) => (
                PublishState::Finished,
                PublishAction::Respond(Ok(response)),
            ),
            _ => (
                PublishState::Finished,
                PublishAction::Respond(
                    Err(PublishError::UnexpectedError(PublishFault::Storage)),
                ),
            ),
        }
    }
}

/// Calls `uuid::Uuid::new_v4` for a random identifier, and gives it as the
/// 128-bit number that `Uuid::as_u128` packs it into. Nothing is claimed of
/// the value.
#[verifier::external_body]
fn new_issue_id() -> u128 {
    uuid::Uuid::new_v4().as_u128()
}

/// Publishes an issue under the identifier `issue_id`: runs a publish
/// request from its start to its answer against the store, with `subscribers`
/// as the confirmed subscribers of the moment.
///
/// The key is validated first. A key that has completed replays its saved
/// response and nothing is written. A free key is claimed, and in one step
/// the issue is stored, one delivery task per subscriber of the snapshot is
/// queued and the accepted response is saved under the key. Any failure
/// leaves the store as it was.
pub fn publish_issue(
    store: &mut Store,
    form: FormData,
    user_id: u128,
    subscribers: Vec<String>,
    now: u64,
    issue_id: u128,
) -> (r: Result<Response, PublishError>)
    requires
        old(store).wf(),
    ensures
        final(store).wf(),
        final(store)@ == publish_store(
            old(store)@,
            user_id,
            form.idempotency_key@,
            issue_id,
            form.content(),
            texts(subscribers@),
            now,
        ),
        match r {
            Ok(response) => publish_result(old(store)@, user_id, form.idempotency_key@, issue_id)
                == Ok::<ResponseView, PublishError>(response@),
            Err(e) => publish_result(old(store)@, user_id, form.idempotency_key@, issue_id)
                == Err::<ResponseView, PublishError>(e),
        },
{
    let ghost before = store@;
    let ghost key_text = form.idempotency_key@;
    let ghost content = form.content();
    let (state, action) = PublishState::start(form, user_id, issue_id);
    let (_, action) = match action {
        PublishAction::Claim { user_id, key } => {
            match store.begin(user_id, &key, now) {
                Some(transaction) => {
                    let mut transaction = transaction;
                    let (state, action) = state.step(PublishEvent::Claimed(true));
                    match action {
                        PublishAction::Commit { user_id: _, key: _, issue, columns } => {
                            transaction.insert_newsletter_issue(issue);
                            transaction.enqueue_delivery_tasks(subscribers);
                            proof {
                                assert(transaction@ == publish_transaction(
                                    user_id,
                                    key_text,
                                    issue_id,
                                    content,
                                    texts(subscribers@),
                                ));
                                assert(before.with_claim(user_id, key_text, now).without_key(
                                    user_id,
                                    key_text,
                                ).idempotency =~= before.idempotency);
                            }
                            let event = match store.commit(transaction, columns) {
                                Ok(_) => PublishEvent::Committed,
                                Err(_) => PublishEvent::Failed,
                            };
                            state.step(event)
                        },
                        other => {
                            store.rollback(transaction);
                            (state, other)
                        },
                    }
                },
                None => {
                    let (state, action) = state.step(PublishEvent::Claimed(false));
                    match action {
                        PublishAction::LoadSaved { user_id, key } => {
                            let record = store.find_record(user_id, key.as_string());
                            state.step(PublishEvent::Saved(record))
                        },
                        other => (state, other),
                    }
                },
            }
        },
        other => (state, other),
    };
    match action {
        PublishAction::Respond(answer) => answer,
        _ => Err(PublishError::UnexpectedError(PublishFault::Storage)),
    }
}

/// Publishes an issue under a fresh random identifier; see `publish_issue`.
pub fn publish_newsletter(
    store: &mut Store,
    form: FormData,
    user_id: u128,
    subscribers: Vec<String>,
    now: u64,
) -> (r: Result<Response, PublishError>)
    requires
        old(store).wf(),
    ensures
        final(store).wf(),
        exists|issue_id: u128|
            {
                &&& final(store)@ == publish_store(
                    old(store)@,
                    user_id,
                    form.idempotency_key@,
                    issue_id,
                    form.content(),
                    texts(subscribers@),
                    now,
                )
                &&& match r {
                    Ok(response) => #[trigger] publish_result(
                        old(store)@,
                        user_id,
                        form.idempotency_key@,
                        issue_id,
                    ) == Ok::<ResponseView, PublishError>(response@),
                    Err(e) => publish_result(old(store)@, user_id, form.idempotency_key@, issue_id)
                        == Err::<ResponseView, PublishError>(e),
                }
            },
{
    let issue_id = new_issue_id();
    publish_issue(store, form, user_id, subscribers, now, issue_id)
}

impl PublishState {
    /// Starts a publish request with a fresh random identifier for its
    /// issue; see `PublishState::start`.
    pub fn begin(form: FormData, user_id: u128) -> (first: (PublishState, PublishAction))
        ensures
            exists|issue_id: u128|
                (first.0@, first.1@) == #[trigger] publish_start(
                    user_id,
                    form.idempotency_key@,
                    issue_id,
                    form.content(),
                ),
    {
        let issue_id = new_issue_id();
        PublishState::start(form, user_id, issue_id)
    }
}

/// One publish request as plain values, with the time it arrives at and the
/// identifier drawn for its issue.
pub struct PublishRequest {
    pub user_id: u128,
    pub key: Seq<char>,
    pub content: IssueView,
    pub subscribers: Seq<Seq<char>>,
    pub now: u64,
    pub issue_id: u128,
}

impl PublishRequest {
    /// What the request answers on the store.
    pub open spec fn result(self, store: StoreView) -> Result<ResponseView, PublishError> {
        publish_result(store, self.user_id, self.key, self.issue_id)
    }

    /// The store that the request leaves.
    pub open spec fn store_after(self, store: StoreView) -> StoreView {
        publish_store(
            store,
            self.user_id,
            self.key,
            self.issue_id,
            self.content,
            self.subscribers,
            self.now,
        )
    }

    /// Whether the request writes to the store.
    pub open spec fn writes(self, store: StoreView) -> bool {
        publish_writes(store, self.user_id, self.key, self.issue_id)
    }
}

/// An accepted publish request leaves its key completed, with the accepted
/// response saved under it.
pub proof fn lemma_published_key_is_completed(store: StoreView, request: PublishRequest)
    requires
        request.writes(store),
    ensures
        request.result(store) == Ok::<ResponseView, PublishError>(accepted_response()),
        request.store_after(store).is_completed(request.user_id, request.key),
        request.store_after(store).saved_response(request.user_id, request.key) == Some(
            accepted_response(),
        ),
        request.store_after(store).issues == store.issues.insert(request.issue_id, request.content),
        request.store_after(store).queue == store.queue.union_prefer_right(
            batch(request.issue_id, request.subscribers),
        ),
{
    lemma_saved_response_round_trip(accepted_response());
}

/// Publishing is idempotent.
///
/// Take a publish request that succeeds, and after it any request of the same
/// user with the same key, whatever its title, bodies, subscribers, time and
/// issue identifier. The second request answers with the very response of the
/// first and leaves the store as the first left it: no second issue is
/// stored and no second batch of tasks is queued.
pub proof fn lemma_publish_is_idempotent(
    store: StoreView,
    first: PublishRequest,
    second: PublishRequest,
)
    requires
        is_valid_key(first.key),
        second.user_id == first.user_id,
        second.key == first.key,
        first.result(store) is Ok,
    ensures
        second.result(first.store_after(store)) == first.result(store),
        second.store_after(first.store_after(store)) == first.store_after(store),
        !second.writes(first.store_after(store)),
{
    if first.writes(store) {
        lemma_published_key_is_completed(store, first);
    }
}

/// Between them, a successful publish request and a retry with the same key
/// store at most one issue and queue at most one batch: the issue and the
/// batch of the first, where its key was free, and none where the first
/// replayed an earlier response.
pub proof fn lemma_publish_and_retry_write_once(
    store: StoreView,
    first: PublishRequest,
    second: PublishRequest,
)
    requires
        is_valid_key(first.key),
        second.user_id == first.user_id,
        second.key == first.key,
        first.result(store) is Ok,
    ensures
        ({
            let end = second.store_after(first.store_after(store));
            if store.idempotency.contains_key((first.user_id, first.key)) {
                end == store
            } else {
                &&& end.issues == store.issues.insert(first.issue_id, first.content)
                &&& end.queue == store.queue.union_prefer_right(
                    batch(first.issue_id, first.subscribers),
                )
                &&& end.is_completed(first.user_id, first.key)
            }
        }),
{
    lemma_publish_is_idempotent(store, first, second);
    if first.writes(store) {
        lemma_published_key_is_completed(store, first);
    }
}

} // verus!
