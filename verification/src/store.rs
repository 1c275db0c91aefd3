//! The storage that the publish coordinator and the delivery workers share:
//! the idempotency table, the issue table and the delivery queue, held in
//! memory, with the transactions that change them.

use crate::idempotency::key::IdempotencyKey;
use crate::idempotency::persistence::IdempotencyRecord;
use crate::idempotency::persistence::IdempotencyRecordView;
use crate::idempotency::persistence::SavedResponse;
use crate::idempotency::persistence::SavedResponseView;
use crate::table::Table;
use vstd::prelude::*;

verus! {

/// One issue of the newsletter. It never changes once stored.
#[derive(Debug)]
pub struct NewsletterIssue {
    pub issue_id: u128,
    pub title: String,
    pub html_content: String,
    pub text_content: String,
}

/// What an issue says, apart from its identifier.
pub struct IssueView {
    pub title: Seq<char>,
    pub html_content: Seq<char>,
    pub text_content: Seq<char>,
}

impl NewsletterIssue {
    pub open spec fn content(self) -> IssueView {
        IssueView {
            title: self.title@,
            html_content: self.html_content@,
            text_content: self.text_content@,
        }
    }
}

impl Clone for NewsletterIssue {
    fn clone(&self) -> (copy: Self)
        ensures
            copy.issue_id == self.issue_id,
            copy.content() == self.content(),
    {
        NewsletterIssue {
            issue_id: self.issue_id,
            title: self.title.clone(),
            html_content: self.html_content.clone(),
            text_content: self.text_content.clone(),
        }
    }
}

/// The three tables as mathematical maps.
///
/// A row of the idempotency table is keyed by user and key. A row of the
/// delivery queue is keyed by issue and recipient address and maps to the
/// worker that holds its lock, if any.
#[verifier::ext_equal]
pub struct StoreView {
    pub idempotency: Map<(u128, Seq<char>), IdempotencyRecordView>,
    pub issues: Map<u128, IssueView>,
    pub queue: Map<(u128, Seq<char>), Option<u64>>,
}

/// A lock after `worker` gave up what it held.
pub open spec fn unlocked(lock: Option<u64>, worker: u64) -> Option<u64> {
    if lock == Some(worker) {
        None
    } else {
        lock
    }
}

impl StoreView {
    /// Every delivery task refers to a stored issue.
    pub open spec fn inv(self) -> bool {
        forall|k: (u128, Seq<char>)| #[trigger]
            self.queue.contains_key(k) ==> self.issues.contains_key(k.0)
    }

    /// Each of the tables has finitely many rows.
    pub open spec fn is_finite(self) -> bool {
        &&& self.idempotency.dom().finite()
        &&& self.issues.dom().finite()
        &&& self.queue.dom().finite()
    }

    /// The key has a row without a response: a request holds it and has not completed.
    pub open spec fn is_claimed(self, user_id: u128, key: Seq<char>) -> bool {
        self.idempotency.contains_key((user_id, key)) && self.idempotency[(
            user_id,
            key,
        )].saved is None
    }

    /// The key has a row with a response: a request with it has completed.
    pub open spec fn is_completed(self, user_id: u128, key: Seq<char>) -> bool {
        self.idempotency.contains_key((user_id, key)) && self.idempotency[(
            user_id,
            key,
        )].saved is Some
    }

    /// The task is in the queue and no worker holds it.
    pub open spec fn is_claimable(self, task: (u128, Seq<char>)) -> bool {
        self.queue.contains_key(task) && self.queue[task] is None
    }

    /// The task is in the queue and `worker` holds it.
    pub open spec fn is_held_by(self, task: (u128, Seq<char>), worker: u64) -> bool {
        self.queue.contains_key(task) && self.queue[task] == Some(worker)
    }

    /// The store after a bare claim row for the key was added at time `now`.
    pub open spec fn with_claim(self, user_id: u128, key: Seq<char>, now: u64) -> StoreView {
        StoreView {
            idempotency: self.idempotency.insert(
                (user_id, key),
                IdempotencyRecordView { created_at: now, saved: None },
            ),
            ..self
        }
    }

    /// The store after the row for the key was removed.
    pub open spec fn without_key(self, user_id: u128, key: Seq<char>) -> StoreView {
        StoreView { idempotency: self.idempotency.remove((user_id, key)), ..self }
    }

    /// The store after `worker` took the lock of the task.
    pub open spec fn with_lock(self, task: (u128, Seq<char>), worker: u64) -> StoreView {
        StoreView { queue: self.queue.insert(task, Some(worker)), ..self }
    }

    /// The store after every lock that `worker` held was given up.
    pub open spec fn without_locks_of(self, worker: u64) -> StoreView {
        StoreView {
            queue: Map::new(
                |k: (u128, Seq<char>)| self.queue.contains_key(k),
                |k: (u128, Seq<char>)| unlocked(self.queue[k], worker),
            ),
            ..self
        }
    }

    /// The store after the task was deleted from the queue.
    pub open spec fn without_task(self, task: (u128, Seq<char>)) -> StoreView {
        StoreView { queue: self.queue.remove(task), ..self }
    }
}

/// What is stored stays stored.
///
/// A transaction, whether it commits or is rolled back, deletes no completed
/// row of the idempotency table and changes none, changes no stored issue,
/// and deletes no task from the queue and takes no lock.
pub proof fn lemma_transactions_keep_what_is_stored(
    store: StoreView,
    t: TransactionView,
    saved: SavedResponseView,
)
    requires
        store.inv(),
    ensures
        ({
            let after = if store.commit_error(t) is None {
                store.committed(t, saved)
            } else {
                store.rolled_back(t)
            };
            &&& forall|user_id: u128, key: Seq<char>| #[trigger]
                store.is_completed(user_id, key) ==> after.idempotency.contains_key((user_id, key))
                    && after.idempotency[(user_id, key)] == store.idempotency[(user_id, key)]
            &&& forall|issue_id: u128| #[trigger]
                store.issues.contains_key(issue_id) ==> after.issues.contains_key(issue_id)
                    && after.issues[issue_id] == store.issues[issue_id]
            &&& forall|task: (u128, Seq<char>)| #[trigger]
                store.queue.contains_key(task) ==> after.queue.contains_key(task)
                    && after.queue[task] == store.queue[task]
        }),
{
    if store.commit_error(t) is None {
        let after = store.committed(t, saved);
        assert forall|task: (u128, Seq<char>)| #[trigger]
            store.queue.contains_key(task) implies after.queue.contains_key(task)
            && after.queue[task] == store.queue[task] by {
            assert(store.issues.contains_key(task.0));
        }
    }
}

/// A claim that ends in a crash leaves no trace.
///
/// Let `worker` hold nothing, take the lock of a free task and give up all
/// its locks before it deleted the task. Then the store is as it was before
/// the claim: the task is in the queue and free. Another worker can take its
/// lock, and once that one has deleted it, it is gone.
pub proof fn lemma_abandoned_claim_leaves_no_trace(
    store: StoreView,
    task: (u128, Seq<char>),
    worker: u64,
    other: u64,
)
    requires
        store.is_claimable(task),
        forall|k: (u128, Seq<char>)| !store.is_held_by(k, worker),
    ensures
        store.with_lock(task, worker).without_locks_of(worker) == store,
        store.with_lock(task, worker).without_locks_of(worker).is_claimable(task),
        store.with_lock(task, other).is_held_by(task, other),
        !store.with_lock(task, other).without_task(task).queue.contains_key(task),
{
    let after = store.with_lock(task, worker).without_locks_of(worker);
    assert forall|k: (u128, Seq<char>)| after.queue.contains_key(k) implies after.queue[k]
        == store.queue[k] by {
        assert(!store.is_held_by(k, worker));
    }
    assert(after.queue =~= store.queue);
}

/// The texts of a list of strings, in order.
pub open spec fn texts(strings: Seq<String>) -> Seq<Seq<char>> {
    Seq::new(strings.len(), |i: int| strings[i]@)
}

/// The delivery tasks of one issue for a snapshot of recipients: one row per
/// distinct address, none of them locked.
pub open spec fn batch(issue_id: u128, recipients: Seq<Seq<char>>) -> Map<
    (u128, Seq<char>),
    Option<u64>,
> {
    Map::new(
        |k: (u128, Seq<char>)| k.0 == issue_id && recipients.contains(k.1),
        |k: (u128, Seq<char>)| None::<u64>,
    )
}

/// The writes of one publish request, held back until the request completes.
///
/// It stands for the claim on one idempotency key. The issue and the
/// recipients staged in it reach the tables only on `Store::commit`. A
/// transaction ends in `Store::commit` or `Store::rollback`; one that is
/// let go without either leaves its claim row in the table, where every
/// later request with the key finds it claimed and not completed.
#[derive(Debug)]
#[must_use]
pub struct Transaction {
    user_id: u128,
    idempotency_key: String,
    issue: Option<NewsletterIssue>,
    recipients: Vec<String>,
}

/// What a transaction holds.
pub struct TransactionView {
    pub user_id: u128,
    pub key: Seq<char>,
    pub issue: Option<(u128, IssueView)>,
    pub recipients: Seq<Seq<char>>,
}

impl View for Transaction {
    type V = TransactionView;

    closed spec fn view(&self) -> TransactionView {
        TransactionView {
            user_id: self.user_id,
            key: self.idempotency_key@,
            issue: match self.issue {
                Some(issue) => Some((issue.issue_id, issue.content())),
                None => None,
            },
            recipients: texts(self.recipients@),
        }
    }
}

impl Transaction {
    /// Stages the issue that this transaction will insert. An issue staged
    /// before is replaced.
    pub fn insert_newsletter_issue(&mut self, issue: NewsletterIssue)
        ensures
            final(self)@ == (TransactionView {
                issue: Some((issue.issue_id, issue.content())),
                ..old(self)@
            }),
    {
        self.issue = Some(issue);
    }

    /// Stages one delivery task per address of the snapshot, for the staged
    /// issue. A snapshot staged before is replaced.
    pub fn enqueue_delivery_tasks(&mut self, recipients: Vec<String>)
        ensures
            final(self)@ == (TransactionView { recipients: texts(recipients@), ..old(self)@ }),
    {
        self.recipients = recipients;
    }

    /// The user whose request this is.
    pub fn user_id(&self) -> (user_id: u128)
        ensures
            user_id == self@.user_id,
    {
        self.user_id
    }

    /// The idempotency key that this transaction holds.
    pub fn idempotency_key(&self) -> (key: &String)
        ensures
            key@ == self@.key,
    {
        &self.idempotency_key
    }
}

/// Why a commit was refused.
#[derive(Clone, Copy, Debug, PartialEq, Eq, Structural)]
pub enum CommitError {
    /// The idempotency table holds no bare claim row for the transaction's key.
    ClaimMissing,
    /// The staged issue carries the identifier of a stored issue, or
    /// recipients were staged without an issue.
    Conflict,
}

impl StoreView {
    /// The transaction's key is claimed and not completed.
    pub open spec fn holds_claim(self, t: TransactionView) -> bool {
        self.is_claimed(t.user_id, t.key)
    }

    /// The staged writes break no rule of the tables.
    pub open spec fn accepts(self, t: TransactionView) -> bool {
        match t.issue {
            Some((issue_id, _)) => !self.issues.contains_key(issue_id),
            None => t.recipients.len() == 0,
        }
    }

    /// The verdict on a commit of `t`.
    pub open spec fn commit_error(self, t: TransactionView) -> Option<CommitError> {
        if !self.holds_claim(t) {
            Some(CommitError::ClaimMissing)
        } else if !self.accepts(t) {
            Some(CommitError::Conflict)
        } else {
            None
        }
    }

    /// The store after `t` committed with the response `saved`: the row of its
    /// key is completed, its issue is stored and its tasks are queued.
    pub open spec fn committed(self, t: TransactionView, saved: SavedResponseView) -> StoreView {
        let k = (t.user_id, t.key);
        StoreView {
            idempotency: self.idempotency.insert(
                k,
                IdempotencyRecordView {
                    created_at: self.idempotency[k].created_at,
                    saved: Some(saved),
                },
            ),
            issues: match t.issue {
                Some((issue_id, content)) => self.issues.insert(issue_id, content),
                None => self.issues,
            },
            queue: match t.issue {
                Some((issue_id, _)) => self.queue.union_prefer_right(
                    batch(issue_id, t.recipients),
                ),
                None => self.queue,
            },
        }
    }

    /// The store after `t` was rolled back: its claim row is gone, and nothing
    /// else has changed.
    pub open spec fn rolled_back(self, t: TransactionView) -> StoreView {
        if self.holds_claim(t) {
            self.without_key(t.user_id, t.key)
        } else {
            self
        }
    }
}

/// The three tables.
pub struct Store {
    idempotency: Table<IdempotencyRecord>,
    issues: Vec<NewsletterIssue>,
    issue_map: Ghost<Map<u128, IssueView>>,
    queue: Table<Option<u64>>,
}

impl View for Store {
    type V = StoreView;

    closed spec fn view(&self) -> StoreView {
        StoreView {
            idempotency: self.idempotency@,
            issues: self.issue_map@,
            queue: self.queue@,
        }
    }
}

impl Store {
    /// The tables are consistent with their views, no primary key occurs
    /// twice, and every delivery task refers to a stored issue.
    pub closed spec fn wf(self) -> bool {
        &&& self.idempotency.wf()
        &&& self.queue.wf()
        &&& self.issue_map@.dom().finite()
        &&& self.issue_map@.dom().len() == self.issues@.len()
        &&& forall|i: int|
            0 <= i < self.issues@.len() ==> self.issue_map@.contains_key(
                #[trigger] self.issues@[i].issue_id,
            ) && self.issue_map@[self.issues@[i].issue_id] == self.issues@[i].content()
        &&& forall|id: u128| #[trigger]
            self.issue_map@.contains_key(id) ==> exists|i: int|
                0 <= i < self.issues@.len() && #[trigger] self.issues@[i].issue_id == id
        &&& forall|k: (u128, Seq<char>)| #[trigger]
            self.queue@.contains_key(k) ==> self.issue_map@.contains_key(k.0)
    }

    /// A well-formed store has finite tables in which every delivery task
    /// refers to a stored issue.
    pub proof fn lemma_view_inv(self)
        requires
            self.wf(),
        ensures
            self@.inv(),
            self@.is_finite(),
    {
        self.idempotency.lemma_len();
        self.queue.lemma_len();
    }

    /// A store with three empty tables.
    pub fn new() -> (store: Store)
        ensures
            store.wf(),
            store@.idempotency == Map::<(u128, Seq<char>), IdempotencyRecordView>::empty(),
            store@.issues == Map::<u128, IssueView>::empty(),
            store@.queue == Map::<(u128, Seq<char>), Option<u64>>::empty(),
    {
        Store {
            idempotency: Table::new(),
            issues: Vec::new(),
            issue_map: Ghost(Map::empty()),
            queue: Table::new(),
        }
    }

    fn issue_position(&self, issue_id: u128) -> (r: Option<usize>)
        requires
            self.wf(),
        ensures
            match r {
                Some(i) => i < self.issues@.len() && self.issues@[i as int].issue_id == issue_id,
                None => !self@.issues.contains_key(issue_id),
            },
    {
        let mut i: usize = 0;
        while i < self.issues.len()
            invariant
                self.wf(),
                i <= self.issues@.len(),
                forall|j: int| 0 <= j < i ==> (#[trigger] self.issues@[j]).issue_id != issue_id,
            decreases self.issues@.len() - i,
        {
            if self.issues[i].issue_id == issue_id {
                return Some(i);
            }
            i = i + 1;
        }
        None
    }

    /// The stored issue with the given identifier.
    pub fn get_issue(&self, issue_id: u128) -> (r: Option<NewsletterIssue>)
        requires
            self.wf(),
        ensures
            match r {
                Some(issue) => self@.issues.contains_key(issue_id) && issue.issue_id == issue_id
                    && issue.content() == self@.issues[issue_id],
                None => !self@.issues.contains_key(issue_id),
            },
    {
        match self.issue_position(issue_id) {
            Some(i) => Some(self.issues[i].clone()),
            None => None,
        }
    }

    /// The number of stored issues.
    pub fn issue_count(&self) -> (n: usize)
        requires
            self.wf(),
        ensures
            n == self@.issues.dom().len(),
    {
        self.issues.len()
    }

    /// The number of rows in the delivery queue, locked or not.
    pub fn queue_len(&self) -> (n: usize)
        requires
            self.wf(),
        ensures
            n == self@.queue.dom().len(),
    {
        self.queue.len()
    }

    /// Whether the queue holds the task, locked or not.
    pub fn is_queued(&self, issue_id: u128, recipient: &String) -> (b: bool)
        requires
            self.wf(),
        ensures
            b == self@.queue.contains_key((issue_id, recipient@)),
    {
        self.queue.contains(issue_id, recipient)
    }

    /// The row of the idempotency table under the given key, if there is one.
    pub fn find_record(&self, user_id: u128, key: &String) -> (r: Option<IdempotencyRecord>)
        requires
            self.wf(),
        ensures
            match r {
                Some(record) => self@.idempotency.contains_key((user_id, key@)) && record@
                    == self@.idempotency[(user_id, key@)],
                None => !self@.idempotency.contains_key((user_id, key@)),
            },
    {
        match self.idempotency.position(user_id, key) {
            Some(i) => Some(self.idempotency.value_at(i).clone()),
            None => None,
        }
    }

    /// Opens a transaction on the key by adding a bare claim row, unless the
    /// key has a row already: then nothing changes and no transaction opens.
    pub fn begin(&mut self, user_id: u128, key: &IdempotencyKey, now: u64) -> (r: Option<
        Transaction,
    >)
        requires
            old(self).wf(),
        ensures
            final(self).wf(),
            match r {
                Some(t) => !old(self)@.idempotency.contains_key((user_id, key@)) && final(self)@
                    == old(self)@.with_claim(user_id, key@, now) && t@ == (TransactionView {
                    user_id,
                    key: key@,
                    issue: None,
                    recipients: Seq::empty(),
                }),
                None => old(self)@.idempotency.contains_key((user_id, key@)) && final(self)@
                    == old(self)@,
            },
    {
        if self.idempotency.contains(user_id, key.as_string()) {
            return None;
        }
        let name = key.as_string().clone();
        self.idempotency.insert(
            user_id,
            key.as_string().clone(),
            IdempotencyRecord { created_at: now, saved: None },
        );
        let t = Transaction { user_id, idempotency_key: name, issue: None, recipients: Vec::new() };
        proof {
            assert(t@.recipients =~= Seq::empty());
        }
        Some(t)
    }

    /// Gives up the transaction: its claim row is removed, and nothing that
    /// was staged reaches the tables.
    pub fn rollback(&mut self, transaction: Transaction)
        requires
            old(self).wf(),
        ensures
            final(self).wf(),
            final(self)@ == old(self)@.rolled_back(transaction@),
    {
        match self.idempotency.position(transaction.user_id, &transaction.idempotency_key) {
            Some(i) => {
                if self.idempotency.value_at(i).saved.is_none() {
                    let _ = self.idempotency.remove(i);
                }
            },
            None => {},
        }
    }

    /// Completes the transaction: in one step the staged issue is stored, one
    /// task per staged recipient is queued, and the claim row receives the
    /// response. Where the commit is refused the transaction is rolled back.
    pub fn commit(&mut self, transaction: Transaction, saved: SavedResponse) -> (r: Result<
        (),
        CommitError,
    >)
        requires
            old(self).wf(),
        ensures
            final(self).wf(),
            match r {
                Ok(_) => old(self)@.commit_error(transaction@) is None && final(self)@ == old(
                    self,
                )@.committed(transaction@, saved@),
                Err(e) => old(self)@.commit_error(transaction@) == Some(e) && final(self)@ == old(
                    self,
                )@.rolled_back(transaction@),
            },
    {
        let ghost t = transaction@;
        let ghost before = self@;
        let Transaction { user_id, idempotency_key, issue, recipients } = transaction;
        let position = match self.idempotency.position(user_id, &idempotency_key) {
            Some(i) => i,
            None => {
                return Err(CommitError::ClaimMissing);
            },
        };
        if self.idempotency.value_at(position).saved.is_some() {
            return Err(CommitError::ClaimMissing);
        }
        let created_at = self.idempotency.value_at(position).created_at;
        match issue {
            None => {
                if recipients.len() > 0 {
                    let _ = self.idempotency.remove(position);
                    return Err(CommitError::Conflict);
                }
            },
            Some(issue) => {
                if self.issue_position(issue.issue_id).is_some() {
                    let _ = self.idempotency.remove(position);
                    return Err(CommitError::Conflict);
                }
                let issue_id = issue.issue_id;
                self.store_issue(issue);
                self.enqueue(issue_id, &recipients);
            },
        }
        self.idempotency.replace(position, IdempotencyRecord { created_at, saved: Some(saved) });
        Ok(())
    }

    fn store_issue(&mut self, issue: NewsletterIssue)
        requires
            old(self).wf(),
            !old(self)@.issues.contains_key(issue.issue_id),
        ensures
            final(self).wf(),
            final(self)@ == (StoreView {
                issues: old(self)@.issues.insert(issue.issue_id, issue.content()),
                ..old(self)@
            }),
            final(self).idempotency == old(self).idempotency,
    {
        let ghost before = *self;
        let ghost id = issue.issue_id;
        let ghost content = issue.content();
        self.issues.push(issue);
        self.issue_map = Ghost(before.issue_map@.insert(id, content));
        proof {
            assert(self.issues@[self.issues@.len() - 1].issue_id == id);
            assert forall|i: int| 0 <= i < self.issues@.len() implies self.issue_map@.contains_key(
                #[trigger] self.issues@[i].issue_id,
            ) && self.issue_map@[self.issues@[i].issue_id] == self.issues@[i].content() by {
                if i < before.issues@.len() {
                    assert(self.issues@[i] == before.issues@[i]);
                    assert(before.issue_map@.contains_key(before.issues@[i].issue_id));
                }
            }
            assert forall|q: u128| #[trigger] self.issue_map@.contains_key(q) implies exists|i: int|
                0 <= i < self.issues@.len() && #[trigger] self.issues@[i].issue_id == q by {
                if q == id {
                    assert(self.issues@[self.issues@.len() - 1].issue_id == q);
                } else {
                    assert(before.issue_map@.contains_key(q));
                    let i = choose|i: int|
                        0 <= i < before.issues@.len() && #[trigger] before.issues@[i].issue_id == q;
                    assert(self.issues@[i] == before.issues@[i]);
                }
            }
            assert forall|k: (u128, Seq<char>)| #[trigger]
                self.queue@.contains_key(k) implies self.issue_map@.contains_key(k.0) by {
                assert(before.queue@.contains_key(k));
            }
        }
    }

    fn enqueue(&mut self, issue_id: u128, recipients: &Vec<String>)
        requires
            old(self).wf(),
            old(self)@.issues.contains_key(issue_id),
            forall|k: (u128, Seq<char>)| #[trigger]
                old(self)@.queue.contains_key(k) ==> k.0 != issue_id,
        ensures
            final(self).wf(),
            final(self)@ == (StoreView {
                queue: old(self)@.queue.union_prefer_right(batch(issue_id, texts(recipients@))),
                ..old(self)@
            }),
            final(self).idempotency == old(self).idempotency,
    {
        let ghost before = *self;
        let ghost all = texts(recipients@);
        let mut i: usize = 0;
        proof {
            assert(before.queue@.union_prefer_right(batch(issue_id, all.take(0)))
                =~= before.queue@);
        }
        while i < recipients.len()
            invariant
                self.wf(),
                i <= recipients@.len(),
                all == texts(recipients@),
                self.idempotency == before.idempotency,
                self.issues == before.issues,
                self.issue_map == before.issue_map,
                self.issue_map@.contains_key(issue_id),
                forall|k: (u128, Seq<char>)| #[trigger]
                    before.queue@.contains_key(k) ==> k.0 != issue_id,
                self.queue@ == before.queue@.union_prefer_right(batch(issue_id, all.take(i as int))),
            decreases recipients@.len() - i,
        {
            let ghost current = self.queue@;
            let ghost k = (issue_id, recipients@[i as int]@);
            if !self.queue.contains(issue_id, &recipients[i]) {
                self.queue.insert(issue_id, recipients[i].clone(), None);
            }
            proof {
                let prefix = all.take(i as int);
                let longer = all.take(i + 1);
                assert(longer =~= prefix.push(k.1));
                assert(all[i as int] == k.1);
                assert forall|q: (u128, Seq<char>)|
                    batch(issue_id, longer).contains_key(q) <==> (batch(
                        issue_id,
                        prefix,
                    ).contains_key(q) || q == k) by {
                    if q.0 == issue_id && longer.contains(q.1) {
                        let j = choose|j: int| 0 <= j < longer.len() && longer[j] == q.1;
                        if j < prefix.len() {
                            assert(prefix[j] == q.1);
                        }
                    }
                    if q.0 == issue_id && prefix.contains(q.1) {
                        let j = choose|j: int| 0 <= j < prefix.len() && prefix[j] == q.1;
                        assert(longer[j] == q.1);
                    }
                    if q == k {
                        assert(longer[i as int] == q.1);
                    }
                }
                if current.contains_key(k) && !batch(issue_id, prefix).contains_key(k) {
                    assert(before.queue@.contains_key(k));
                }
                assert(self.queue@ =~= before.queue@.union_prefer_right(batch(issue_id, longer)));
            }
            i = i + 1;
        }
        proof {
            assert(all.take(i as int) =~= all);
        }
    }

    /// Takes the lock of one task that no worker holds, for `worker`. Tasks
    /// that another worker holds are passed over.
    pub fn dequeue_task(&mut self, worker: u64) -> (r: Option<(u128, String)>)
        requires
            old(self).wf(),
        ensures
            final(self).wf(),
            match r {
                Some((issue_id, recipient)) => old(self)@.is_claimable((issue_id, recipient@))
                    && final(self)@ == old(self)@.with_lock((issue_id, recipient@), worker),
                None => final(self)@ == old(self)@ && forall|k: (u128, Seq<char>)|
                    !old(self)@.is_claimable(k),
            },
    {
        let mut i: usize = 0;
        while i < self.queue.len()
            invariant
                self.wf(),
                *self == *old(self),
                i <= self.queue.spec_len(),
                forall|j: int|
                    0 <= j < i ==> self.queue@[#[trigger] self.queue.key_at(j)] is Some,
            decreases self.queue.spec_len() - i,
        {
            if self.queue.value_at(i).is_none() {
                let issue_id = self.queue.id_at(i);
                let recipient = self.queue.name_at(i).clone();
                self.queue.replace(i, Some(worker));
                return Some((issue_id, recipient));
            }
            i = i + 1;
        }
        proof {
            assert forall|k: (u128, Seq<char>)| !self@.is_claimable(k) by {
                if self.queue@.contains_key(k) {
                    self.queue.lemma_key_has_position(k);
                    let j = choose|j: int|
                        0 <= j < self.queue.spec_len() && #[trigger] self.queue.key_at(j) == k;
                    assert(self.queue@[self.queue.key_at(j)] is Some);
                }
            }
        }
        None
    }

    /// Deletes the task if `worker` holds its lock; says whether it did.
    pub fn delete_task(&mut self, worker: u64, issue_id: u128, recipient: &String) -> (deleted:
        bool)
        requires
            old(self).wf(),
        ensures
            final(self).wf(),
            deleted == old(self)@.is_held_by((issue_id, recipient@), worker),
            final(self)@ == if deleted {
                old(self)@.without_task((issue_id, recipient@))
            } else {
                old(self)@
            },
    {
        match self.queue.position(issue_id, recipient) {
            Some(i) => {
                match self.queue.value_at(i) {
                    Some(holder) => {
                        if *holder == worker {
                            let _ = self.queue.remove(i);
                            true
                        } else {
                            false
                        }
                    },
                    None => false,
                }
            },
            None => false,
        }
    }

    /// Gives up every lock that `worker` holds, as the end of its process
    /// does: the tasks stay in the queue, free for any worker to take.
    pub fn abandon(&mut self, worker: u64)
        requires
            old(self).wf(),
        ensures
            final(self).wf(),
            final(self)@ == old(self)@.without_locks_of(worker),
    {
        let ghost before = self.queue@;
        let n = self.queue.len();
        let mut i: usize = 0;
        proof {
            assert forall|j: int| 0 <= j < n implies before.contains_key(
                #[trigger] self.queue.key_at(j),
            ) by {
                self.queue.lemma_position_in_view(j);
            }
        }
        while i < n
            invariant
                self.wf(),
                self.idempotency == old(self).idempotency,
                self.issues == old(self).issues,
                self.issue_map == old(self).issue_map,
                before == old(self).queue@,
                n == self.queue.spec_len(),
                i <= n,
                self.queue@.dom() == before.dom(),
                forall|j: int|
                    0 <= j < n ==> before.contains_key(#[trigger] self.queue.key_at(j)) && self.queue@[self.queue.key_at(
                        j,
                    )] == if j < i {
                        unlocked(before[self.queue.key_at(j)], worker)
                    } else {
                        before[self.queue.key_at(j)]
                    },
            decreases n - i,
        {
            let ghost current = self.queue;
            let ghost k = self.queue.key_at(i as int);
            let held = match self.queue.value_at(i) {
                Some(holder) => *holder == worker,
                None => false,
            };
            if held {
                self.queue.replace(i, None);
                proof {
                    assert(self.queue@.dom() =~= before.dom());
                    assert forall|j: int| 0 <= j < n implies before.contains_key(
                        #[trigger] self.queue.key_at(j),
                    ) && self.queue@[self.queue.key_at(j)] == if j < i + 1 {
                        unlocked(before[self.queue.key_at(j)], worker)
                    } else {
                        before[self.queue.key_at(j)]
                    } by {
                        assert(self.queue.key_at(j) == current.key_at(j));
                        assert(before.contains_key(current.key_at(j)));
                        if j != i {
                            current.lemma_keys_distinct(j, i as int);
                        }
                    }
                }
            }
            i = i + 1;
        }
        proof {
            let target = old(self)@.without_locks_of(worker).queue;
            assert forall|k: (u128, Seq<char>)| self.queue@.contains_key(k) implies self.queue@[k]
                == target[k] by {
                self.queue.lemma_key_has_position(k);
                let j = choose|j: int|
                    0 <= j < self.queue.spec_len() && #[trigger] self.queue.key_at(j) == k;
                assert(self.queue@[self.queue.key_at(j)] == unlocked(
                    before[self.queue.key_at(j)],
                    worker,
                ));
            }
            assert(self.queue@ =~= target);
        }
    }
}

} // verus!
