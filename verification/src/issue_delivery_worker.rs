//! The delivery worker: it takes one task of the queue at a time, sends the
//! issue to the task's recipient, and deletes the task.

use crate::domain::subscriber_email::is_valid_email;
use crate::domain::subscriber_email::SubscriberEmail;
use crate::email_client::EmailView;
use crate::email_client::Outbox;
use crate::store::IssueView;
use crate::store::NewsletterIssue;
use crate::store::Store;
use crate::store::StoreView;
use vstd::prelude::*;
use vstd::string::*;

verus! {

/// How long a worker sleeps after it found the queue empty, in seconds.
pub const EMPTY_QUEUE_PAUSE_SECONDS: u64 = 10;

/// How long a worker sleeps after an error, in seconds.
pub const BACKOFF_SECONDS: u64 = 1;

/// What one attempt to execute a task came to.
#[derive(Clone, Copy, Debug, PartialEq, Eq, Structural)]
pub enum ExecutionOutcome {
    TaskCompleted,
    EmptyQueue,
}

/// How long the worker loop sleeps after an attempt, in seconds: not at all
/// after a completed task, the long pause after an empty queue, the short
/// one after an error.
pub open spec fn pause_seconds<E>(attempt: Result<ExecutionOutcome, E>) -> u64 {
    match attempt {
        Ok(ExecutionOutcome::TaskCompleted) => 0,
        Ok(ExecutionOutcome::EmptyQueue) => EMPTY_QUEUE_PAUSE_SECONDS,
        Err(_) => BACKOFF_SECONDS,
    }
}

/// The pause that follows an attempt.
pub fn pause_after<E>(attempt: &Result<ExecutionOutcome, E>) -> (seconds: u64)
    ensures
        seconds == pause_seconds(*attempt),
{
    match attempt {
        Ok(ExecutionOutcome::TaskCompleted) => 0,
        Ok(ExecutionOutcome::EmptyQueue) => EMPTY_QUEUE_PAUSE_SECONDS,
        Err(_) => BACKOFF_SECONDS,
    }
}

/// Where a worker stands.
#[derive(Debug)]
#[allow(inconsistent_fields)]
pub enum WorkerState {
    /// Between tasks.
    Idle,
    /// Waiting for the queue to hand out a task.
    Claiming,
    /// Holding a task whose recipient is a valid address. While `mailing` is
    /// false the worker waits for the issue, afterwards for the mailer.
    Sending { issue_id: u128, recipient: SubscriberEmail, mailing: bool },
    /// Waiting for the held task to be deleted.
    Retiring { issue_id: u128, recipient: String },
    /// Sleeping after an error.
    Backoff,
}

/// What happened outside the worker since its last action.
#[derive(Debug)]
pub enum WorkerEvent {
    /// A pause is over, or the worker starts.
    Wake,
    /// The queue answered a claim: with the task now held, or with nothing.
    Claimed(Option<(u128, String)>),
    /// The issue that was asked for.
    IssueLoaded(NewsletterIssue),
    /// The mailer returned; `true` where it accepted the email.
    Sent(bool),
    /// The held task was deleted and the deletion committed.
    Retired,
    /// The storage failed.
    Failed,
}

/// What the worker asks to be done next.
#[derive(Debug)]
#[allow(inconsistent_fields)]
pub enum WorkerAction {
    /// Take the lock of one task that no worker holds, passing over the others.
    Claim,
    /// Read the issue with this identifier.
    LoadIssue { issue_id: u128 },
    /// Hand this email to the mailer.
    SendEmail {
        recipient: SubscriberEmail,
        subject: String,
        html_content: String,
        text_content: String,
    },
    /// Delete the held task and commit.
    Retire { issue_id: u128, recipient: String },
    /// Sleep for the given number of seconds, then wake the worker.
    Sleep { seconds: u64 },
    /// Give up the open transaction, which frees the held task, sleep for the
    /// given number of seconds, then wake the worker.
    BackOff { seconds: u64 },
}

/// A worker's state as plain values.
pub enum StateView {
    Idle,
    Claiming,
    Sending { issue_id: u128, recipient: Seq<char>, mailing: bool },
    Retiring { issue_id: u128, recipient: Seq<char> },
    Backoff,
}

/// An event as plain values.
pub enum EventView {
    Wake,
    Claimed(Option<(u128, Seq<char>)>),
    IssueLoaded(u128, IssueView),
    Sent(bool),
    Retired,
    Failed,
}

/// An action as plain values.
pub enum ActionView {
    Claim,
    LoadIssue { issue_id: u128 },
    SendEmail { recipient: Seq<char>, content: IssueView },
    Retire { issue_id: u128, recipient: Seq<char> },
    Sleep { seconds: u64 },
    BackOff { seconds: u64 },
}

impl View for WorkerState {
    type V = StateView;

    open spec fn view(&self) -> StateView {
        match *self {
            WorkerState::Idle => StateView::Idle,
            WorkerState::Claiming => StateView::Claiming,
            WorkerState::Sending { issue_id, recipient, mailing } => StateView::Sending {
                issue_id,
                recipient: recipient@,
                mailing,
            },
            WorkerState::Retiring { issue_id, recipient } => StateView::Retiring {
                issue_id,
                recipient: recipient@,
            },
            WorkerState::Backoff => StateView::Backoff,
        }
    }
}

impl View for WorkerEvent {
    type V = EventView;

    open spec fn view(&self) -> EventView {
        match *self {
            WorkerEvent::Wake => EventView::Wake,
            WorkerEvent::Claimed(Some((issue_id, recipient))) => EventView::Claimed(
                Some((issue_id, recipient@)),
            ),
            WorkerEvent::Claimed(None) => EventView::Claimed(None),
            WorkerEvent::IssueLoaded(issue) => EventView::IssueLoaded(
                issue.issue_id,
                issue.content(),
            ),
            WorkerEvent::Sent(accepted) => EventView::Sent(accepted),
            WorkerEvent::Retired => EventView::Retired,
            WorkerEvent::Failed => EventView::Failed,
        }
    }
}

impl View for WorkerAction {
    type V = ActionView;

    open spec fn view(&self) -> ActionView {
        match *self {
            WorkerAction::Claim => ActionView::Claim,
            WorkerAction::LoadIssue { issue_id } => ActionView::LoadIssue { issue_id },
            WorkerAction::SendEmail {
                recipient,
                subject,
                html_content,
                text_content,
            } => ActionView::SendEmail {
                recipient: recipient@,
                content: IssueView {
                    title: subject@,
                    html_content: html_content@,
                    text_content: text_content@,
                },
            },
            WorkerAction::Retire { issue_id, recipient } => ActionView::Retire {
                issue_id,
                recipient: recipient@,
            },
            WorkerAction::Sleep { seconds } => ActionView::Sleep { seconds },
            WorkerAction::BackOff { seconds } => ActionView::BackOff { seconds },
        }
    }
}

/// The worker's transition: the state it moves to and the action it asks for.
///
/// A task whose recipient is not a valid address is retired at once, without
/// an email. A task whose email the mailer refused is retired all the same.
/// A storage failure, or an event that the state does not wait for, sends
/// the worker into `Backoff`.
pub open spec fn transition(state: StateView, event: EventView) -> (StateView, ActionView) {
    match (state, event) {
        (StateView::Idle, EventView::Wake) => (StateView::Claiming, ActionView::Claim),
        (StateView::Backoff, EventView::Wake) => (StateView::Idle, ActionView::Sleep { seconds: 0 }),
        (StateView::Claiming, EventView::Claimed(None)) => (
            StateView::Idle,
            ActionView::Sleep { seconds: EMPTY_QUEUE_PAUSE_SECONDS },
        ),
        (StateView::Claiming, EventView::Claimed(Some((issue_id, recipient)))) => {
            if is_valid_email(recipient) {
                (
                    StateView::Sending { issue_id, recipient, mailing: false },
                    ActionView::LoadIssue { issue_id },
                )
            } else {
                (
                    StateView::Retiring { issue_id, recipient },
                    ActionView::Retire { issue_id, recipient },
                )
            }
        },
        (
            StateView::Sending { issue_id, recipient, mailing: false },
            EventView::IssueLoaded(loaded, content),
        ) => {
            if loaded == issue_id {
                (
                    StateView::Sending { issue_id, recipient, mailing: true },
                    ActionView::SendEmail { recipient, content },
                )
            } else {
                (StateView::Backoff, ActionView::BackOff { seconds: BACKOFF_SECONDS })
            }
        },
        (StateView::Sending { issue_id, recipient, mailing: true }, EventView::Sent(_)) => (
            StateView::Retiring { issue_id, recipient },
            ActionView::Retire { issue_id, recipient },
        ),
        (StateView::Retiring { .. }, EventView::Retired) => (
            StateView::Idle,
            ActionView::Sleep { seconds: 0 },
        ),
        _ => (StateView::Backoff, ActionView::BackOff { seconds: BACKOFF_SECONDS }),
    }
}

impl WorkerState {
    /// Takes one event and decides: see `transition`.
    pub fn step(self, event: WorkerEvent) -> (next: (WorkerState, WorkerAction))
        ensures
            (next.0@, next.1@) == transition(self@, event@),
    {
        match (self, event) {
            (WorkerState::Idle, WorkerEvent::Wake) => (WorkerState::Claiming, WorkerAction::Claim),
            (WorkerState::Backoff, WorkerEvent::Wake) => (
                WorkerState::Idle,
                WorkerAction::Sleep { seconds: 0 },
            ),
            (WorkerState::Claiming, WorkerEvent::Claimed(None)) => (
                WorkerState::Idle,
                WorkerAction::Sleep { seconds: EMPTY_QUEUE_PAUSE_SECONDS },
            ),
            (WorkerState::Claiming, WorkerEvent::Claimed(Some((issue_id, recipient)))) => {
                match SubscriberEmail::parse(recipient.clone()) {
                    Ok(address) => (
                        WorkerState::Sending { issue_id, recipient: address, mailing: false },
                        WorkerAction::LoadIssue { issue_id },
                    ),
                    Err(_) => (
                        WorkerState::Retiring { issue_id, recipient: recipient.clone() },
                        WorkerAction::Retire { issue_id, recipient },
                    ),
                }
            },
            (
                WorkerState::Sending { issue_id, recipient, mailing: false },
                WorkerEvent::IssueLoaded(issue),
            ) => {
                if issue.issue_id == issue_id {
                    let NewsletterIssue { issue_id: _, title, html_content, text_content } = issue;
                    (
                        WorkerState::Sending { issue_id, recipient: recipient.clone(), mailing: true },
                        WorkerAction::SendEmail {
                            recipient,
                            subject: title,
                            html_content,
                            text_content,
                        },
                    )
                } else {
                    (WorkerState::Backoff, WorkerAction::BackOff { seconds: BACKOFF_SECONDS })
                }
            },
            (WorkerState::Sending { issue_id, recipient, mailing: true }, WorkerEvent::Sent(_)) => {
                let address = String::from_str(recipient.as_ref());
                (
                    WorkerState::Retiring { issue_id, recipient: address.clone() },
                    WorkerAction::Retire { issue_id, recipient: address },
                )
            },
            (WorkerState::Retiring { .. }, WorkerEvent::Retired) => (
                WorkerState::Idle,
                WorkerAction::Sleep { seconds: 0 },
            ),
            _ => (WorkerState::Backoff, WorkerAction::BackOff { seconds: BACKOFF_SECONDS }),
        }
    }
}

/// The storage did not do what a worker asked of it.
#[derive(Clone, Copy, Debug, PartialEq, Eq, Structural)]
pub struct WorkerError;

/// The mailer's attempts after a worker executed `task`: one more, with the
/// content of the task's issue, where the recipient is a valid address, and
/// no more where it is not.
pub open spec fn attempts_after(
    attempts: Seq<EmailView>,
    store: StoreView,
    task: (u128, Seq<char>),
) -> Seq<EmailView> {
    if is_valid_email(task.1) {
        attempts.push(EmailView { recipient: task.1, content: store.issues[task.0] })
    } else {
        attempts
    }
}

/// One round of the worker `worker` against the store, from `Idle` back to
/// `Idle`.
///
/// Where no task is free, nothing changes. Otherwise one free task is taken,
/// the mailer is handed its issue once if its recipient is a valid address
/// and not at all if it is not, and the task is deleted, whatever the mailer
/// answered.
pub fn try_execute_task(store: &mut Store, worker: u64, mailer: &mut Outbox) -> (r: Result<
    ExecutionOutcome,
    WorkerError,
>)
    requires
        old(store).wf(),
    ensures
        final(store).wf(),
        final(mailer).refused() == old(mailer).refused(),
        match r {
            Ok(ExecutionOutcome::EmptyQueue) => {
                &&& forall|task: (u128, Seq<char>)| !old(store)@.is_claimable(task)
                &&& final(store)@ == old(store)@
                &&& final(mailer).attempts() == old(mailer).attempts()
            },
            Ok(ExecutionOutcome::TaskCompleted) => exists|task: (u128, Seq<char>)|
                {
                    &&& #[trigger] old(store)@.is_claimable(task)
                    &&& final(store)@ == old(store)@.without_task(task)
                    &&& final(mailer).attempts() == attempts_after(
                        old(mailer).attempts(),
                        old(store)@,
                        task,
                    )
                },
            Err(_) => false,
        },
{
    let ghost before = store@;
    proof {
        store.lemma_view_inv();
    }
    let (state, _) = WorkerState::Idle.step(WorkerEvent::Wake);
    let claimed = store.dequeue_task(worker);
    let ghost task = (claimed.unwrap().0, claimed.unwrap().1@);
    let (state, action) = state.step(WorkerEvent::Claimed(claimed));
    let (state, action) = match action {
        WorkerAction::Sleep { seconds: _ } => {
            return Ok(ExecutionOutcome::EmptyQueue);
        },
        WorkerAction::LoadIssue { issue_id } => {
            let issue = match store.get_issue(issue_id) {
                Some(issue) => issue,
                None => {
                    return Err(WorkerError);
                },
            };
            let (state, action) = state.step(WorkerEvent::IssueLoaded(issue));
            match action {
                WorkerAction::SendEmail { recipient, subject, html_content, text_content } => {
                    let accepted = mailer.send_email(
                        &recipient,
                        subject.as_str(),
                        html_content.as_str(),
                        text_content.as_str(),
                    ).is_ok();
                    state.step(WorkerEvent::Sent(accepted))
                },
                _ => {
                    return Err(WorkerError);
                },
            }
        },
        other => (state, other),
    };
    match action {
        WorkerAction::Retire { issue_id, recipient } => {
            let deleted = store.delete_task(worker, issue_id, &recipient);
            let _ = state.step(WorkerEvent::Retired);
            proof {
                assert(deleted);
                assert(store@.queue =~= before.without_task(task).queue);
                assert(before.is_claimable(task));
            }
            Ok(ExecutionOutcome::TaskCompleted)
        },
        _ => Err(WorkerError),
    }
}

} // verus!
