//! Any number of delivery workers on one queue: which tasks are sent, how
//! often, and what a crash leaves behind.
//!
//! Each worker runs the transitions of `issue_delivery_worker`. One step of
//! the fleet is one worker carrying out the action it asked for, on the
//! shared store or on the mailer, and taking the event that comes back; or
//! it is the crash of one worker, which ends its open transaction and so
//! frees the task it held.

use crate::domain::subscriber_email::is_valid_email;
use crate::issue_delivery_worker::transition;
use crate::issue_delivery_worker::ActionView;
use crate::issue_delivery_worker::EventView;
use crate::issue_delivery_worker::StateView;
use crate::routes::admin::newsletters::lemma_published_key_is_completed;
use crate::routes::admin::newsletters::PublishRequest;
use crate::store::batch;
use crate::store::IssueView;
use crate::store::StoreView;
use vstd::multiset::*;
use vstd::prelude::*;

verus! {

/// The store, the workers and what they have done so far.
///
/// Every number names a worker; `workers` gives its state and the action it
/// has asked for. `mailed` counts, for a task and a content, how often the
/// mailer was handed that content for that task. `retired` counts how often
/// a task was deleted. `crashes` counts the crashes.
pub struct Fleet {
    pub store: StoreView,
    pub workers: Map<u64, (StateView, ActionView)>,
    pub mailed: Multiset<((u128, Seq<char>), IssueView)>,
    pub retired: Multiset<(u128, Seq<char>)>,
    pub crashes: nat,
}

/// One step of the fleet.
pub enum FleetStep {
    /// The worker carries out its action. Where the action is a claim,
    /// `task` is what the queue hands out; where it is an email, `accepted`
    /// is what the mailer answers.
    Act { worker: u64, task: Option<(u128, Seq<char>)>, accepted: bool },
    /// The worker's process ends where it stands and starts anew.
    Crash { worker: u64 },
}

/// A worker that has just started.
pub open spec fn fresh_worker() -> (StateView, ActionView) {
    (StateView::Idle, ActionView::Sleep { seconds: 0 })
}

/// The fleet before any worker has moved.
pub open spec fn fleet_start(store: StoreView) -> Fleet {
    Fleet {
        store,
        workers: Map::total(|w: u64| fresh_worker()),
        mailed: Multiset::empty(),
        retired: Multiset::empty(),
        crashes: 0,
    }
}

/// The task that a worker in this state holds.
pub open spec fn held_task(state: StateView) -> Option<(u128, Seq<char>)> {
    match state {
        StateView::Sending { issue_id, recipient, .. } => Some((issue_id, recipient)),
        StateView::Retiring { issue_id, recipient } => Some((issue_id, recipient)),
        _ => None,
    }
}

/// Whether the step can be taken. The queue hands out only a task that no
/// worker holds, and hands out nothing only where there is none.
pub open spec fn fleet_enabled(fleet: Fleet, step: FleetStep) -> bool {
    match step {
        FleetStep::Act { worker, task, accepted } => fleet.workers[worker].1 is Claim ==> (
        match task {
            Some(t) => fleet.store.is_claimable(t),
            None => forall|t: (u128, Seq<char>)| !fleet.store.is_claimable(t),
        }),
        FleetStep::Crash { worker } => true,
    }
}

/// What carrying out `action` does to the store and the counts, and the
/// event it gives back to the worker.
///
/// A claim is what `Store::dequeue_task` does, loading an issue is
/// `Store::get_issue`, retiring is `Store::delete_task`, and backing off
/// ends the transaction as `Store::abandon` does.
pub open spec fn carried_out(
    fleet: Fleet,
    worker: u64,
    state: StateView,
    action: ActionView,
    task: Option<(u128, Seq<char>)>,
    accepted: bool,
) -> (Fleet, EventView) {
    match action {
        ActionView::Claim => match task {
            Some(t) => (
                Fleet { store: fleet.store.with_lock(t, worker), ..fleet },
                EventView::Claimed(Some(t)),
            ),
            None => (fleet, EventView::Claimed(None)),
        },
        ActionView::LoadIssue { issue_id } => if fleet.store.issues.contains_key(issue_id) {
            (fleet, EventView::IssueLoaded(issue_id, fleet.store.issues[issue_id]))
        } else {
            (fleet, EventView::Failed)
        },
        ActionView::SendEmail { recipient, content } => {
            let issue_id = match state {
                StateView::Sending { issue_id, .. } => issue_id,
                _ => 0,
            };
            (
                Fleet { mailed: fleet.mailed.insert(((issue_id, recipient), content)), ..fleet },
                EventView::Sent(accepted),
            )
        },
        ActionView::Retire { issue_id, recipient } => if fleet.store.is_held_by(
            (issue_id, recipient),
            worker,
        ) {
            (
                Fleet {
                    store: fleet.store.without_task((issue_id, recipient)),
                    retired: fleet.retired.insert((issue_id, recipient)),
                    ..fleet
                },
                EventView::Retired,
            )
        } else {
            (fleet, EventView::Failed)
        },
        ActionView::Sleep { seconds } => (fleet, EventView::Wake),
        ActionView::BackOff { seconds } => (
            Fleet { store: fleet.store.without_locks_of(worker), ..fleet },
            EventView::Wake,
        ),
    }
}

/// The fleet after the step.
pub open spec fn fleet_next(fleet: Fleet, step: FleetStep) -> Fleet {
    match step {
        FleetStep::Act { worker, task, accepted } => {
            let (state, action) = fleet.workers[worker];
            let (after, event) = carried_out(fleet, worker, state, action, task, accepted);
            Fleet { workers: after.workers.insert(worker, transition(state, event)), ..after }
        },
        FleetStep::Crash { worker } => Fleet {
            store: fleet.store.without_locks_of(worker),
            workers: fleet.workers.insert(worker, fresh_worker()),
            crashes: fleet.crashes + 1,
            ..fleet
        },
    }
}

/// Whether the steps can be taken one after the other, in this order.
pub open spec fn fleet_valid(fleet: Fleet, steps: Seq<FleetStep>) -> bool
    decreases steps.len(),
{
    if steps.len() == 0 {
        true
    } else {
        fleet_enabled(fleet, steps[0]) && fleet_valid(
            fleet_next(fleet, steps[0]),
            steps.drop_first(),
        )
    }
}

/// The fleet after the steps were taken, in this order.
pub open spec fn fleet_run(fleet: Fleet, steps: Seq<FleetStep>) -> Fleet
    decreases steps.len(),
{
    if steps.len() == 0 {
        fleet
    } else {
        fleet_run(fleet_next(fleet, steps[0]), steps.drop_first())
    }
}

/// No step of the sequence is a crash.
pub open spec fn crash_free(steps: Seq<FleetStep>) -> bool {
    forall|i: int| 0 <= i < steps.len() ==> (#[trigger] steps[i]) is Act
}

/// A worker's state and the action it has asked for fit together, and a
/// worker that works on a task holds the lock of that task.
pub open spec fn worker_inv(fleet: Fleet, w: u64) -> bool {
    let (state, action) = fleet.workers[w];
    match state {
        StateView::Idle => action is Sleep,
        StateView::Claiming => action == ActionView::Claim,
        StateView::Sending { issue_id, recipient, mailing } => {
            &&& is_valid_email(recipient)
            &&& fleet.store.is_held_by((issue_id, recipient), w)
            &&& action == if mailing {
                ActionView::SendEmail { recipient, content: fleet.store.issues[issue_id] }
            } else {
                ActionView::LoadIssue { issue_id }
            }
        },
        StateView::Retiring { issue_id, recipient } => {
            &&& fleet.store.is_held_by((issue_id, recipient), w)
            &&& action == ActionView::Retire { issue_id, recipient }
        },
        StateView::Backoff => false,
    }
}

/// The account of one task.
///
/// A task that was not in the queue at the start never appears. A task that
/// was is in the queue until it is deleted, and is deleted once. The mailer
/// is never handed a task whose recipient is not a valid address. It is
/// handed a task with a valid one before the task is deleted, and each
/// further time it is handed the task is owed to a crash.
pub open spec fn task_inv(initial: StoreView, fleet: Fleet, t: (u128, Seq<char>)) -> bool {
    let sent = fleet.mailed.count((t, initial.issues[t.0]));
    let valid = is_valid_email(t.1);
    &&& !valid ==> sent == 0
    &&& if !initial.queue.contains_key(t) {
        &&& !fleet.store.queue.contains_key(t)
        &&& fleet.retired.count(t) == 0
        &&& sent == 0
    } else if fleet.store.queue.contains_key(t) {
        &&& fleet.retired.count(t) == 0
        &&& match fleet.store.queue[t] {
            None => sent <= fleet.crashes,
            Some(w) => match fleet.workers[w].0 {
                StateView::Sending { issue_id, recipient, .. } => (issue_id, recipient) == t && sent
                    <= fleet.crashes,
                StateView::Retiring { issue_id, recipient } => (issue_id, recipient) == t && (valid
                    ==> 1 <= sent <= 1 + fleet.crashes),
                _ => false,
            },
        }
    } else {
        &&& fleet.retired.count(t) == 1
        &&& valid ==> 1 <= sent <= 1 + fleet.crashes
    }
}

/// What holds of a fleet at every moment, where it started on `initial`.
pub open spec fn fleet_inv(initial: StoreView, fleet: Fleet) -> bool {
    &&& initial.inv()
    &&& fleet.store.issues == initial.issues
    &&& fleet.store.idempotency == initial.idempotency
    &&& forall|w: u64| #[trigger] worker_inv(fleet, w)
    &&& forall|t: (u128, Seq<char>)| #[trigger] task_inv(initial, fleet, t)
    &&& forall|t: (u128, Seq<char>), content: IssueView|
        content != initial.issues[t.0] ==> #[trigger] fleet.mailed.count((t, content)) == 0
}

/// No task of the store is locked.
pub open spec fn all_free(store: StoreView) -> bool {
    forall|t: (u128, Seq<char>)| #[trigger]
        store.queue.contains_key(t) ==> store.queue[t] is None
}

/// The fleet satisfies `fleet_inv` before any worker has moved.
pub proof fn lemma_fleet_start(initial: StoreView)
    requires
        initial.inv(),
        all_free(initial),
    ensures
        fleet_inv(initial, fleet_start(initial)),
{
    broadcast use group_multiset_axioms;

    let fleet = fleet_start(initial);
    assert forall|w: u64| #[trigger] worker_inv(fleet, w) by {}
    assert forall|t: (u128, Seq<char>)| #[trigger] task_inv(initial, fleet, t) by {
        if initial.queue.contains_key(t) {
            assert(initial.queue[t] is None);
        }
    }
}

/// One step keeps `fleet_inv`.
pub proof fn lemma_fleet_step(initial: StoreView, fleet: Fleet, step: FleetStep)
    requires
        fleet_inv(initial, fleet),
        fleet_enabled(fleet, step),
    ensures
        fleet_inv(initial, fleet_next(fleet, step)),
{
    broadcast use group_multiset_axioms;

    let next = fleet_next(fleet, step);
    match step {
        FleetStep::Crash { worker } => {
            assert forall|w: u64| #[trigger] worker_inv(next, w) by {
                assert(worker_inv(fleet, w));
            }
            assert forall|t: (u128, Seq<char>)| #[trigger] task_inv(initial, next, t) by {
                assert(task_inv(initial, fleet, t));
                if fleet.store.queue.contains_key(t) {
                    match fleet.store.queue[t] {
                        Some(w) => {
                            assert(worker_inv(fleet, w));
                        },
                        None => {},
                    }
                }
            }
        },
        FleetStep::Act { worker, task, accepted } => {
            let (state, action) = fleet.workers[worker];
            let (after, event) = carried_out(fleet, worker, state, action, task, accepted);
            assert(worker_inv(fleet, worker));
            match held_task(state) {
                Some(t) => {
                    assert(task_inv(initial, fleet, t));
                    assert(initial.queue.contains_key(t));
                    assert(initial.issues.contains_key(t.0));
                },
                None => {},
            }
            match action {
                ActionView::Claim => {
                    assert(state is Claiming);
                },
                ActionView::LoadIssue { issue_id } => {
                    assert(state is Sending);
                },
                ActionView::SendEmail { recipient, content } => {
                    assert(state is Sending);
                },
                ActionView::Retire { issue_id, recipient } => {
                    assert(state is Retiring || state is Sending);
                },
                ActionView::Sleep { seconds } => {
                    assert(state is Idle);
                },
                ActionView::BackOff { seconds } => {
                    assert(false);
                },
            }
            assert forall|w: u64| #[trigger] worker_inv(next, w) by {
                assert(worker_inv(fleet, w));
                if w != worker {
                    match held_task(fleet.workers[w].0) {
                        Some(t) => {
                            assert(task_inv(initial, fleet, t));
                        },
                        None => {},
                    }
                }
            }
            assert forall|t: (u128, Seq<char>)| #[trigger] task_inv(initial, next, t) by {
                assert(task_inv(initial, fleet, t));
                if fleet.store.queue.contains_key(t) {
                    match fleet.store.queue[t] {
                        Some(w) => {
                            assert(worker_inv(fleet, w));
                        },
                        None => {},
                    }
                }
            }
            assert forall|t: (u128, Seq<char>), content: IssueView|
                content != initial.issues[t.0] implies #[trigger] next.mailed.count((t, content))
                == 0 by {
                assert(fleet.mailed.count((t, content)) == 0);
            }
        },
    }
}

/// Every moment of a fleet's run satisfies `fleet_inv`, and without a crash
/// the count of crashes stays where it was.
pub proof fn lemma_fleet_run(initial: StoreView, fleet: Fleet, steps: Seq<FleetStep>)
    requires
        fleet_inv(initial, fleet),
        fleet_valid(fleet, steps),
    ensures
        fleet_inv(initial, fleet_run(fleet, steps)),
        crash_free(steps) ==> fleet_run(fleet, steps).crashes == fleet.crashes,
    decreases steps.len(),
{
    if steps.len() > 0 {
        lemma_fleet_step(initial, fleet, steps[0]);
        lemma_fleet_run(initial, fleet_next(fleet, steps[0]), steps.drop_first());
        if crash_free(steps) {
            assert(steps[0] is Act);
            assert forall|i: int| 0 <= i < steps.drop_first().len() implies (
            #[trigger] steps.drop_first()[i]) is Act by {
                assert(steps[i + 1] is Act);
            }
        }
    }
}

/// A worker that runs alone does in one round of steps what
/// `try_execute_task` does in one call: it wakes, takes a free task, asks
/// for the issue and hands it to the mailer where the recipient is a valid
/// address, and deletes the task. It ends where it started.
pub proof fn lemma_lone_round_is_try_execute_task(
    fleet: Fleet,
    worker: u64,
    t: (u128, Seq<char>),
    accepted: bool,
)
    requires
        fleet.workers[worker] == fresh_worker(),
        fleet.store.is_claimable(t),
        fleet.store.issues.contains_key(t.0),
    ensures
        ({
            let act = FleetStep::Act { worker, task: Some(t), accepted };
            let woken = fleet_next(fleet, act);
            let claimed = fleet_next(woken, act);
            let end = if is_valid_email(t.1) {
                fleet_next(fleet_next(fleet_next(claimed, act), act), act)
            } else {
                fleet_next(claimed, act)
            };
            &&& fleet_enabled(fleet, act)
            &&& fleet_enabled(woken, act)
            &&& end.store == fleet.store.without_task(t)
            &&& end.workers[worker] == fresh_worker()
            &&& end.retired == fleet.retired.insert(t)
            &&& end.mailed == if is_valid_email(t.1) {
                fleet.mailed.insert((t, fleet.store.issues[t.0]))
            } else {
                fleet.mailed
            }
            &&& end.crashes == fleet.crashes
        }),
{
    let act = FleetStep::Act { worker, task: Some(t), accepted };
    let woken = fleet_next(fleet, act);
    assert(woken.workers[worker] == (StateView::Claiming, ActionView::Claim));
    assert(woken.store == fleet.store);
    let claimed = fleet_next(woken, act);
    assert(claimed.store == fleet.store.with_lock(t, worker));
    assert(claimed.store.is_held_by(t, worker));
    if is_valid_email(t.1) {
        assert(claimed.workers[worker] == (
            StateView::Sending { issue_id: t.0, recipient: t.1, mailing: false },
            ActionView::LoadIssue { issue_id: t.0 },
        ));
        let loaded = fleet_next(claimed, act);
        assert(loaded.workers[worker] == (
            StateView::Sending { issue_id: t.0, recipient: t.1, mailing: true },
            ActionView::SendEmail { recipient: t.1, content: fleet.store.issues[t.0] },
        ));
        assert(loaded.store == claimed.store);
        let sent = fleet_next(loaded, act);
        assert(sent.workers[worker] == (
            StateView::Retiring { issue_id: t.0, recipient: t.1 },
            ActionView::Retire { issue_id: t.0, recipient: t.1 },
        ));
        assert(sent.store == claimed.store);
        let end = fleet_next(sent, act);
        assert(end.store.queue =~= fleet.store.without_task(t).queue);
    } else {
        assert(claimed.workers[worker] == (
            StateView::Retiring { issue_id: t.0, recipient: t.1 },
            ActionView::Retire { issue_id: t.0, recipient: t.1 },
        ));
        let end = fleet_next(claimed, act);
        assert(end.store.queue =~= fleet.store.without_task(t).queue);
    }
}

/// Worker exclusivity.
///
/// Let any number of workers drain a queue of free tasks, their steps
/// interleaved in any order, and let none of them crash. Then no task is
/// deleted twice and none is handed to the mailer twice. Once the queue is
/// empty, every task that was in it has been deleted exactly once; it has
/// been handed to the mailer exactly once, with the content of its issue,
/// where its recipient is a valid address, and never where it is not; and
/// nothing else was deleted or mailed.
pub proof fn lemma_each_task_is_processed_once(initial: StoreView, steps: Seq<FleetStep>)
    requires
        initial.inv(),
        all_free(initial),
        crash_free(steps),
        fleet_valid(fleet_start(initial), steps),
    ensures
        ({
            let end = fleet_run(fleet_start(initial), steps);
            &&& forall|t: (u128, Seq<char>)| #[trigger] end.retired.count(t) <= 1
            &&& forall|t: (u128, Seq<char>), content: IssueView| #[trigger]
                end.mailed.count((t, content)) <= 1
            &&& forall|t: (u128, Seq<char>)|
                initial.queue.contains_key(t) ==> (#[trigger] end.store.queue.contains_key(t)
                    || end.retired.count(t) == 1)
            &&& end.store.queue.dom() =~= Set::<(u128, Seq<char>)>::empty() ==> {
                &&& forall|t: (u128, Seq<char>)|
                    #[trigger] end.retired.count(t) == if initial.queue.contains_key(t) {
                        1nat
                    } else {
                        0nat
                    }
                &&& forall|t: (u128, Seq<char>), content: IssueView|
                    #[trigger] end.mailed.count((t, content)) == if initial.queue.contains_key(t)
                        && is_valid_email(t.1) && content == initial.issues[t.0] {
                        1nat
                    } else {
                        0nat
                    }
            }
        }),
{
    let start = fleet_start(initial);
    lemma_fleet_start(initial);
    lemma_fleet_run(initial, start, steps);
    let end = fleet_run(start, steps);
    assert(end.crashes == 0);
    assert forall|t: (u128, Seq<char>)| #[trigger] end.retired.count(t) <= 1 by {
        assert(task_inv(initial, end, t));
    }
    assert forall|t: (u128, Seq<char>), content: IssueView| #[trigger]
        end.mailed.count((t, content)) <= 1 by {
        assert(task_inv(initial, end, t));
    }
    assert forall|t: (u128, Seq<char>)| initial.queue.contains_key(t) implies (
    #[trigger] end.store.queue.contains_key(t) || end.retired.count(t) == 1) by {
        assert(task_inv(initial, end, t));
    }
    if end.store.queue.dom() =~= Set::<(u128, Seq<char>)>::empty() {
        assert forall|t: (u128, Seq<char>)|
            #[trigger] end.retired.count(t) == if initial.queue.contains_key(t) {
                1nat
            } else {
                0nat
            } by {
            assert(task_inv(initial, end, t));
            assert(!end.store.queue.dom().contains(t));
        }
        assert forall|t: (u128, Seq<char>), content: IssueView|
            #[trigger] end.mailed.count((t, content)) == if initial.queue.contains_key(t)
                && is_valid_email(t.1) && content == initial.issues[t.0] {
                1nat
            } else {
                0nat
            } by {
            assert(task_inv(initial, end, t));
            assert(!end.store.queue.dom().contains(t));
        }
    }
}

/// From publishing to delivery.
///
/// Let a publish request be accepted on a store whose tasks are all free,
/// and let any number of workers then drain the queue without a crash. Then
/// every subscriber of the request's snapshot had the issue's task deleted
/// exactly once, and was handed to the mailer exactly once, with the content
/// of the request, where the address is valid, and never where it is not.
pub proof fn lemma_published_issue_is_delivered_once(
    store: StoreView,
    request: PublishRequest,
    steps: Seq<FleetStep>,
    recipient: Seq<char>,
)
    requires
        store.inv(),
        all_free(store),
        request.writes(store),
        request.subscribers.contains(recipient),
        crash_free(steps),
        fleet_valid(fleet_start(request.store_after(store)), steps),
        fleet_run(fleet_start(request.store_after(store)), steps).store.queue.dom()
            =~= Set::<(u128, Seq<char>)>::empty(),
    ensures
        ({
            let end = fleet_run(fleet_start(request.store_after(store)), steps);
            let task = (request.issue_id, recipient);
            &&& end.retired.count(task) == 1
            &&& end.mailed.count((task, request.content)) == if is_valid_email(recipient) {
                1nat
            } else {
                0nat
            }
            &&& forall|content: IssueView|
                content != request.content ==> #[trigger] end.mailed.count((task, content)) == 0
        }),
{
    let published = request.store_after(store);
    let task = (request.issue_id, recipient);
    lemma_published_key_is_completed(store, request);
    assert(batch(request.issue_id, request.subscribers).contains_key(task));
    assert(published.queue.contains_key(task));
    assert(published.issues[request.issue_id] == request.content);
    assert(published.inv()) by {
        assert forall|k: (u128, Seq<char>)| #[trigger]
            published.queue.contains_key(k) implies published.issues.contains_key(k.0) by {
            if store.queue.contains_key(k) {
                assert(store.issues.contains_key(k.0));
            }
        }
    }
    assert(all_free(published)) by {
        assert forall|k: (u128, Seq<char>)| #[trigger]
            published.queue.contains_key(k) implies published.queue[k] is None by {
            if !batch(request.issue_id, request.subscribers).contains_key(k) {
                assert(store.queue.contains_key(k));
            }
        }
    }
    lemma_each_task_is_processed_once(published, steps);
}

/// Crash recovery.
///
/// Let a worker of a running fleet hold a task and crash before it deleted
/// it. Then the task is still in the queue and free, so the queue can hand
/// it to any other worker; and whatever the workers do afterwards, the task
/// is not lost: it stays in the queue until it has been deleted, which
/// happens once.
pub proof fn lemma_crashed_task_is_free_again(
    initial: StoreView,
    fleet: Fleet,
    worker: u64,
    later: Seq<FleetStep>,
)
    requires
        fleet_inv(initial, fleet),
        held_task(fleet.workers[worker].0) is Some,
        fleet_valid(fleet_next(fleet, FleetStep::Crash { worker }), later),
    ensures
        ({
            let t = held_task(fleet.workers[worker].0)->0;
            let crashed = fleet_next(fleet, FleetStep::Crash { worker });
            let end = fleet_run(crashed, later);
            &&& fleet.store.is_held_by(t, worker)
            &&& crashed.store.is_claimable(t)
            &&& crashed.retired.count(t) == 0
            &&& forall|other: u64|
                crashed.workers[other].1 is Claim ==> #[trigger] fleet_enabled(
                    crashed,
                    FleetStep::Act { worker: other, task: Some(t), accepted: true },
                )
            &&& fleet_inv(initial, end)
            &&& end.store.queue.contains_key(t) && end.retired.count(t) == 0
                || !end.store.queue.contains_key(t) && end.retired.count(t) == 1
        }),
{
    let t = held_task(fleet.workers[worker].0)->0;
    let crashed = fleet_next(fleet, FleetStep::Crash { worker });
    assert(worker_inv(fleet, worker));
    assert(task_inv(initial, fleet, t));
    lemma_fleet_step(initial, fleet, FleetStep::Crash { worker });
    lemma_fleet_run(initial, crashed, later);
    let end = fleet_run(crashed, later);
    assert(task_inv(initial, end, t));
    assert(task_inv(initial, crashed, t));
}

/// Skipping an invalid recipient.
///
/// A worker that is handed a task whose recipient is not a valid address
/// asks at once for the task to be deleted; it asks neither for the issue
/// nor for an email. In a fleet such a task is never handed to the mailer,
/// crash or no crash.
pub proof fn lemma_invalid_recipient_is_never_mailed(
    initial: StoreView,
    steps: Seq<FleetStep>,
    t: (u128, Seq<char>),
    content: IssueView,
)
    requires
        initial.inv(),
        all_free(initial),
        fleet_valid(fleet_start(initial), steps),
        !is_valid_email(t.1),
    ensures
        transition(StateView::Claiming, EventView::Claimed(Some(t))) == (
            StateView::Retiring { issue_id: t.0, recipient: t.1 },
            ActionView::Retire { issue_id: t.0, recipient: t.1 },
        ),
        fleet_run(fleet_start(initial), steps).mailed.count((t, content)) == 0,
{
    lemma_fleet_start(initial);
    lemma_fleet_run(initial, fleet_start(initial), steps);
    let end = fleet_run(fleet_start(initial), steps);
    assert(task_inv(initial, end, t));
}

} // verus!
