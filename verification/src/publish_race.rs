//! Several publish requests with one idempotency key that run at the same
//! time: which of them writes, and what each of them answers.
//!
//! A request takes two steps on the store, each of them atomic: it begins,
//! which claims the key or finds it taken, and, where it claimed the key, it
//! finishes, which commits its writes together with its response. Between
//! the two steps of one request any steps of the others may fall. The
//! storage makes a request that begins wait as long as another holds the
//! claim on its key.

use crate::idempotency::key::is_valid_key;
use crate::idempotency::persistence::columns_of;
use crate::idempotency::persistence::completion_error;
use crate::idempotency::persistence::ResponseView;
use crate::routes::admin::newsletters::accepted_response;
use crate::routes::admin::newsletters::lemma_published_key_is_completed;
use crate::routes::admin::newsletters::publish_transaction;
use crate::routes::admin::newsletters::published;
use crate::routes::newsletters::PublishError;
use crate::routes::newsletters::PublishFault;
use crate::routes::admin::newsletters::PublishRequest;
use crate::store::StoreView;
use vstd::prelude::*;

verus! {

/// Where one of the requests stands.
pub enum Caller {
    /// It has not begun.
    Waiting,
    /// It holds the claim on the key and has not finished.
    InFlight,
    /// It gave up its claim before it finished.
    Aborted,
    /// It has answered. `replayed` says that the answer is a response that
    /// was saved under the key, not one of its own making.
    Answered { replayed: bool, result: Result<ResponseView, PublishError> },
}

/// The store and the requests at one moment. `winner` is the request whose
/// writes were committed, once there is one.
pub struct Race {
    pub store: StoreView,
    pub callers: Seq<Caller>,
    pub winner: Option<int>,
}

/// One atomic step of the request with the given index.
pub enum RaceStep {
    Begin(int),
    Finish(int),
    Abort(int),
}

impl RaceStep {
    /// The request that takes the step.
    pub open spec fn caller(self) -> int {
        match self {
            RaceStep::Begin(i) => i,
            RaceStep::Finish(i) => i,
            RaceStep::Abort(i) => i,
        }
    }
}

/// The requests all come from one user and carry one valid key.
pub open spec fn same_key(requests: Seq<PublishRequest>, user_id: u128, key: Seq<char>) -> bool {
    &&& is_valid_key(key)
    &&& forall|i: int|
        0 <= i < requests.len() ==> (#[trigger] requests[i]).user_id == user_id && requests[i].key
            == key
}

/// The transaction of a request as it stands when the request finishes.
pub open spec fn transaction_of(request: PublishRequest) -> crate::store::TransactionView {
    publish_transaction(
        request.user_id,
        request.key,
        request.issue_id,
        request.content,
        request.subscribers,
    )
}

/// The moment before any request has begun.
pub open spec fn race_start(store: StoreView, requests: Seq<PublishRequest>) -> Race {
    Race { store, callers: Seq::new(requests.len(), |i: int| Caller::Waiting), winner: None }
}

/// Whether the step can be taken. A request begins once, and only while no
/// other holds the claim on its key. It finishes or aborts while it holds
/// the claim itself.
pub open spec fn race_enabled(race: Race, requests: Seq<PublishRequest>, step: RaceStep) -> bool {
    let i = step.caller();
    &&& 0 <= i < requests.len()
    &&& i < race.callers.len()
    &&& match step {
        RaceStep::Begin(_) => race.callers[i] is Waiting && !race.store.is_claimed(
            requests[i].user_id,
            requests[i].key,
        ),
        RaceStep::Finish(_) => race.callers[i] is InFlight,
        RaceStep::Abort(_) => race.callers[i] is InFlight,
    }
}

/// The moment after the step.
///
/// To begin is what `try_processing` does: on a free key it adds the claim
/// row, on a completed key it answers with the saved response. To finish is
/// what `save_response` does with the request's issue and subscribers
/// staged: it commits, or rolls back where the commit is refused. To abort
/// is what `Store::rollback` does.
pub open spec fn race_next(race: Race, requests: Seq<PublishRequest>, step: RaceStep) -> Race {
    let i = step.caller();
    let request = requests[i];
    match step {
        RaceStep::Begin(_) => {
            if !race.store.idempotency.contains_key((request.user_id, request.key)) {
                Race {
                    store: race.store.with_claim(request.user_id, request.key, request.now),
                    callers: race.callers.update(i, Caller::InFlight),
                    winner: race.winner,
                }
            } else {
                let result = match race.store.lookup_error(request.user_id, request.key) {
                    Some(e) => Err(PublishError::UnexpectedError(PublishFault::Idempotency(e))),
                    None => Ok(race.store.saved_response(request.user_id, request.key)->0),
                };
                Race {
                    store: race.store,
                    callers: race.callers.update(i, Caller::Answered { replayed: true, result }),
                    winner: race.winner,
                }
            }
        },
        RaceStep::Finish(_) => {
            match completion_error(race.store, transaction_of(request)) {
                None => Race {
                    store: race.store.committed(
                        transaction_of(request),
                        columns_of(accepted_response()),
                    ),
                    callers: race.callers.update(
                        i,
                        Caller::Answered { replayed: false, result: Ok(accepted_response()) },
                    ),
                    winner: Some(i),
                },
                Some(_) => Race {
                    store: race.store.rolled_back(transaction_of(request)),
                    callers: race.callers.update(
                        i,
                        Caller::Answered {
                            replayed: false,
                            result: Err(PublishError::UnexpectedError(PublishFault::Storage)),
                        },
                    ),
                    winner: race.winner,
                },
            }
        },
        RaceStep::Abort(_) => Race {
            store: race.store.rolled_back(transaction_of(request)),
            callers: race.callers.update(i, Caller::Aborted),
            winner: race.winner,
        },
    }
}

/// Whether the steps can be taken one after the other, in this order.
pub open spec fn race_valid(race: Race, requests: Seq<PublishRequest>, steps: Seq<RaceStep>) -> bool
    decreases steps.len(),
{
    if steps.len() == 0 {
        true
    } else {
        race_enabled(race, requests, steps[0]) && race_valid(
            race_next(race, requests, steps[0]),
            requests,
            steps.drop_first(),
        )
    }
}

/// The moment after the steps were taken, in this order.
pub open spec fn race_run(race: Race, requests: Seq<PublishRequest>, steps: Seq<RaceStep>) -> Race
    decreases steps.len(),
{
    if steps.len() == 0 {
        race
    } else {
        race_run(race_next(race, requests, steps[0]), requests, steps.drop_first())
    }
}

/// A request that runs alone does in its two steps what `publish_issue` does
/// in one call: it leaves the same store and gives the same answer.
pub proof fn lemma_lone_request_is_publish_issue(store: StoreView, request: PublishRequest)
    requires
        is_valid_key(request.key),
        !store.is_claimed(request.user_id, request.key),
    ensures
        ({
            let requests = seq![request];
            let start = race_start(store, requests);
            let begun = race_next(start, requests, RaceStep::Begin(0));
            let end = if begun.callers[0] is InFlight {
                race_next(begun, requests, RaceStep::Finish(0))
            } else {
                begun
            };
            &&& race_enabled(start, requests, RaceStep::Begin(0))
            &&& end.store == request.store_after(store)
            &&& end.callers[0] is Answered
            &&& end.callers[0]->result == request.result(store)
        }),
{
    let requests = seq![request];
    let start = race_start(store, requests);
    let begun = race_next(start, requests, RaceStep::Begin(0));
    assert(requests[0] == request);
    if begun.callers[0] is InFlight {
        let end = race_next(begun, requests, RaceStep::Finish(0));
        let t = transaction_of(request);
        assert(begun.store.holds_claim(t));
        if completion_error(begun.store, t) is Some {
            assert(end.store.idempotency =~= store.idempotency);
        }
    }
}

/// What holds at every moment of a race that started on the store `initial`
/// with the key free.
///
/// At most one request holds the claim. Until a request has committed, the
/// store is the initial one, but for the claim row of the request in flight,
/// and no request has succeeded. Once one has committed, it is the only one
/// that ever does: the store is the initial one with the writes of this one
/// request, and whoever else has succeeded was answered with the saved
/// response, which is the winner's.
pub open spec fn race_inv(initial: StoreView, requests: Seq<PublishRequest>, race: Race) -> bool {
    &&& race.callers.len() == requests.len()
    &&& forall|i: int, j: int|
        0 <= i < race.callers.len() && 0 <= j < race.callers.len() && (
        #[trigger] race.callers[i]) is InFlight && (#[trigger] race.callers[j]) is InFlight ==> i
            == j
    &&& match race.winner {
        None => {
            &&& (forall|i: int|
                0 <= i < race.callers.len() ==> !((#[trigger] race.callers[i]) is InFlight))
                ==> race.store == initial
            &&& forall|i: int|
                0 <= i < race.callers.len() && (#[trigger] race.callers[i]) is InFlight
                    ==> race.store == initial.with_claim(
                    requests[i].user_id,
                    requests[i].key,
                    requests[i].now,
                )
            &&& forall|i: int|
                0 <= i < race.callers.len() ==> (match #[trigger] race.callers[i] {
                    Caller::Answered { replayed, result } => !replayed && result is Err,
                    _ => true,
                })
        },
        Some(w) => {
            &&& 0 <= w < race.callers.len()
            &&& requests[w].writes(initial)
            &&& race.callers[w] == Caller::Answered {
                replayed: false,
                result: Ok(accepted_response()),
            }
            &&& race.store == requests[w].store_after(initial)
            &&& forall|i: int|
                0 <= i < race.callers.len() ==> (match #[trigger] race.callers[i] {
                    Caller::InFlight => false,
                    Caller::Answered { replayed, result } => if replayed {
                        result == Ok::<ResponseView, PublishError>(accepted_response())
                    } else {
                        i == w || result is Err
                    },
                    _ => true,
                })
        },
    }
}

/// One step keeps `race_inv`.
pub proof fn lemma_race_step(
    initial: StoreView,
    requests: Seq<PublishRequest>,
    user_id: u128,
    key: Seq<char>,
    race: Race,
    step: RaceStep,
)
    requires
        same_key(requests, user_id, key),
        !initial.idempotency.contains_key((user_id, key)),
        race_inv(initial, requests, race),
        race_enabled(race, requests, step),
    ensures
        race_inv(initial, requests, race_next(race, requests, step)),
{
    let i = step.caller();
    let request = requests[i];
    let next = race_next(race, requests, step);
    assert(request.user_id == user_id && request.key == key);
    assert forall|j: int| 0 <= j < race.callers.len() && j != i implies #[trigger] next.callers[j]
        == race.callers[j] by {}
    match race.winner {
        None => {
            match step {
                RaceStep::Begin(_) => {
                    if exists|j: int|
                        0 <= j < race.callers.len() && (#[trigger] race.callers[j]) is InFlight {
                        let j = choose|j: int|
                            0 <= j < race.callers.len() && (#[trigger] race.callers[j]) is InFlight;
                        assert(requests[j].user_id == user_id && requests[j].key == key);
                        assert(race.store.is_claimed(user_id, key));
                        assert(false);
                    }
                    assert(race.store == initial);
                    assert(next.callers[i] is InFlight);
                },
                RaceStep::Finish(_) => {
                    assert(race.callers[i] is InFlight);
                    assert(race.store == initial.with_claim(user_id, key, request.now));
                    let t = transaction_of(request);
                    assert(race.store.holds_claim(t));
                    if completion_error(race.store, t) is None {
                        assert(request.writes(initial));
                        assert(next.store == request.store_after(initial));
                        assert(next.callers[i] == Caller::Answered {
                            replayed: false,
                            result: Ok(accepted_response()),
                        });
                    } else {
                        assert(next.store.idempotency =~= initial.idempotency);
                        assert(next.store == initial);
                    }
                },
                RaceStep::Abort(_) => {
                    assert(race.callers[i] is InFlight);
                    assert(race.store == initial.with_claim(user_id, key, request.now));
                    assert(next.store.idempotency =~= initial.idempotency);
                    assert(next.store == initial);
                },
            }
        },
        Some(w) => {
            assert(!(race.callers[i] is InFlight));
            lemma_published_key_is_completed(initial, requests[w]);
            assert(requests[w].user_id == user_id && requests[w].key == key);
            assert(i != w);
        },
    }
}

/// Every moment of a race satisfies `race_inv`.
pub proof fn lemma_race_run(
    initial: StoreView,
    requests: Seq<PublishRequest>,
    user_id: u128,
    key: Seq<char>,
    race: Race,
    steps: Seq<RaceStep>,
)
    requires
        same_key(requests, user_id, key),
        !initial.idempotency.contains_key((user_id, key)),
        race_inv(initial, requests, race),
        race_valid(race, requests, steps),
    ensures
        race_inv(initial, requests, race_run(race, requests, steps)),
    decreases steps.len(),
{
    if steps.len() > 0 {
        lemma_race_step(initial, requests, user_id, key, race, steps[0]);
        lemma_race_run(
            initial,
            requests,
            user_id,
            key,
            race_next(race, requests, steps[0]),
            steps.drop_first(),
        );
    }
}

/// No double publish under concurrency.
///
/// Let any number of publish requests of one user with one valid key, free
/// in the store, run at the same time, their steps interleaved in any order
/// that the storage admits, and let all of them have succeeded. Then exactly
/// one of them wrote: the store is the initial one with the issue, the batch
/// of tasks and the completed key of that one request. Every request
/// answered with the same response, byte for byte, and every request but
/// that one was answered with the saved response.
pub proof fn lemma_concurrent_publishes_write_once(
    initial: StoreView,
    requests: Seq<PublishRequest>,
    user_id: u128,
    key: Seq<char>,
    steps: Seq<RaceStep>,
)
    requires
        same_key(requests, user_id, key),
        !initial.idempotency.contains_key((user_id, key)),
        requests.len() > 0,
        race_valid(race_start(initial, requests), requests, steps),
        forall|i: int|
            0 <= i < requests.len() ==> (match #[trigger] race_run(
                race_start(initial, requests),
                requests,
                steps,
            ).callers[i] {
                Caller::Answered { replayed, result } => result is Ok,
                _ => false,
            }),
    ensures
        ({
            let end = race_run(race_start(initial, requests), requests, steps);
            &&& end.winner is Some
            &&& 0 <= end.winner->0 < requests.len()
            &&& end.store == requests[end.winner->0].store_after(initial)
            &&& end.store == published(
                initial,
                user_id,
                key,
                requests[end.winner->0].issue_id,
                requests[end.winner->0].content,
                requests[end.winner->0].subscribers,
                requests[end.winner->0].now,
            )
            &&& end.store.is_completed(user_id, key)
            &&& forall|i: int|
                0 <= i < requests.len() ==> #[trigger] end.callers[i] == (Caller::Answered {
                    replayed: i != end.winner->0,
                    result: Ok(accepted_response()),
                })
        }),
{
    let start = race_start(initial, requests);
    assert(race_inv(initial, requests, start));
    lemma_race_run(initial, requests, user_id, key, start, steps);
    let end = race_run(start, requests, steps);
    assert(end.callers[0] is Answered);
    if end.winner is None {
        assert(false);
    }
    let w = end.winner->0;
    lemma_published_key_is_completed(initial, requests[w]);
    assert(requests[w].user_id == user_id && requests[w].key == key);
    assert forall|i: int| 0 <= i < requests.len() implies #[trigger] end.callers[i] == (
    Caller::Answered { replayed: i != w, result: Ok(accepted_response()) }) by {
        assert(end.callers[i] is Answered);
    }
}

} // verus!
