//! What a whole pass of the rating poll comes to.
//!
//! [`crate::poll`] says what a pass does in answer to one outcome. This
//! module follows a pass from its first action to its last against a model
//! of the world around it: a store that always answers, an upstream service
//! and a notification sink that may fail. It states what the store and the
//! report hold at the end in terms of the subscribers alone, one after the
//! other, and proves that the pass arrives there.

use crate::db::Subscription;
use crate::json::Record;
use crate::poll::{
    live_rating, no_rating_reason, Action, Change, Cycle, Event, Failure, Stage, Waiting,
};
use vstd::prelude::*;

verus! {

/// What the upstream service says of a target.
pub enum Answer {
    /// The live record of the target.
    Live(Record),
    /// It knows no such target.
    Unknown,
    /// It failed, for the reason given.
    Down(Seq<char>),
}

/// The world around a pass.
pub struct World {
    /// What the upstream service says of each target.
    pub upstream: spec_fn(Seq<char>) -> Answer,
    /// Why the notification of a change is not delivered, for the changes
    /// whose notification is not; `None` for those that are delivered.
    pub refusal: spec_fn(Change) -> Option<Seq<char>>,
}

/// What a pass has come to so far: the store and the report.
pub struct Ledger {
    pub store: Map<i64, Subscription>,
    pub delivered: Seq<Change>,
    pub failures: Seq<Failure>,
}

impl Ledger {
    /// The ledger with one more failure.
    pub open spec fn failed(self, subscriber: i64, stage: Stage, reason: Seq<char>) -> Ledger {
        Ledger { failures: self.failures.push(Failure { subscriber, stage, reason }), ..self }
    }
}

/// What the poll of one subscriber comes to.
///
/// Nothing changes where the subscriber has no record, the target is unknown
/// or the rating is the one last seen. A failed lookup, a live record without
/// rating and a refused notification are written to the report and leave the
/// store as it was. Only a notification that was delivered puts the live
/// rating into the store, and the change into the report.
pub open spec fn visit(world: World, ledger: Ledger, subscriber: i64) -> Ledger {
    if !ledger.store.contains_key(subscriber) {
        ledger
    } else {
        let subscription = ledger.store[subscriber];
        match (world.upstream)(subscription.target) {
            Answer::Down(reason) => ledger.failed(subscriber, Stage::Lookup, reason),
            Answer::Unknown => ledger,
            Answer::Live(record) => match live_rating(record) {
                None => ledger.failed(subscriber, Stage::Lookup, no_rating_reason()),
                Some(rating) => if rating == subscription.rating {
                    ledger
                } else {
                    let change = Change {
                        subscriber,
                        target: subscription.target,
                        old_rating: subscription.rating,
                        new_rating: rating,
                    };
                    match (world.refusal)(change) {
                        Some(reason) => ledger.failed(subscriber, Stage::Notify, reason),
                        None => Ledger {
                            store: ledger.store.insert(
                                subscriber,
                                Subscription { target: subscription.target, rating },
                            ),
                            delivered: ledger.delivered.push(change),
                            failures: ledger.failures,
                        },
                    }
                },
            },
        }
    }
}

/// What the polls of a list of subscribers come to, one after the other.
pub open spec fn tour(world: World, ledger: Ledger, subscribers: Seq<i64>) -> Ledger
    decreases subscribers.len(),
{
    if subscribers.len() == 0 {
        ledger
    } else {
        tour(world, visit(world, ledger, subscribers[0]), subscribers.drop_first())
    }
}

/// The outcome of an action in the world, and the store after it.
pub open spec fn react(world: World, store: Map<i64, Subscription>, action: Action) -> (
    Event,
    Map<i64, Subscription>,
) {
    match action {
        Action::Read { subscriber } => (
            Event::Record(
                if store.contains_key(subscriber) {
                    Some(store[subscriber])
                } else {
                    None
                },
            ),
            store,
        ),
        Action::Lookup { subscriber, target } => (
            match (world.upstream)(target) {
                Answer::Live(record) => Event::Live(Some(record)),
                Answer::Unknown => Event::Live(None),
                Answer::Down(reason) => Event::Failed(reason),
            },
            store,
        ),
        Action::Notify { change, record } => (
            match (world.refusal)(change) {
                Some(reason) => Event::Failed(reason),
                None => Event::Notified,
            },
            store,
        ),
        Action::Store { subscriber, target, rating } => (
            Event::Stored,
            store.insert(subscriber, Subscription { target, rating }),
        ),
        Action::Finish => (Event::Stored, store),
    }
}

/// The pass and the store once the pass has been driven for `fuel` outcomes
/// at most: each action is performed in the world and its outcome handed
/// back, until the action is to finish.
pub open spec fn run(
    world: World,
    cycle: Cycle,
    action: Action,
    store: Map<i64, Subscription>,
    fuel: nat,
) -> (Cycle, Map<i64, Subscription>)
    decreases fuel,
{
    if fuel == 0 || action is Finish {
        (cycle, store)
    } else {
        let (event, next_store) = react(world, store, action);
        let (next_cycle, next_action) = cycle.step(event);
        run(world, next_cycle, next_action, next_store, (fuel - 1) as nat)
    }
}

/// The ledger of a pass and a store.
pub open spec fn ledger_of(cycle: Cycle, store: Map<i64, Subscription>) -> Ledger {
    Ledger { store, delivered: cycle.delivered, failures: cycle.failures }
}

/// The pass at the beginning of the poll of its current subscriber, with the
/// report of a ledger.
pub open spec fn at_subscriber(pending: Seq<i64>, ledger: Ledger) -> Cycle {
    Cycle {
        pending,
        waiting: if pending.len() == 0 {
            Waiting::Nothing
        } else {
            Waiting::Record
        },
        delivered: ledger.delivered,
        failures: ledger.failures,
    }
}

/// Driving a pass through the poll of its current subscriber takes four
/// outcomes at most and leaves the store and the report as `visit` says.
proof fn lemma_run_visits_first(world: World, pending: Seq<i64>, ledger: Ledger, fuel: nat)
    requires
        pending.len() > 0,
        fuel >= 4,
    ensures
        exists|used: nat|
            1 <= used <= 4 && run(
                world,
                at_subscriber(pending, ledger),
                at_subscriber(pending, ledger).opening(),
                ledger.store,
                fuel,
            ) == #[trigger] run(
                world,
                at_subscriber(pending.drop_first(), visit(world, ledger, pending[0])),
                at_subscriber(pending.drop_first(), visit(world, ledger, pending[0])).opening(),
                visit(world, ledger, pending[0]).store,
                (fuel - used) as nat,
            ),
{
    reveal_with_fuel(run, 5);
    let subscriber = pending[0];
    let cycle = at_subscriber(pending, ledger);
    let after = visit(world, ledger, subscriber);
    let rest = at_subscriber(pending.drop_first(), after);
    let start = run(world, cycle, cycle.opening(), ledger.store, fuel);
    if !ledger.store.contains_key(subscriber) {
        assert(start == run(world, rest, rest.opening(), after.store, (fuel - 1) as nat));
    } else {
        let subscription = ledger.store[subscriber];
        match (world.upstream)(subscription.target) {
            Answer::Down(reason) => {
                assert(start == run(world, rest, rest.opening(), after.store, (fuel - 2) as nat));
            },
            Answer::Unknown => {
                assert(start == run(world, rest, rest.opening(), after.store, (fuel - 2) as nat));
            },
            Answer::Live(record) => {
                match live_rating(record) {
                    None => {
                        assert(start == run(
                            world,
                            rest,
                            rest.opening(),
                            after.store,
                            (fuel - 2) as nat,
                        ));
                    },
                    Some(rating) => {
                        if rating == subscription.rating {
                            assert(start == run(
                                world,
                                rest,
                                rest.opening(),
                                after.store,
                                (fuel - 2) as nat,
                            ));
                        } else {
                            let change = Change {
                                subscriber,
                                target: subscription.target,
                                old_rating: subscription.rating,
                                new_rating: rating,
                            };
                            match (world.refusal)(change) {
                                Some(reason) => {
                                    assert(start == run(
                                        world,
                                        rest,
                                        rest.opening(),
                                        after.store,
                                        (fuel - 3) as nat,
                                    ));
                                },
                                None => {
                                    assert(start == run(
                                        world,
                                        rest,
                                        rest.opening(),
                                        after.store,
                                        (fuel - 4) as nat,
                                    ));
                                },
                            }
                        }
                    },
                }
            },
        }
    }
}

/// Driving a pass from the beginning of the poll of a subscriber to its end
/// leaves the store and the report as `tour` says of the subscribers left.
proof fn lemma_run_tours(world: World, pending: Seq<i64>, ledger: Ledger, fuel: nat)
    requires
        fuel >= 4 * pending.len(),
    ensures
        run(
            world,
            at_subscriber(pending, ledger),
            at_subscriber(pending, ledger).opening(),
            ledger.store,
            fuel,
        ) == (
            at_subscriber(Seq::empty(), tour(world, ledger, pending)),
            tour(world, ledger, pending).store,
        ),
    decreases pending.len(),
{
    if pending.len() == 0 {
        assert(pending =~= Seq::empty());
    } else {
        lemma_run_visits_first(world, pending, ledger, fuel);
        let after = visit(world, ledger, pending[0]);
        let rest = at_subscriber(pending.drop_first(), after);
        let used = choose|used: nat|
            1 <= used <= 4 && run(
                world,
                at_subscriber(pending, ledger),
                at_subscriber(pending, ledger).opening(),
                ledger.store,
                fuel,
            ) == #[trigger] run(world, rest, rest.opening(), after.store, (fuel - used) as nat);
        lemma_run_tours(world, pending.drop_first(), after, (fuel - used) as nat);
    }
}

/// A pass over `subscribers` that is driven in the world comes to its end
/// within four outcomes for each subscriber. At the end the store and the
/// report are what the polls of the subscribers come to, taken one after the
/// other in the order of the pass: each subscriber is polled once, a failure
/// for one changes nothing for the others, and the store holds a new rating
/// exactly for those whose notification was delivered.
pub proof fn lemma_pass_comes_to_tour(
    world: World,
    subscribers: Seq<i64>,
    store: Map<i64, Subscription>,
)
    ensures
        ({
            let begun = Cycle::initial(subscribers);
            let blank = Ledger { store, delivered: Seq::empty(), failures: Seq::empty() };
            let (ended, stored) = run(world, begun, begun.opening(), store, 4 * subscribers.len());
            &&& ended.waiting is Nothing
            &&& ended.pending.len() == 0
            &&& ledger_of(ended, stored) == tour(world, blank, subscribers)
        }),
{
    let blank = Ledger { store, delivered: Seq::empty(), failures: Seq::empty() };
    assert(Cycle::initial(subscribers) == at_subscriber(subscribers, blank));
    lemma_run_tours(world, subscribers, blank, 4 * subscribers.len());
}

/// The poll of a subscriber whose target has the rating last seen changes
/// neither the store nor the report.
pub proof fn lemma_visit_unchanged(world: World, ledger: Ledger, subscriber: i64, record: Record)
    requires
        ledger.store.contains_key(subscriber),
        (world.upstream)(ledger.store[subscriber].target) == Answer::Live(record),
        live_rating(record) == Some(ledger.store[subscriber].rating),
    ensures
        visit(world, ledger, subscriber) == ledger,
{
}

/// The poll of a subscriber whose target has another rating than the one
/// last seen, and whose notification is delivered, adds exactly one change
/// to the report, from the rating last seen to the live one, and puts the
/// live rating into the store.
pub proof fn lemma_visit_changed(
    world: World,
    ledger: Ledger,
    subscriber: i64,
    record: Record,
    rating: u64,
)
    requires
        ledger.store.contains_key(subscriber),
        (world.upstream)(ledger.store[subscriber].target) == Answer::Live(record),
        live_rating(record) == Some(rating),
        rating != ledger.store[subscriber].rating,
        (world.refusal)(
            Change {
                subscriber,
                target: ledger.store[subscriber].target,
                old_rating: ledger.store[subscriber].rating,
                new_rating: rating,
            },
        ) is None,
    ensures
        visit(world, ledger, subscriber).delivered == ledger.delivered.push(
            Change {
                subscriber,
                target: ledger.store[subscriber].target,
                old_rating: ledger.store[subscriber].rating,
                new_rating: rating,
            },
        ),
        visit(world, ledger, subscriber).failures == ledger.failures,
        visit(world, ledger, subscriber).store == ledger.store.insert(
            subscriber,
            Subscription { target: ledger.store[subscriber].target, rating },
        ),
        visit(world, ledger, subscriber).store[subscriber].rating == rating,
{
}

/// The poll of a subscriber for whose target the lookup fails adds exactly
/// one failure to the report and changes nothing else; the polls of the
/// subscribers after it go on from there.
pub proof fn lemma_visit_failed_lookup(
    world: World,
    ledger: Ledger,
    subscriber: i64,
    reason: Seq<char>,
    others: Seq<i64>,
)
    requires
        ledger.store.contains_key(subscriber),
        (world.upstream)(ledger.store[subscriber].target) == Answer::Down(reason),
    ensures
        visit(world, ledger, subscriber) == ledger.failed(subscriber, Stage::Lookup, reason),
        visit(world, ledger, subscriber).store == ledger.store,
        visit(world, ledger, subscriber).delivered == ledger.delivered,
        tour(world, ledger, seq![subscriber] + others) == tour(
            world,
            ledger.failed(subscriber, Stage::Lookup, reason),
            others,
        ),
{
    let all = seq![subscriber] + others;
    assert(all[0] == subscriber);
    assert(all.drop_first() =~= others);
}

/// No poll removes a record or touches the record of another subscriber, and
/// what the report holds stays in it.
pub proof fn lemma_visit_keeps_the_rest(world: World, ledger: Ledger, subscriber: i64)
    ensures
        visit(world, ledger, subscriber).store.dom() == ledger.store.dom(),
        forall|other: i64|
            other != subscriber && ledger.store.contains_key(other) ==> visit(
                world,
                ledger,
                subscriber,
            ).store[other] == ledger.store[other],
        ledger.store.contains_key(subscriber) ==> visit(
            world,
            ledger,
            subscriber,
        ).store[subscriber].target == ledger.store[subscriber].target,
        ledger.delivered.is_prefix_of(visit(world, ledger, subscriber).delivered),
        ledger.failures.is_prefix_of(visit(world, ledger, subscriber).failures),
{
    let after = visit(world, ledger, subscriber);
    assert(after.store.dom() =~= ledger.store.dom());
}

} // verus!
