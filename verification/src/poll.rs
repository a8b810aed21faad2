//! The rating poll: one pass over the subscribers, telling each whose
//! target's rating has changed.
//!
//! Reading the store, asking the upstream service and delivering a
//! notification are the caller's work. The poll decides what is to be done
//! next. [`PollCycle::begin`] takes the subscribers found in the store and
//! names the first action; the caller performs each action and hands its
//! outcome to [`PollCycle::step`], which names the next, until the action is
//! [`PollAction::Finish`].
//!
//! For one subscriber the actions are, in order: read its record, look up the
//! live record of its target, notify, store the new rating. The pass goes on
//! to the next subscriber as soon as there is nothing more to do for this
//! one: the record is gone, the target is not found, the rating has not
//! changed, or an action has failed. A failure is written to the report and
//! never ends the pass. The new rating is stored only once the notification
//! has been delivered.

use crate::db::{RatingSubscription, Subscription};
use crate::json::{get_u64, unsigned_fields, Record};
use core::mem::swap;
use vstd::prelude::*;
use vstd::string::*;

verus! {

/// The action in which a subscriber's poll failed.
#[derive(Clone, Copy, Debug, PartialEq, Eq, Structural)]
pub enum Stage {
    Read,
    Lookup,
    Notify,
    Store,
}

/// A change of rating that a subscriber is told of.
#[derive(Debug)]
pub struct RatingChange {
    pub subscriber: i64,
    pub target: String,
    pub old_rating: u64,
    pub new_rating: u64,
}

/// A change of rating as contracts speak of it.
pub struct Change {
    pub subscriber: i64,
    pub target: Seq<char>,
    pub old_rating: u64,
    pub new_rating: u64,
}

impl View for RatingChange {
    type V = Change;

    open spec fn view(&self) -> Change {
        Change {
            subscriber: self.subscriber,
            target: self.target@,
            old_rating: self.old_rating,
            new_rating: self.new_rating,
        }
    }
}

impl Clone for RatingChange {
    fn clone(&self) -> (copy: Self)
        ensures
            copy == *self,
    {
        RatingChange {
            subscriber: self.subscriber,
            target: self.target.clone(),
            old_rating: self.old_rating,
            new_rating: self.new_rating,
        }
    }
}

/// The failure of one subscriber's poll.
#[derive(Debug)]
pub struct PollFailure {
    pub subscriber: i64,
    pub stage: Stage,
    pub reason: String,
}

/// A failure as contracts speak of it.
pub struct Failure {
    pub subscriber: i64,
    pub stage: Stage,
    pub reason: Seq<char>,
}

impl View for PollFailure {
    type V = Failure;

    open spec fn view(&self) -> Failure {
        Failure { subscriber: self.subscriber, stage: self.stage, reason: self.reason@ }
    }
}

/// What one pass did: the notifications that were delivered and the failures,
/// both in the order in which they occurred.
#[derive(Debug)]
pub struct CycleReport {
    pub delivered: Vec<RatingChange>,
    pub failures: Vec<PollFailure>,
}

/// The views of a list of changes.
pub open spec fn changes_of(changes: Seq<RatingChange>) -> Seq<Change> {
    changes.map_values(|c: RatingChange| c@)
}

/// The views of a list of failures.
pub open spec fn failures_of(failures: Seq<PollFailure>) -> Seq<Failure> {
    failures.map_values(|f: PollFailure| f@)
}

impl CycleReport {
    /// The notifications that were delivered.
    pub open spec fn delivered_view(self) -> Seq<Change> {
        changes_of(self.delivered@)
    }

    /// The failures that occurred.
    pub open spec fn failures_view(self) -> Seq<Failure> {
        failures_of(self.failures@)
    }
}

/// The outcome of an action, as the caller reports it.
pub enum PollEvent {
    /// The store was read: the subscriber's record, or none.
    Record(Option<RatingSubscription>),
    /// The upstream service answered: the live record of the target, or none
    /// where it knows no such target.
    Live(Option<Record>),
    /// The notification was delivered.
    Notified,
    /// The new rating was stored.
    Stored,
    /// The action failed, for the reason given.
    Failed(String),
}

/// An outcome as contracts speak of it.
pub enum Event {
    Record(Option<Subscription>),
    Live(Option<Record>),
    Notified,
    Stored,
    Failed(Seq<char>),
}

impl View for PollEvent {
    type V = Event;

    open spec fn view(&self) -> Event {
        match *self {
            PollEvent::Record(Some(record)) => Event::Record(Some(record@)),
            PollEvent::Record(None) => Event::Record(None),
            PollEvent::Live(live) => Event::Live(live),
            PollEvent::Notified => Event::Notified,
            PollEvent::Stored => Event::Stored,
            PollEvent::Failed(reason) => Event::Failed(reason@),
        }
    }
}

/// What the caller is to do next.
pub enum PollAction {
    /// Read the record of `subscriber` from the store.
    Read { subscriber: i64 },
    /// Ask the upstream service for the live record of `target`.
    Lookup { subscriber: i64, target: String },
    /// Tell the subscriber of the change; `record` is the live record.
    Notify { change: RatingChange, record: Record },
    /// Store `rating` as the rating last seen for `target`.
    Store { subscriber: i64, target: String, rating: u64 },
    /// The pass is over.
    Finish,
}

/// An action as contracts speak of it.
pub enum Action {
    Read { subscriber: i64 },
    Lookup { subscriber: i64, target: Seq<char> },
    Notify { change: Change, record: Record },
    Store { subscriber: i64, target: Seq<char>, rating: u64 },
    Finish,
}

impl View for PollAction {
    type V = Action;

    open spec fn view(&self) -> Action {
        match *self {
            PollAction::Read { subscriber } => Action::Read { subscriber },
            PollAction::Lookup { subscriber, target } => Action::Lookup {
                subscriber,
                target: target@,
            },
            PollAction::Notify { change, record } => Action::Notify { change: change@, record },
            PollAction::Store { subscriber, target, rating } => Action::Store {
                subscriber,
                target: target@,
                rating,
            },
            PollAction::Finish => Action::Finish,
        }
    }
}

/// What a pass is waiting for.
pub enum Waiting {
    /// For the record of the current subscriber.
    Record,
    /// For the live record of the target of this subscription.
    Live(Subscription),
    /// For the delivery of the notification of this change.
    Delivery(Change),
    /// For the new rating of this change to be stored.
    Storage(Change),
    /// For nothing: the pass is over.
    Nothing,
}

/// A pass as contracts speak of it.
pub struct Cycle {
    /// The subscribers still to do; the current one is the first.
    pub pending: Seq<i64>,
    pub waiting: Waiting,
    pub delivered: Seq<Change>,
    pub failures: Seq<Failure>,
}

/// The name of the field of a live record that holds the rating.
pub open spec fn rating_key() -> Seq<char> {
    "rating"@
}

/// The rating in a live record, if it holds one.
pub open spec fn live_rating(record: Record) -> Option<u64> {
    if unsigned_fields(record).contains_key(rating_key()) {
        Some(unsigned_fields(record)[rating_key()])
    } else {
        None
    }
}

/// The reason written down where a live record holds no rating.
pub open spec fn no_rating_reason() -> Seq<char> {
    "live record holds no rating"@
}

/// The reason written down where an outcome does not answer the action that
/// was named.
pub open spec fn unexpected_reason() -> Seq<char> {
    "outcome does not answer the action"@
}

/// The reason that an outcome gives for the failure of an action: its own
/// where it reports a failure, and that it is unexpected otherwise.
pub open spec fn reason_of(event: Event) -> Seq<char> {
    match event {
        Event::Failed(reason) => reason,
        _ => unexpected_reason(),
    }
}

impl Cycle {
    /// While a pass waits for something there is a current subscriber.
    pub open spec fn wf(self) -> bool {
        self.waiting is Nothing <==> self.pending.len() == 0
    }

    /// The pass over `subscribers` before its first action.
    pub open spec fn initial(subscribers: Seq<i64>) -> Cycle {
        Cycle {
            pending: subscribers,
            waiting: if subscribers.len() == 0 {
                Waiting::Nothing
            } else {
                Waiting::Record
            },
            delivered: Seq::empty(),
            failures: Seq::empty(),
        }
    }

    /// The action that opens the poll of the current subscriber, or ends the
    /// pass where none is left.
    pub open spec fn opening(self) -> Action {
        if self.pending.len() == 0 {
            Action::Finish
        } else {
            Action::Read { subscriber: self.pending[0] }
        }
    }

    /// The action in which a failure now would occur.
    pub open spec fn stage(self) -> Stage {
        match self.waiting {
            Waiting::Record => Stage::Read,
            Waiting::Live(_) => Stage::Lookup,
            Waiting::Delivery(_) => Stage::Notify,
            Waiting::Storage(_) => Stage::Store,
            Waiting::Nothing => Stage::Read,
        }
    }

    /// The pass once the current subscriber is done with.
    pub open spec fn advanced(self) -> Cycle {
        let pending = self.pending.drop_first();
        Cycle {
            pending,
            waiting: if pending.len() == 0 {
                Waiting::Nothing
            } else {
                Waiting::Record
            },
            delivered: self.delivered,
            failures: self.failures,
        }
    }

    /// The pass once the poll of the current subscriber has failed for
    /// `reason`.
    pub open spec fn failed(self, reason: Seq<char>) -> Cycle {
        Cycle {
            failures: self.failures.push(
                Failure { subscriber: self.pending[0], stage: self.stage(), reason },
            ),
            ..self
        }.advanced()
    }

    /// The pass once it waits for `waiting` on behalf of the current
    /// subscriber.
    pub open spec fn awaiting(self, waiting: Waiting) -> Cycle {
        Cycle { waiting, ..self }
    }

    /// The pass after `event`, and the action named in answer to it.
    pub open spec fn step(self, event: Event) -> (Cycle, Action) {
        match (self.waiting, event) {
            (Waiting::Nothing, _) => (self, Action::Finish),
            (Waiting::Record, Event::Record(Some(subscription))) => (
                self.awaiting(Waiting::Live(subscription)),
                Action::Lookup { subscriber: self.pending[0], target: subscription.target },
            ),
            (Waiting::Record, Event::Record(None)) => (self.advanced(), self.advanced().opening()),
            (Waiting::Live(subscription), Event::Live(Some(record))) => match live_rating(record) {
                Some(rating) => if rating == subscription.rating {
                    (self.advanced(), self.advanced().opening())
                } else {
                    let change = Change {
                        subscriber: self.pending[0],
                        target: subscription.target,
                        old_rating: subscription.rating,
                        new_rating: rating,
                    };
                    (self.awaiting(Waiting::Delivery(change)), Action::Notify { change, record })
                },
                None => (
                    self.failed(no_rating_reason()),
                    self.failed(no_rating_reason()).opening(),
                ),
            },
            (Waiting::Live(_), Event::Live(None)) => (self.advanced(), self.advanced().opening()),
            (Waiting::Delivery(change), Event::Notified) => (
                Cycle {
                    waiting: Waiting::Storage(change),
                    delivered: self.delivered.push(change),
                    ..self
                },
                Action::Store {
                    subscriber: change.subscriber,
                    target: change.target,
                    rating: change.new_rating,
                },
            ),
            (Waiting::Storage(_), Event::Stored) => (self.advanced(), self.advanced().opening()),
            _ => (self.failed(reason_of(event)), self.failed(reason_of(event)).opening()),
        }
    }

    /// How many outcomes a pass can still take at most: four for each
    /// subscriber, less those that the current one has had.
    pub open spec fn budget(self) -> nat {
        match self.waiting {
            Waiting::Record => 4 * self.pending.len(),
            Waiting::Live(_) => (4 * self.pending.len() - 1) as nat,
            Waiting::Delivery(_) => (4 * self.pending.len() - 2) as nat,
            Waiting::Storage(_) => (4 * self.pending.len() - 3) as nat,
            Waiting::Nothing => 0,
        }
    }
}

/// What the machine keeps of the poll of the current subscriber.
enum Phase {
    Reading,
    Looking(RatingSubscription),
    Notifying(RatingChange),
    Storing(RatingChange),
    Finished,
}

impl View for Phase {
    type V = Waiting;

    closed spec fn view(&self) -> Waiting {
        match *self {
            Phase::Reading => Waiting::Record,
            Phase::Looking(subscription) => Waiting::Live(subscription@),
            Phase::Notifying(change) => Waiting::Delivery(change@),
            Phase::Storing(change) => Waiting::Storage(change@),
            Phase::Finished => Waiting::Nothing,
        }
    }
}

/// One pass over the subscribers.
pub struct PollCycle {
    subscribers: Vec<i64>,
    at: usize,
    phase: Phase,
    report: CycleReport,
}

impl View for PollCycle {
    type V = Cycle;

    closed spec fn view(&self) -> Cycle {
        Cycle {
            pending: self.subscribers@.skip(self.at as int),
            waiting: self.phase@,
            delivered: self.report.delivered_view(),
            failures: self.report.failures_view(),
        }
    }
}

impl PollCycle {
    /// The pass knows its place among the subscribers. Every pass that this
    /// module hands out is well formed, and `step` keeps it so.
    pub closed spec fn wf(self) -> bool {
        &&& self.at <= self.subscribers@.len()
        &&& self@.wf()
    }

    /// Begins a pass over `subscribers`, in their order, and names its first
    /// action: to read the record of the first subscriber, or to finish where
    /// there is none.
    pub fn begin(subscribers: Vec<i64>) -> (started: (PollCycle, PollAction))
        ensures
            started.0.wf(),
            started.0@ == Cycle::initial(subscribers@),
            started.1@ == Cycle::initial(subscribers@).opening(),
    {
        let phase = if subscribers.len() == 0 {
            Phase::Finished
        } else {
            Phase::Reading
        };
        let action = if subscribers.len() == 0 {
            PollAction::Finish
        } else {
            PollAction::Read { subscriber: subscribers[0] }
        };
        let cycle = PollCycle {
            subscribers,
            at: 0,
            phase,
            report: CycleReport { delivered: Vec::new(), failures: Vec::new() },
        };
        assert(cycle.subscribers@.skip(0) =~= subscribers@);
        assert(cycle.report.delivered_view() =~= Seq::<Change>::empty());
        assert(cycle.report.failures_view() =~= Seq::<Failure>::empty());
        (cycle, action)
    }

    /// Whether the pass is over.
    pub fn is_finished(&self) -> (finished: bool)
        ensures
            finished == (self@.waiting is Nothing),
    {
        match self.phase {
            Phase::Finished => true,
            _ => false,
        }
    }

    /// The subscriber whose poll is under way, if the pass is not over.
    pub fn current(&self) -> (subscriber: Option<i64>)
        requires
            self.wf(),
        ensures
            subscriber == (if self@.pending.len() == 0 {
                None
            } else {
                Some(self@.pending[0])
            }),
    {
        if self.at < self.subscribers.len() {
            Some(self.subscribers[self.at])
        } else {
            None
        }
    }

    /// Ends the pass and hands out its report.
    pub fn into_report(self) -> (report: CycleReport)
        ensures
            report.delivered_view() == self@.delivered,
            report.failures_view() == self@.failures,
    {
        self.report
    }

    /// Goes on to the next subscriber.
    fn advance(&mut self) -> (action: PollAction)
        requires
            old(self).at < old(self).subscribers@.len(),
        ensures
            final(self).wf(),
            final(self)@ == old(self)@.advanced(),
            action@ == old(self)@.advanced().opening(),
    {
        let ghost before = self.subscribers@.skip(self.at as int);
        let len = self.subscribers.len();
        self.at = self.at + 1;
        assert(self.subscribers@.skip(self.at as int) =~= before.drop_first());
        if self.at < len {
            self.phase = Phase::Reading;
            PollAction::Read { subscriber: self.subscribers[self.at] }
        } else {
            self.phase = Phase::Finished;
            PollAction::Finish
        }
    }

    /// Writes down that the poll of the current subscriber failed, and goes on
    /// to the next.
    fn fail(&mut self, reason: String) -> (action: PollAction)
        requires
            old(self).wf(),
            !(old(self)@.waiting is Nothing),
        ensures
            final(self).wf(),
            final(self)@ == old(self)@.failed(reason@),
            action@ == old(self)@.failed(reason@).opening(),
    {
        let stage = match self.phase {
            Phase::Reading => Stage::Read,
            Phase::Looking(_) => Stage::Lookup,
            Phase::Notifying(_) => Stage::Notify,
            Phase::Storing(_) => Stage::Store,
            Phase::Finished => Stage::Read,
        };
        let ghost before = self.report.failures@;
        let failure = PollFailure { subscriber: self.subscribers[self.at], stage, reason };
        self.report.failures.push(failure);
        assert(failures_of(self.report.failures@) =~= failures_of(before).push(failure@));
        self.advance()
    }

    /// Takes the outcome of the action that was named last and names the
    /// next. An outcome that does not answer that action counts as its
    /// failure. Once the pass is over, every outcome is answered by
    /// [`PollAction::Finish`] and changes nothing.
    pub fn step(&mut self, event: PollEvent) -> (action: PollAction)
        requires
            old(self).wf(),
        ensures
            final(self).wf(),
            (final(self)@, action@) == old(self)@.step(event@),
    {
        let mut phase = Phase::Finished;
        swap(&mut self.phase, &mut phase);
        let ghost then = *old(self);
        assert(phase == then.phase);
        match (phase, event) {
            (Phase::Finished, _) => PollAction::Finish,
            (Phase::Reading, PollEvent::Record(Some(subscription))) => {
                let target = subscription.target.clone();
                self.phase = Phase::Looking(subscription);
                PollAction::Lookup { subscriber: self.subscribers[self.at], target }
            },
            (Phase::Reading, PollEvent::Record(None)) => self.advance(),
            (Phase::Looking(subscription), PollEvent::Live(Some(record))) => {
                match get_u64(&record, "rating") {
                    Some(rating) => {
                        if rating == subscription.rating {
                            self.advance()
                        } else {
                            let change = RatingChange {
                                subscriber: self.subscribers[self.at],
                                target: subscription.target,
                                old_rating: subscription.rating,
                                new_rating: rating,
                            };
                            self.phase = Phase::Notifying(change.clone());
                            PollAction::Notify { change, record }
                        }
                    },
                    None => {
                        self.phase = Phase::Looking(subscription);
                        self.fail(String::from_str("live record holds no rating"))
                    },
                }
            },
            (Phase::Looking(_), PollEvent::Live(None)) => self.advance(),
            (Phase::Notifying(change), PollEvent::Notified) => {
                let ghost before = self.report.delivered@;
                let action = PollAction::Store {
                    subscriber: change.subscriber,
                    target: change.target.clone(),
                    rating: change.new_rating,
                };
                self.report.delivered.push(change.clone());
                assert(changes_of(self.report.delivered@) =~= changes_of(before).push(change@));
                self.phase = Phase::Storing(change);
                action
            },
            (Phase::Storing(_), PollEvent::Stored) => self.advance(),
            (phase, event) => {
                self.phase = phase;
                let reason = match event {
                    PollEvent::Failed(reason) => reason,
                    _ => String::from_str("outcome does not answer the action"),
                };
                self.fail(reason)
            },
        }
    }
}

/// The new rating is stored only in answer to the delivery of the
/// notification of that very change: no rating is ever marked as seen that
/// the subscriber was not told of.
pub proof fn lemma_store_follows_delivery(cycle: Cycle, event: Event)
    requires
        cycle.wf(),
        cycle.step(event).1 is Store,
    ensures
        event is Notified,
        cycle.waiting is Delivery,
        cycle.step(event).1 == (Action::Store {
            subscriber: cycle.waiting->Delivery_0.subscriber,
            target: cycle.waiting->Delivery_0.target,
            rating: cycle.waiting->Delivery_0.new_rating,
        }),
        cycle.step(event).0.delivered == cycle.delivered.push(cycle.waiting->Delivery_0),
{
}

/// A notification is sent only in answer to a live record whose rating
/// differs from the one last seen, and it names the subscriber, the target,
/// the rating last seen and the live one.
pub proof fn lemma_notify_follows_change(cycle: Cycle, event: Event)
    requires
        cycle.wf(),
        cycle.step(event).1 is Notify,
    ensures
        cycle.waiting is Live,
        event matches Event::Live(Some(record)) && live_rating(record) matches Some(rating)
            && rating != cycle.waiting->Live_0.rating && cycle.step(event).1 == (Action::Notify {
            change: Change {
                subscriber: cycle.pending[0],
                target: cycle.waiting->Live_0.target,
                old_rating: cycle.waiting->Live_0.rating,
                new_rating: rating,
            },
            record,
        }),
{
}

/// A live record with the rating last seen has no effect: nothing is sent,
/// nothing is stored and nothing is written to the report.
pub proof fn lemma_unchanged_rating_is_silent(cycle: Cycle, record: Record)
    requires
        cycle.wf(),
        cycle.waiting is Live,
        live_rating(record) == Some(cycle.waiting->Live_0.rating),
    ensures
        cycle.step(Event::Live(Some(record))).0 == cycle.advanced(),
        cycle.step(Event::Live(Some(record))).1 == cycle.advanced().opening(),
        cycle.advanced().delivered == cycle.delivered,
        cycle.advanced().failures == cycle.failures,
{
}

/// A target that the upstream service does not know, and a record that is no
/// longer in the store, are passed over: nothing is sent, nothing is stored
/// and nothing is written to the report.
pub proof fn lemma_absent_is_skipped(cycle: Cycle)
    requires
        cycle.wf(),
    ensures
        cycle.waiting is Live ==> cycle.step(Event::Live(None)) == (
            cycle.advanced(),
            cycle.advanced().opening(),
        ),
        cycle.waiting is Record ==> cycle.step(Event::Record(None)) == (
            cycle.advanced(),
            cycle.advanced().opening(),
        ),
        cycle.advanced().delivered == cycle.delivered,
        cycle.advanced().failures == cycle.failures,
{
}

/// A failed action is written to the report with its subscriber, its stage and
/// its reason, and the pass goes on to the next subscriber: it stores nothing
/// and sends nothing for the one that failed.
pub proof fn lemma_failure_is_isolated(cycle: Cycle, reason: Seq<char>)
    requires
        cycle.wf(),
        !(cycle.waiting is Nothing),
    ensures
        cycle.step(Event::Failed(reason)).0.failures == cycle.failures.push(
            Failure { subscriber: cycle.pending[0], stage: cycle.stage(), reason },
        ),
        cycle.step(Event::Failed(reason)).0.delivered == cycle.delivered,
        cycle.step(Event::Failed(reason)).0.pending == cycle.pending.drop_first(),
        cycle.step(Event::Failed(reason)).1 == cycle.step(Event::Failed(reason)).0.opening(),
        cycle.step(Event::Failed(reason)).1 is Read || cycle.step(Event::Failed(reason)).1 is Finish,
{
}

/// Every outcome brings the pass nearer to its end, keeps it well formed, and
/// leaves what the report already holds in place. A pass over `n` subscribers
/// is over after `4 * n` outcomes at most, and visits each of them once.
pub proof fn lemma_step_makes_progress(cycle: Cycle, event: Event)
    requires
        cycle.wf(),
        !(cycle.waiting is Nothing),
    ensures
        cycle.step(event).0.wf(),
        cycle.step(event).0.budget() < cycle.budget(),
        cycle.step(event).0.pending == cycle.pending || cycle.step(event).0.pending
            == cycle.pending.drop_first(),
        cycle.delivered.is_prefix_of(cycle.step(event).0.delivered),
        cycle.failures.is_prefix_of(cycle.step(event).0.failures),
{
}

/// Once a pass is over it stays over, and its report no longer changes.
pub proof fn lemma_finished_is_final(cycle: Cycle, event: Event)
    requires
        cycle.waiting is Nothing,
    ensures
        cycle.step(event) == (cycle, Action::Finish),
{
}

} // verus!
