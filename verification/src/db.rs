//! Rating subscriptions and the store that keeps them.
//!
//! A subscriber follows the rating of one target handle. The store keeps at
//! most one record for each subscriber, which is all the state there is: no
//! history, no expiry. The durable medium behind it is keyed by text, so a
//! subscriber's identity is written as a decimal numeral to form its key.

use crate::decimal::{format_i64, i64_of_text, lemma_signed_round_trip, parse_i64, signed_numeral};
use crate::text::texts_of;
use vstd::prelude::*;

verus! {

/// What a subscriber follows: a target handle and the rating last seen for it.
#[derive(Debug)]
pub struct RatingSubscription {
    pub target: String,
    pub rating: u64,
}

/// A subscription as contracts speak of it.
pub struct Subscription {
    pub target: Seq<char>,
    pub rating: u64,
}

impl View for RatingSubscription {
    type V = Subscription;

    open spec fn view(&self) -> Subscription {
        Subscription { target: self.target@, rating: self.rating }
    }
}

impl Clone for RatingSubscription {
    fn clone(&self) -> (copy: Self)
        ensures
            copy == *self,
    {
        RatingSubscription { target: self.target.clone(), rating: self.rating }
    }
}

/// The view of an optional subscription.
pub open spec fn option_subscription(record: Option<RatingSubscription>) -> Option<Subscription> {
    match record {
        Some(r) => Some(r@),
        None => None,
    }
}

/// The subscriptions of all subscribers, at most one for each.
pub struct RatingAlarms {
    entries: Vec<(i64, RatingSubscription)>,
}

/// No subscriber occurs twice among the entries.
pub open spec fn distinct_subscribers(entries: Seq<(i64, RatingSubscription)>) -> bool {
    forall|i: int, j: int|
        0 <= i < j < entries.len() ==> (#[trigger] entries[i]).0 != (#[trigger] entries[j]).0
}

/// Entry `i` is the record of `subscriber`.
pub open spec fn entry_of(
    entries: Seq<(i64, RatingSubscription)>,
    subscriber: i64,
    i: int,
) -> bool {
    0 <= i < entries.len() && entries[i].0 == subscriber
}

/// The map from subscribers to subscriptions that a list of entries stands for.
pub open spec fn entries_map(entries: Seq<(i64, RatingSubscription)>) -> Map<i64, Subscription> {
    Map::new(
        |subscriber: i64| exists|i: int| entry_of(entries, subscriber, i),
        |subscriber: i64| entries[choose|i: int| entry_of(entries, subscriber, i)].1@,
    )
}

/// The subscribers of a list of entries, in its order.
pub open spec fn entries_subscribers(entries: Seq<(i64, RatingSubscription)>) -> Seq<i64> {
    Seq::new(entries.len(), |i: int| entries[i].0)
}

/// Among entries with distinct subscribers, entry `i` is what the map holds
/// for its subscriber.
proof fn lemma_entry_in_map(entries: Seq<(i64, RatingSubscription)>, i: int)
    requires
        distinct_subscribers(entries),
        0 <= i < entries.len(),
    ensures
        entries_map(entries).contains_key(entries[i].0),
        entries_map(entries)[entries[i].0] == entries[i].1@,
{
    let subscriber = entries[i].0;
    assert(entry_of(entries, subscriber, i));
    let j = choose|j: int| entry_of(entries, subscriber, j);
    if i < j {
        assert(entries[i].0 != entries[j].0);
    } else if j < i {
        assert(entries[j].0 != entries[i].0);
    }
}

/// The subscribers of entries with distinct subscribers are the keys of the
/// map, each once.
proof fn lemma_subscribers_of_entries(entries: Seq<(i64, RatingSubscription)>)
    requires
        distinct_subscribers(entries),
    ensures
        entries_subscribers(entries).no_duplicates(),
        forall|subscriber: i64|
            entries_subscribers(entries).contains(subscriber) <==> entries_map(
                entries,
            ).contains_key(subscriber),
{
    let ids = entries_subscribers(entries);
    assert forall|i: int, j: int| 0 <= i < ids.len() && 0 <= j < ids.len() && i != j implies ids[i]
        != ids[j] by {
        if i < j {
            assert(entries[i].0 != entries[j].0);
        } else {
            assert(entries[j].0 != entries[i].0);
        }
    }
    assert forall|subscriber: i64|
        ids.contains(subscriber) <==> entries_map(entries).contains_key(subscriber) by {
        if ids.contains(subscriber) {
            let i = choose|i: int| 0 <= i < ids.len() && ids[i] == subscriber;
            assert(entry_of(entries, subscriber, i));
        }
        if entries_map(entries).contains_key(subscriber) {
            let i = choose|i: int| entry_of(entries, subscriber, i);
            assert(ids[i] == subscriber);
        }
    }
}

impl View for RatingAlarms {
    type V = Map<i64, Subscription>;

    closed spec fn view(&self) -> Map<i64, Subscription> {
        entries_map(self.entries@)
    }
}

impl RatingAlarms {
    /// No subscriber has two records. Every store that this module hands out
    /// is well formed, and its methods keep it so.
    pub closed spec fn wf(self) -> bool {
        distinct_subscribers(self.entries@)
    }

    /// The subscribers in the order in which the store lists them.
    pub closed spec fn listing(self) -> Seq<i64> {
        entries_subscribers(self.entries@)
    }

    /// A store without subscriptions.
    pub fn setup() -> (store: Self)
        ensures
            store.wf(),
            store@ == Map::<i64, Subscription>::empty(),
            store.listing() == Seq::<i64>::empty(),
    {
        let store = RatingAlarms { entries: Vec::new() };
        assert(store@ =~= Map::<i64, Subscription>::empty());
        assert(store.listing() =~= Seq::<i64>::empty());
        store
    }

    /// Where the record of `subscriber` stands among the entries.
    fn position(&self, subscriber: i64) -> (at: Option<usize>)
        ensures
            match at {
                Some(i) => entry_of(self.entries@, subscriber, i as int),
                None => forall|i: int| !entry_of(self.entries@, subscriber, i),
            },
    {
        let mut i: usize = 0;
        while i < self.entries.len()
            invariant
                0 <= i <= self.entries@.len(),
                forall|j: int| 0 <= j < i ==> self.entries@[j].0 != subscriber,
            decreases self.entries@.len() - i,
        {
            if self.entries[i].0 == subscriber {
                return Some(i);
            }
            i = i + 1;
        }
        None
    }

    /// All subscribers that have a record, each once.
    pub fn all_subscribers(&self) -> (subscribers: Vec<i64>)
        requires
            self.wf(),
        ensures
            subscribers@ == self.listing(),
            subscribers@.no_duplicates(),
            forall|subscriber: i64|
                subscribers@.contains(subscriber) <==> self@.contains_key(subscriber),
    {
        let mut subscribers: Vec<i64> = Vec::new();
        let mut i: usize = 0;
        while i < self.entries.len()
            invariant
                0 <= i <= self.entries@.len(),
                subscribers@.len() == i,
                forall|j: int| 0 <= j < i ==> subscribers@[j] == self.entries@[j].0,
            decreases self.entries@.len() - i,
        {
            subscribers.push(self.entries[i].0);
            i = i + 1;
        }
        assert(subscribers@ =~= self.listing());
        proof {
            lemma_subscribers_of_entries(self.entries@);
        }
        subscribers
    }

    /// The record of `subscriber`, if there is one.
    pub fn get_subscription(&self, subscriber: i64) -> (record: Option<RatingSubscription>)
        requires
            self.wf(),
        ensures
            option_subscription(record) == (if self@.contains_key(subscriber) {
                Some(self@[subscriber])
            } else {
                None
            }),
    {
        match self.position(subscriber) {
            Some(i) => {
                proof {
                    lemma_entry_in_map(self.entries@, i as int);
                }
                Some(self.entries[i].1.clone())
            },
            None => None,
        }
    }

    /// Sets the record of `subscriber`, replacing the one it had. Setting the
    /// same record twice is the same as setting it once.
    pub fn set_subscription(&mut self, subscriber: i64, target: String, rating: u64)
        requires
            old(self).wf(),
        ensures
            final(self).wf(),
            final(self)@ == old(self)@.insert(subscriber, Subscription { target: target@, rating }),
    {
        let ghost before = self.entries@;
        let ghost value = Subscription { target: target@, rating };
        let record = RatingSubscription { target, rating };
        match self.position(subscriber) {
            Some(i) => {
                self.entries.set(i, (subscriber, record));
                let ghost after = self.entries@;
                assert(distinct_subscribers(after)) by {
                    assert forall|a: int, b: int| 0 <= a < b < after.len() implies (
                    #[trigger] after[a]).0 != (#[trigger] after[b]).0 by {
                        assert(before[a].0 != before[b].0);
                    }
                }
                assert(entries_map(after) =~= entries_map(before).insert(subscriber, value)) by {
                    assert forall|k: i64| #[trigger]
                        entries_map(after).contains_key(k) <==> entries_map(before).insert(
                            subscriber,
                            value,
                        ).contains_key(k) by {
                        if entries_map(after).contains_key(k) {
                            let j = choose|j: int| entry_of(after, k, j);
                            assert(entry_of(before, k, j));
                        }
                        if entries_map(before).contains_key(k) {
                            let j = choose|j: int| entry_of(before, k, j);
                            assert(entry_of(after, k, j));
                        }
                        assert(entry_of(after, subscriber, i as int));
                    }
                    assert forall|k: i64| #[trigger]
                        entries_map(after).contains_key(k) implies entries_map(after)[k]
                        == entries_map(before).insert(subscriber, value)[k] by {
                        let j = choose|j: int| entry_of(after, k, j);
                        lemma_entry_in_map(after, j);
                        if k != subscriber {
                            assert(j != i);
                            lemma_entry_in_map(before, j);
                        } else {
                            if j < i {
                                assert(after[j].0 != after[i as int].0);
                            } else if i < j {
                                assert(after[i as int].0 != after[j].0);
                            }
                        }
                    }
                }
            },
            None => {
                self.entries.push((subscriber, record));
                let ghost after = self.entries@;
                let ghost n = before.len() as int;
                assert(distinct_subscribers(after)) by {
                    assert forall|a: int, b: int| 0 <= a < b < after.len() implies (
                    #[trigger] after[a]).0 != (#[trigger] after[b]).0 by {
                        if b < n {
                            assert(before[a].0 != before[b].0);
                        } else {
                            assert(!entry_of(before, subscriber, a));
                        }
                    }
                }
                assert(entries_map(after) =~= entries_map(before).insert(subscriber, value)) by {
                    assert forall|k: i64| #[trigger]
                        entries_map(after).contains_key(k) <==> entries_map(before).insert(
                            subscriber,
                            value,
                        ).contains_key(k) by {
                        if entries_map(after).contains_key(k) {
                            let j = choose|j: int| entry_of(after, k, j);
                            if j < n {
                                assert(entry_of(before, k, j));
                            }
                        }
                        if entries_map(before).contains_key(k) {
                            let j = choose|j: int| entry_of(before, k, j);
                            assert(entry_of(after, k, j));
                        }
                        assert(entry_of(after, subscriber, n));
                    }
                    assert forall|k: i64| #[trigger]
                        entries_map(after).contains_key(k) implies entries_map(after)[k]
                        == entries_map(before).insert(subscriber, value)[k] by {
                        let j = choose|j: int| entry_of(after, k, j);
                        lemma_entry_in_map(after, j);
                        if j < n {
                            assert(entry_of(before, k, j));
                            lemma_entry_in_map(before, j);
                        }
                    }
                }
            },
        }
    }

    /// Removes the record of `subscriber`. Where it has none, nothing changes.
    pub fn unsubscribe(&mut self, subscriber: i64)
        requires
            old(self).wf(),
        ensures
            final(self).wf(),
            final(self)@ == old(self)@.remove(subscriber),
            !old(self)@.contains_key(subscriber) ==> final(self)@ == old(self)@,
    {
        let ghost before = self.entries@;
        match self.position(subscriber) {
            Some(i) => {
                self.entries.remove(i);
                let ghost after = self.entries@;
                assert forall|a: int| 0 <= a < after.len() implies #[trigger] after[a] == before[if a
                    < i {
                    a
                } else {
                    a + 1
                }] by {}
                assert(distinct_subscribers(after)) by {
                    assert forall|a: int, b: int| 0 <= a < b < after.len() implies (
                    #[trigger] after[a]).0 != (#[trigger] after[b]).0 by {
                        let a0 = if a < i { a } else { a + 1 };
                        let b0 = if b < i { b } else { b + 1 };
                        assert(before[a0].0 != before[b0].0);
                    }
                }
                assert(entries_map(after) =~= entries_map(before).remove(subscriber)) by {
                    assert forall|k: i64| #[trigger]
                        entries_map(after).contains_key(k) <==> entries_map(before).remove(
                            subscriber,
                        ).contains_key(k) by {
                        if entries_map(after).contains_key(k) {
                            let j = choose|j: int| entry_of(after, k, j);
                            let j0 = if j < i { j } else { j + 1 };
                            assert(entry_of(before, k, j0));
                            if j0 < i {
                                assert(before[j0].0 != before[i as int].0);
                            } else {
                                assert(before[i as int].0 != before[j0].0);
                            }
                        }
                        if entries_map(before).contains_key(k) && k != subscriber {
                            let j = choose|j: int| entry_of(before, k, j);
                            let j1 = if j < i { j } else { j - 1 };
                            assert(entry_of(after, k, j1));
                        }
                    }
                    assert forall|k: i64| #[trigger]
                        entries_map(after).contains_key(k) implies entries_map(after)[k]
                        == entries_map(before).remove(subscriber)[k] by {
                        let j = choose|j: int| entry_of(after, k, j);
                        let j0 = if j < i { j } else { j + 1 };
                        lemma_entry_in_map(after, j);
                        lemma_entry_in_map(before, j0);
                    }
                }
            },
            None => {
                assert(entries_map(before) =~= entries_map(before).remove(subscriber));
            },
        }
    }
}

/// Setting the same record twice is the same as setting it once, and a
/// record that was set is the one that is read.
pub proof fn lemma_set_is_idempotent(
    store: Map<i64, Subscription>,
    subscriber: i64,
    record: Subscription,
)
    ensures
        store.insert(subscriber, record).insert(subscriber, record) == store.insert(
            subscriber,
            record,
        ),
        store.insert(subscriber, record)[subscriber] == record,
{
    assert(store.insert(subscriber, record).insert(subscriber, record) =~= store.insert(
        subscriber,
        record,
    ));
}

/// Removing a record twice is the same as removing it once, and removing
/// the record of a subscriber that has none changes nothing.
pub proof fn lemma_unsubscribe_is_idempotent(store: Map<i64, Subscription>, subscriber: i64)
    ensures
        store.remove(subscriber).remove(subscriber) == store.remove(subscriber),
        !store.contains_key(subscriber) ==> store.remove(subscriber) == store,
        !store.remove(subscriber).contains_key(subscriber),
{
    assert(store.remove(subscriber).remove(subscriber) =~= store.remove(subscriber));
    if !store.contains_key(subscriber) {
        assert(store.remove(subscriber) =~= store);
    }
}

/// For how many seconds the identifier of an uploaded profile picture is
/// remembered: a week.
pub const PROFILE_IMAGE_TTL: u64 = 604800;

/// The key under which the durable medium keeps the record of `subscriber`.
pub open spec fn key_of(subscriber: i64) -> Seq<char> {
    signed_numeral(subscriber as int)
}

/// The subscriber whose record a key of the durable medium names, if the key
/// names one.
pub open spec fn subscriber_of(key: Seq<char>) -> Option<i64> {
    i64_of_text(key)
}

/// The subscribers that a listing of keys names, in its order. Keys that name
/// no subscriber are passed over.
pub open spec fn subscribers_of(keys: Seq<Seq<char>>) -> Seq<i64>
    decreases keys.len(),
{
    if keys.len() == 0 {
        Seq::empty()
    } else {
        let rest = subscribers_of(keys.drop_last());
        match subscriber_of(keys.last()) {
            Some(subscriber) => rest.push(subscriber),
            None => rest,
        }
    }
}

/// Writes the key under which the record of `subscriber` is kept.
pub fn subscriber_key(subscriber: i64) -> (key: String)
    ensures
        key@ == key_of(subscriber),
{
    format_i64(subscriber)
}

/// Reads the subscriber that a key names. Keys that are no numeral of an
/// `i64` name none.
pub fn subscriber_of_key(key: &str) -> (subscriber: Option<i64>)
    ensures
        subscriber == subscriber_of(key@),
{
    parse_i64(key)
}

/// Reads the subscribers out of a listing of keys, passing over the keys that
/// name none.
pub fn subscribers_of_keys(keys: &Vec<String>) -> (subscribers: Vec<i64>)
    ensures
        subscribers@ == subscribers_of(texts_of(keys@)),
{
    let ghost texts = texts_of(keys@);
    let mut subscribers: Vec<i64> = Vec::new();
    let mut i: usize = 0;
    assert(texts.take(0) =~= Seq::<Seq<char>>::empty());
    while i < keys.len()
        invariant
            0 <= i <= keys@.len(),
            texts == texts_of(keys@),
            subscribers@ == subscribers_of(texts.take(i as int)),
        decreases keys@.len() - i,
    {
        assert(texts.take(i + 1).drop_last() =~= texts.take(i as int));
        assert(texts.take(i + 1).last() == keys@[i as int]@);
        match subscriber_of_key(keys[i].as_str()) {
            Some(subscriber) => {
                subscribers.push(subscriber);
            },
            None => {},
        }
        i = i + 1;
    }
    assert(texts.take(keys@.len() as int) =~= texts);
    subscribers
}

/// The key of a subscriber names that subscriber and no other.
pub proof fn lemma_key_round_trip(subscriber: i64)
    ensures
        subscriber_of(key_of(subscriber)) == Some(subscriber),
{
    lemma_signed_round_trip(subscriber as int);
}

/// Different subscribers have different keys.
pub proof fn lemma_keys_differ(a: i64, b: i64)
    requires
        a != b,
    ensures
        key_of(a) != key_of(b),
{
    lemma_key_round_trip(a);
    lemma_key_round_trip(b);
}

} // verus!
