use serde_json::Value;
use solved_bot::db::{RatingAlarms, RatingSubscription};
use solved_bot::poll::{
    CycleReport, PollAction, PollCycle, PollEvent, RatingChange, Stage,
};

fn live(rating: u64) -> serde_json::Map<String, Value> {
    let mut record = serde_json::Map::new();
    record.insert("handle".to_string(), Value::from("someone"));
    record.insert("rating".to_string(), Value::from(rating));
    record
}

fn change(c: &RatingChange) -> (i64, String, u64, u64) {
    (c.subscriber, c.target.clone(), c.old_rating, c.new_rating)
}

/// What the upstream service says of a target.
enum Upstream {
    Rating(u64),
    Unknown,
    Down,
    NoRating,
}

/// Runs one pass against a store in memory, a scripted upstream service and
/// a notification sink that fails for the subscribers listed.
fn run(
    store: &mut RatingAlarms,
    upstream: &dyn Fn(&str) -> Upstream,
    refuses: &[i64],
) -> (CycleReport, Vec<(i64, String, u64, u64, Option<u64>)>) {
    let mut sent = Vec::new();
    let (mut cycle, mut action) = PollCycle::begin(store.all_subscribers());
    let mut steps = 0;
    loop {
        let event = match action {
            PollAction::Read { subscriber } => {
                PollEvent::Record(store.get_subscription(subscriber))
            }
            PollAction::Lookup { target, .. } => match upstream(&target) {
                Upstream::Rating(rating) => PollEvent::Live(Some(live(rating))),
                Upstream::Unknown => PollEvent::Live(None),
                Upstream::Down => PollEvent::Failed("upstream is down".to_string()),
                Upstream::NoRating => PollEvent::Live(Some(serde_json::Map::new())),
            },
            PollAction::Notify { change, record } => {
                if refuses.contains(&change.subscriber) {
                    PollEvent::Failed("chat not found".to_string())
                } else {
                    let seen = record.get("rating").and_then(Value::as_u64);
                    sent.push((
                        change.subscriber,
                        change.target,
                        change.old_rating,
                        change.new_rating,
                        seen,
                    ));
                    PollEvent::Notified
                }
            }
            PollAction::Store { subscriber, target, rating } => {
                store.set_subscription(subscriber, target, rating);
                PollEvent::Stored
            }
            PollAction::Finish => break,
        };
        action = cycle.step(event);
        steps += 1;
        assert!(steps <= 1000);
    }
    assert!(cycle.is_finished());
    (cycle.into_report(), sent)
}

fn rating_of(store: &RatingAlarms, subscriber: i64) -> Option<u64> {
    store.get_subscription(subscriber).map(|r| r.rating)
}

#[test]
fn unchanged_rating_sends_nothing() {
    let mut store = RatingAlarms::setup();
    store.set_subscription(1, "someone".to_string(), 1500);
    let (report, sent) = run(&mut store, &|_| Upstream::Rating(1500), &[]);
    assert!(sent.is_empty());
    assert!(report.delivered.is_empty());
    assert!(report.failures.is_empty());
    let record = store.get_subscription(1).unwrap();
    assert_eq!(record.target, "someone");
    assert_eq!(record.rating, 1500);
}

#[test]
fn changed_rating_notifies_once_and_updates_the_store() {
    let mut store = RatingAlarms::setup();
    store.set_subscription(1, "someone".to_string(), 1500);
    let (report, sent) = run(&mut store, &|_| Upstream::Rating(1600), &[]);
    assert_eq!(sent, vec![(1, "someone".to_string(), 1500, 1600, Some(1600))]);
    assert_eq!(report.delivered.len(), 1);
    assert_eq!(change(&report.delivered[0]), (1, "someone".to_string(), 1500, 1600));
    assert!(report.failures.is_empty());
    let record = store.get_subscription(1).unwrap();
    assert_eq!(record.target, "someone");
    assert_eq!(record.rating, 1600);
}

#[test]
fn lowered_rating_notifies_too() {
    let mut store = RatingAlarms::setup();
    store.set_subscription(1, "someone".to_string(), 1500);
    let (_, sent) = run(&mut store, &|_| Upstream::Rating(1400), &[]);
    assert_eq!(sent, vec![(1, "someone".to_string(), 1500, 1400, Some(1400))]);
    assert_eq!(rating_of(&store, 1), Some(1400));
}

#[test]
fn second_pass_after_a_change_is_silent() {
    let mut store = RatingAlarms::setup();
    store.set_subscription(1, "someone".to_string(), 1500);
    let (_, first) = run(&mut store, &|_| Upstream::Rating(1600), &[]);
    let (report, second) = run(&mut store, &|_| Upstream::Rating(1600), &[]);
    assert_eq!(first.len(), 1);
    assert!(second.is_empty());
    assert!(report.delivered.is_empty());
    assert_eq!(rating_of(&store, 1), Some(1600));
}

#[test]
fn failed_lookup_does_not_stop_the_pass() {
    let mut store = RatingAlarms::setup();
    store.set_subscription(1, "alpha".to_string(), 1000);
    store.set_subscription(2, "broken".to_string(), 1500);
    store.set_subscription(3, "gamma".to_string(), 2000);
    let upstream = |target: &str| match target {
        "alpha" => Upstream::Rating(1001),
        "broken" => Upstream::Down,
        _ => Upstream::Rating(2002),
    };
    let (report, sent) = run(&mut store, &upstream, &[]);
    assert_eq!(
        sent,
        vec![
            (1, "alpha".to_string(), 1000, 1001, Some(1001)),
            (3, "gamma".to_string(), 2000, 2002, Some(2002)),
        ]
    );
    assert_eq!(report.failures.len(), 1);
    assert_eq!(report.failures[0].subscriber, 2);
    assert_eq!(report.failures[0].stage, Stage::Lookup);
    assert_eq!(report.failures[0].reason, "upstream is down");
    assert_eq!(rating_of(&store, 1), Some(1001));
    assert_eq!(rating_of(&store, 2), Some(1500));
    assert_eq!(rating_of(&store, 3), Some(2002));
}

#[test]
fn unknown_target_is_skipped_and_kept() {
    let mut store = RatingAlarms::setup();
    store.set_subscription(1, "gone".to_string(), 1500);
    store.set_subscription(2, "here".to_string(), 1500);
    let upstream = |target: &str| match target {
        "gone" => Upstream::Unknown,
        _ => Upstream::Rating(1501),
    };
    let (report, sent) = run(&mut store, &upstream, &[]);
    assert_eq!(sent, vec![(2, "here".to_string(), 1500, 1501, Some(1501))]);
    assert!(report.failures.is_empty());
    let kept = store.get_subscription(1).unwrap();
    assert_eq!(kept.target, "gone");
    assert_eq!(kept.rating, 1500);
}

#[test]
fn failed_notification_stores_nothing() {
    let mut store = RatingAlarms::setup();
    store.set_subscription(1, "alpha".to_string(), 1000);
    store.set_subscription(2, "beta".to_string(), 1500);
    let (report, sent) = run(&mut store, &|_| Upstream::Rating(1700), &[1]);
    assert_eq!(sent, vec![(2, "beta".to_string(), 1500, 1700, Some(1700))]);
    assert_eq!(report.delivered.len(), 1);
    assert_eq!(report.delivered[0].subscriber, 2);
    assert_eq!(report.failures.len(), 1);
    assert_eq!(report.failures[0].subscriber, 1);
    assert_eq!(report.failures[0].stage, Stage::Notify);
    assert_eq!(report.failures[0].reason, "chat not found");
    assert_eq!(rating_of(&store, 1), Some(1000));
    assert_eq!(rating_of(&store, 2), Some(1700));
}

#[test]
fn record_without_rating_is_a_lookup_failure() {
    let mut store = RatingAlarms::setup();
    store.set_subscription(1, "alpha".to_string(), 1000);
    let (report, sent) = run(&mut store, &|_| Upstream::NoRating, &[]);
    assert!(sent.is_empty());
    assert_eq!(report.failures.len(), 1);
    assert_eq!(report.failures[0].stage, Stage::Lookup);
    assert_eq!(report.failures[0].reason, "live record holds no rating");
    assert_eq!(rating_of(&store, 1), Some(1000));
}

#[test]
fn empty_store_finishes_at_once() {
    let (cycle, action) = PollCycle::begin(Vec::new());
    assert!(matches!(action, PollAction::Finish));
    assert!(cycle.is_finished());
    assert_eq!(cycle.current(), None);
    let report = cycle.into_report();
    assert!(report.delivered.is_empty());
    assert!(report.failures.is_empty());
}

#[test]
fn record_that_vanished_is_skipped() {
    let (mut cycle, action) = PollCycle::begin(vec![5, 6]);
    assert!(matches!(action, PollAction::Read { subscriber: 5 }));
    assert_eq!(cycle.current(), Some(5));
    let action = cycle.step(PollEvent::Record(None));
    assert!(matches!(action, PollAction::Read { subscriber: 6 }));
    assert_eq!(cycle.current(), Some(6));
    let action = cycle.step(PollEvent::Record(None));
    assert!(matches!(action, PollAction::Finish));
    let report = cycle.into_report();
    assert!(report.delivered.is_empty());
    assert!(report.failures.is_empty());
}

#[test]
fn actions_of_one_subscriber_come_in_order() {
    let (mut cycle, action) = PollCycle::begin(vec![42]);
    assert!(matches!(action, PollAction::Read { subscriber: 42 }));
    let action = cycle.step(PollEvent::Record(Some(RatingSubscription {
        target: "someone".to_string(),
        rating: 1500,
    })));
    match action {
        PollAction::Lookup { subscriber, target } => {
            assert_eq!(subscriber, 42);
            assert_eq!(target, "someone");
        }
        _ => panic!("expected a lookup"),
    }
    let action = cycle.step(PollEvent::Live(Some(live(1600))));
    match action {
        PollAction::Notify { change: c, record } => {
            assert_eq!(change(&c), (42, "someone".to_string(), 1500, 1600));
            assert_eq!(record, live(1600));
        }
        _ => panic!("expected a notification"),
    }
    let action = cycle.step(PollEvent::Notified);
    match action {
        PollAction::Store { subscriber, target, rating } => {
            assert_eq!(subscriber, 42);
            assert_eq!(target, "someone");
            assert_eq!(rating, 1600);
        }
        _ => panic!("expected a store"),
    }
    assert!(!cycle.is_finished());
    let action = cycle.step(PollEvent::Stored);
    assert!(matches!(action, PollAction::Finish));
    assert!(cycle.is_finished());
}

#[test]
fn failed_read_and_failed_store_are_reported() {
    let (mut cycle, _) = PollCycle::begin(vec![1, 2]);
    let action = cycle.step(PollEvent::Failed("store unreachable".to_string()));
    assert!(matches!(action, PollAction::Read { subscriber: 2 }));
    cycle.step(PollEvent::Record(Some(RatingSubscription {
        target: "t".to_string(),
        rating: 1,
    })));
    cycle.step(PollEvent::Live(Some(live(2))));
    let action = cycle.step(PollEvent::Notified);
    assert!(matches!(action, PollAction::Store { subscriber: 2, rating: 2, .. }));
    let action = cycle.step(PollEvent::Failed("write refused".to_string()));
    assert!(matches!(action, PollAction::Finish));
    let report = cycle.into_report();
    assert_eq!(report.delivered.len(), 1);
    assert_eq!(report.failures.len(), 2);
    assert_eq!(report.failures[0].subscriber, 1);
    assert_eq!(report.failures[0].stage, Stage::Read);
    assert_eq!(report.failures[0].reason, "store unreachable");
    assert_eq!(report.failures[1].subscriber, 2);
    assert_eq!(report.failures[1].stage, Stage::Store);
    assert_eq!(report.failures[1].reason, "write refused");
}

#[test]
fn outcome_that_does_not_answer_counts_as_failure() {
    let (mut cycle, _) = PollCycle::begin(vec![1, 2]);
    let action = cycle.step(PollEvent::Stored);
    assert!(matches!(action, PollAction::Read { subscriber: 2 }));
    cycle.step(PollEvent::Record(Some(RatingSubscription {
        target: "t".to_string(),
        rating: 1,
    })));
    let action = cycle.step(PollEvent::Notified);
    assert!(matches!(action, PollAction::Finish));
    let report = cycle.into_report();
    assert!(report.delivered.is_empty());
    assert_eq!(report.failures.len(), 2);
    assert_eq!(report.failures[0].stage, Stage::Read);
    assert_eq!(report.failures[0].reason, "outcome does not answer the action");
    assert_eq!(report.failures[1].stage, Stage::Lookup);
}

#[test]
fn finished_pass_ignores_outcomes() {
    let (mut cycle, _) = PollCycle::begin(vec![1]);
    cycle.step(PollEvent::Record(None));
    assert!(cycle.is_finished());
    assert!(matches!(cycle.step(PollEvent::Notified), PollAction::Finish));
    assert!(matches!(cycle.step(PollEvent::Failed("late".to_string())), PollAction::Finish));
    let report = cycle.into_report();
    assert!(report.delivered.is_empty());
    assert!(report.failures.is_empty());
}

#[test]
fn rating_is_read_from_the_rating_field_only() {
    let (mut cycle, _) = PollCycle::begin(vec![1]);
    cycle.step(PollEvent::Record(Some(RatingSubscription {
        target: "t".to_string(),
        rating: 1500,
    })));
    let mut record = serde_json::Map::new();
    record.insert("rating".to_string(), Value::from("1600"));
    record.insert("ratingByClass".to_string(), Value::from(1600u64));
    let action = cycle.step(PollEvent::Live(Some(record)));
    assert!(matches!(action, PollAction::Finish));
    let report = cycle.into_report();
    assert_eq!(report.failures.len(), 1);
    assert_eq!(report.failures[0].stage, Stage::Lookup);
}

#[test]
fn pass_visits_every_subscriber_once() {
    let mut store = RatingAlarms::setup();
    for id in 0..25i64 {
        store.set_subscription(id, format!("user{}", id), 1000);
    }
    let (report, sent) = run(&mut store, &|_| Upstream::Rating(1001), &[]);
    let mut told: Vec<i64> = sent.iter().map(|s| s.0).collect();
    told.sort();
    assert_eq!(told, (0..25).collect::<Vec<i64>>());
    assert_eq!(report.delivered.len(), 25);
    for id in 0..25i64 {
        assert_eq!(rating_of(&store, id), Some(1001));
    }
}
