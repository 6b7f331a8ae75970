use ops_meter::outcome::{Outcome, TaskFailure};
use ops_meter::tally::{aggregate, RunningTally, Snapshot};

fn fail() -> Outcome {
    Outcome::Failure(TaskFailure)
}

#[test]
fn counts_match_input_variants() {
    let events = vec![
        (Outcome::Success, 10),
        (fail(), 20),
        (Outcome::Success, 30),
        (Outcome::Success, 40),
        (fail(), 50),
    ];
    let (tally, snaps) = aggregate(&events);
    assert_eq!(tally.success_count, 3);
    assert_eq!(tally.failure_count, 2);
    assert_eq!(tally.success_count + tally.failure_count, 5);
    assert!(snaps.is_empty());
}

#[test]
fn empty_input_leaves_fresh_tally() {
    let (tally, snaps) = aggregate(&[]);
    assert_eq!(tally, RunningTally::new());
    assert!(snaps.is_empty());
}

#[test]
fn end_to_end_scenario_one_snapshot_at_third_event() {
    let events = vec![
        (Outcome::Success, 200),
        (Outcome::Success, 900),
        (fail(), 1100),
        (Outcome::Success, 1300),
    ];
    let (tally, snaps) = aggregate(&events);
    assert_eq!(
        snaps,
        vec![Snapshot { success_count: 2, failure_count: 1, elapsed_seconds: 1 }]
    );
    assert_eq!(tally.success_count, 3);
    assert_eq!(tally.failure_count, 1);
    assert_eq!(tally.last_reported_second, 1);
}

#[test]
fn record_step_by_step_scenario() {
    let mut tally = RunningTally::new();
    assert_eq!(tally.record(Outcome::Success, 200), None);
    assert_eq!(tally.record(Outcome::Success, 900), None);
    assert_eq!(
        tally.record(fail(), 1100),
        Some(Snapshot { success_count: 2, failure_count: 1, elapsed_seconds: 1 })
    );
    assert_eq!(tally.record(Outcome::Success, 1300), None);
    assert_eq!(
        tally.record(Outcome::Success, 2000),
        Some(Snapshot { success_count: 4, failure_count: 1, elapsed_seconds: 2 })
    );
}

#[test]
fn snapshot_seconds_strictly_increase_and_counts_grow() {
    let events = vec![
        (Outcome::Success, 1500),
        (fail(), 1600),
        (Outcome::Success, 2100),
        (Outcome::Success, 2999),
        (fail(), 3000),
        (Outcome::Success, 7250),
    ];
    let (_, snaps) = aggregate(&events);
    assert_eq!(
        snaps,
        vec![
            Snapshot { success_count: 1, failure_count: 0, elapsed_seconds: 1 },
            Snapshot { success_count: 2, failure_count: 1, elapsed_seconds: 2 },
            Snapshot { success_count: 3, failure_count: 2, elapsed_seconds: 3 },
            Snapshot { success_count: 4, failure_count: 2, elapsed_seconds: 7 },
        ]
    );
    for w in snaps.windows(2) {
        assert!(w[0].elapsed_seconds < w[1].elapsed_seconds);
        assert!(w[0].success_count <= w[1].success_count);
        assert!(w[0].failure_count <= w[1].failure_count);
    }
}

#[test]
fn quiet_seconds_are_skipped() {
    let events = vec![(Outcome::Success, 400), (Outcome::Success, 3200), (Outcome::Success, 3300)];
    let (_, snaps) = aggregate(&events);
    assert_eq!(
        snaps,
        vec![Snapshot { success_count: 2, failure_count: 0, elapsed_seconds: 3 }]
    );
    assert!(snaps.iter().all(|s| s.elapsed_seconds != 1 && s.elapsed_seconds != 2));
}

#[test]
fn snapshot_second_never_exceeds_elapsed_time() {
    let mut tally = RunningTally::new();
    let snap = tally.record(Outcome::Success, 5999).unwrap();
    assert_eq!(snap.elapsed_seconds, 5);
    assert!(snap.elapsed_seconds * 1000 <= 5999);
    assert_eq!(tally.record(Outcome::Success, 5000), None);
}

#[test]
fn events_from_many_workers_are_all_counted() {
    let workers = 4usize;
    let per_worker = 25usize;
    let mut events = Vec::new();
    for k in 0..per_worker {
        for w in 0..workers {
            let outcome = if (k + w) % 3 == 0 { fail() } else { Outcome::Success };
            events.push((outcome, (k * 40 + w) as u64));
        }
    }
    let (tally, _) = aggregate(&events);
    assert_eq!((tally.success_count + tally.failure_count) as usize, workers * per_worker);
}

#[test]
fn can_record_guards_the_total() {
    let full = RunningTally { success_count: u64::MAX - 3, failure_count: 3, last_reported_second: 0 };
    assert!(!full.can_record());
    let room = RunningTally { success_count: u64::MAX - 4, failure_count: 3, last_reported_second: 0 };
    assert!(room.can_record());
}
