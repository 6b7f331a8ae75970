use ops_meter::outcome::{Outcome, TaskFailure};
use ops_meter::simulator::TaskSimulator;

#[test]
fn default_parameters() {
    let t = TaskSimulator::new();
    assert_eq!(t.min_latency_ms, 1);
    assert_eq!(t.max_latency_ms, 500);
    assert_eq!(t.success_numerator, 4);
    assert_eq!(t.success_denominator, 5);
}

#[test]
fn invalid_parameters_are_rejected() {
    assert!(TaskSimulator::with_params(5, 5, 1, 2).is_none());
    assert!(TaskSimulator::with_params(1, 5, 1, 0).is_none());
    assert!(TaskSimulator::with_params(1, 5, 3, 2).is_none());
    assert!(TaskSimulator::with_params(1, 5, 2, 2).is_some());
}

#[test]
fn draws_stay_in_latency_range() {
    let t = TaskSimulator::with_params(10, 12, 1, 2).unwrap();
    let mut rng = rand::thread_rng();
    for _ in 0..200 {
        let run = t.draw(&mut rng);
        assert!(run.latency_ms == 10 || run.latency_ms == 11);
    }
}

#[test]
fn certain_outcomes() {
    let mut rng = rand::thread_rng();
    let never = TaskSimulator::with_params(100, 101, 0, 5).unwrap();
    let always = TaskSimulator::with_params(100, 101, 5, 5).unwrap();
    for _ in 0..50 {
        let a = never.draw(&mut rng);
        assert_eq!(a.outcome, Outcome::Failure(TaskFailure));
        assert_eq!(a.latency_ms, 100);
        assert_eq!(always.draw(&mut rng).outcome, Outcome::Success);
    }
}

#[test]
fn outcome_from_draw_and_reason() {
    assert_eq!(Outcome::from_draw(true), Outcome::Success);
    assert!(!Outcome::from_draw(false).is_success());
    assert_eq!(TaskFailure.reason(), "Task error.");
}
