//! The stop conditions and their composition.

use optlib::tools::stopchecker::{
    AnyStopChecker, CompositeAll, CompositeAny, GoalNotChange, MaxIterations, StopChecker,
    Threshold,
};
use optlib::RunState;

fn b(x: f64) -> u64 {
    x.to_bits()
}

fn state(best: Option<f64>, iteration: usize) -> RunState<Vec<u64>> {
    RunState { best: best.map(|g| (vec![b(1.0)], b(g))), iteration }
}

#[test]
fn max_iterations_fires_at_count() {
    let mut checker = MaxIterations::new(3);
    assert!(!StopChecker::<Vec<u64>>::can_stop(&mut checker, &state(None, 0)));
    assert!(!StopChecker::<Vec<u64>>::can_stop(&mut checker, &state(None, 2)));
    assert!(StopChecker::<Vec<u64>>::can_stop(&mut checker, &state(None, 3)));
    assert!(StopChecker::<Vec<u64>>::can_stop(&mut checker, &state(None, 10)));
}

#[test]
fn threshold_fires_at_or_below() {
    let mut checker = Threshold::new(b(0.5));
    assert!(!StopChecker::<Vec<u64>>::can_stop(&mut checker, &state(None, 0)));
    assert!(!StopChecker::<Vec<u64>>::can_stop(&mut checker, &state(Some(0.6), 0)));
    assert!(StopChecker::<Vec<u64>>::can_stop(&mut checker, &state(Some(0.5), 0)));
    assert!(StopChecker::<Vec<u64>>::can_stop(&mut checker, &state(Some(0.1), 0)));
    assert!(StopChecker::<Vec<u64>>::can_stop(&mut checker, &state(Some(-3.0), 0)));
    // A NaN best never reaches the threshold.
    assert!(!StopChecker::<Vec<u64>>::can_stop(&mut checker, &state(Some(f64::NAN), 0)));
}

#[test]
fn goal_not_change_waits_for_stagnation() {
    // The best changes by more than the delta at iteration two and then
    // stalls: the checker fires once three quiet iterations have passed.
    let mut checker = GoalNotChange::new(3, b(0.25));
    assert!(!StopChecker::<Vec<u64>>::can_stop(&mut checker, &state(None, 0)));
    assert!(!StopChecker::<Vec<u64>>::can_stop(&mut checker, &state(Some(10.0), 2)));
    assert!(!StopChecker::<Vec<u64>>::can_stop(&mut checker, &state(Some(9.9), 3)));
    assert!(!StopChecker::<Vec<u64>>::can_stop(&mut checker, &state(Some(9.9), 4)));
    assert!(!StopChecker::<Vec<u64>>::can_stop(&mut checker, &state(Some(9.9), 5)));
    assert!(StopChecker::<Vec<u64>>::can_stop(&mut checker, &state(Some(9.9), 6)));
    // A change above the delta rearms the window.
    assert!(!StopChecker::<Vec<u64>>::can_stop(&mut checker, &state(Some(5.0), 7)));
    assert!(!StopChecker::<Vec<u64>>::can_stop(&mut checker, &state(Some(5.0), 10)));
    assert!(StopChecker::<Vec<u64>>::can_stop(&mut checker, &state(Some(5.0), 11)));
}

#[test]
fn goal_not_change_guards_resumed_runs() {
    // A checker that recorded a change late in one run is queried early in a
    // resumed run: the iteration counter sits behind the recorded change and
    // the checker just answers no instead of misbehaving.
    let mut checker = GoalNotChange::new(3, b(0.25));
    assert!(!StopChecker::<Vec<u64>>::can_stop(&mut checker, &state(Some(10.0), 50)));
    assert!(!StopChecker::<Vec<u64>>::can_stop(&mut checker, &state(Some(10.0), 2)));
}

#[test]
fn composite_any_fires_on_first_yes() {
    let mut checker = CompositeAny::new(vec![
        AnyStopChecker::Threshold(Threshold::new(b(0.5))),
        AnyStopChecker::MaxIterations(MaxIterations::new(10)),
    ]);
    assert!(!StopChecker::<Vec<u64>>::can_stop(&mut checker, &state(Some(3.0), 4)));
    assert!(StopChecker::<Vec<u64>>::can_stop(&mut checker, &state(Some(0.2), 4)));
    assert!(StopChecker::<Vec<u64>>::can_stop(&mut checker, &state(Some(3.0), 10)));
}

#[test]
fn composite_all_requires_every_yes() {
    let mut checker = CompositeAll::new(vec![
        AnyStopChecker::Threshold(Threshold::new(b(0.5))),
        AnyStopChecker::MaxIterations(MaxIterations::new(10)),
    ]);
    assert!(!StopChecker::<Vec<u64>>::can_stop(&mut checker, &state(Some(0.2), 4)));
    assert!(!StopChecker::<Vec<u64>>::can_stop(&mut checker, &state(Some(3.0), 10)));
    assert!(StopChecker::<Vec<u64>>::can_stop(&mut checker, &state(Some(0.2), 10)));
}
