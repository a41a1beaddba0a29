//! The cross-run statistics: merging, counters and the convergence table.

use optlib::tools::statistics::{
    CallCountData, GoalCalcStatistics, StatFunctionsConvergence, Statistics,
};
use optlib::{Goal, Solution};

type Convergence<T> = Vec<Vec<Option<Solution<T>>>>;

fn b(x: f64) -> u64 {
    x.to_bits()
}

#[test]
fn get_min_iterations_empty() {
    let convergence: Convergence<f32> = vec![];
    assert_eq!(convergence.get_min_iterations(), 0);
}

#[test]
fn get_min_iterations_single_01() {
    let mut convergence: Convergence<f32> = vec![];
    convergence.push(vec![Some((1_f32, b(0.0)))]);

    assert_eq!(convergence.get_min_iterations(), 1);
}

#[test]
fn get_min_iterations_single_02() {
    let mut convergence: Convergence<f32> = vec![];
    convergence.push(vec![
        Some((1_f32, b(0.0))),
        Some((1_f32, b(0.0))),
        Some((1_f32, b(0.0))),
    ]);

    assert_eq!(convergence.get_min_iterations(), 3);
}

#[test]
fn get_min_iterations_several_01() {
    let mut convergence: Convergence<f32> = vec![];
    convergence.push(vec![
        Some((1_f32, b(0.0))),
        Some((1_f32, b(0.0))),
        Some((1_f32, b(0.0))),
    ]);
    convergence.push(vec![Some((1_f32, b(0.0)))]);

    assert_eq!(convergence.get_min_iterations(), 1);
}

#[test]
fn get_min_iterations_several_02() {
    let mut convergence: Convergence<f32> = vec![];
    convergence.push(vec![
        Some((1_f32, b(0.0))),
        Some((1_f32, b(0.0))),
        Some((1_f32, b(0.0))),
    ]);
    convergence.push(vec![]);

    assert_eq!(convergence.get_min_iterations(), 0);
}

#[test]
fn goals_at_iteration_single() {
    let mut convergence: Convergence<f32> = vec![];
    convergence.push(vec![Some((3_f32, b(30.0))), Some((2_f32, b(20.0))), Some((1_f32, b(10.0)))]);

    assert_eq!(convergence.goals_at_iteration(0), vec![b(30.0)]);
    assert_eq!(convergence.goals_at_iteration(1), vec![b(20.0)]);
    assert_eq!(convergence.goals_at_iteration(2), vec![b(10.0)]);
    assert_eq!(convergence.goals_at_iteration(3), Vec::<u64>::new());
}

#[test]
fn goals_at_iteration_skips_missing() {
    let mut convergence: Convergence<f32> = vec![];
    convergence.push(vec![Some((3_f32, b(30.0))), None, Some((1_f32, b(10.0)))]);
    convergence.push(vec![Some((3_f32, b(50.0))), Some((2_f32, b(40.0))), Some((1_f32, b(30.0)))]);

    assert_eq!(convergence.goals_at_iteration(0), vec![b(30.0), b(50.0)]);
    assert_eq!(convergence.goals_at_iteration(1), vec![b(40.0)]);
    assert_eq!(convergence.goals_at_iteration(2), vec![b(10.0), b(30.0)]);
}

#[test]
fn statistics_convergence_unite_empty() {
    let mut stat_1: Statistics<f32> = Statistics::new();
    let stat_2: Statistics<f32> = Statistics::new();

    let valid_results: Vec<Option<Solution<f32>>> = vec![];
    let valid_convergence: Convergence<f32> = vec![];

    stat_1.unite(stat_2);
    assert_eq!(stat_1.results, valid_results);
    assert_eq!(stat_1.convergence, valid_convergence);
}

#[test]
fn statistics_unite_results_01() {
    let mut stat_1: Statistics<f32> = Statistics::new();
    let stat_2: Statistics<f32> = Statistics::new();

    let valid_results: Vec<Option<Solution<f32>>> = vec![Some((1.0_f32, b(0.0)))];
    stat_1.results.push(Some((1.0_f32, b(0.0))));

    stat_1.unite(stat_2);
    assert_eq!(stat_1.results, valid_results);
}

#[test]
fn statistics_unite_results_02() {
    let mut stat_1: Statistics<f32> = Statistics::new();
    let mut stat_2: Statistics<f32> = Statistics::new();

    let valid_results: Vec<Option<Solution<f32>>> = vec![Some((1.0_f32, b(0.0)))];
    stat_2.results.push(Some((1.0_f32, b(0.0))));

    stat_1.unite(stat_2);
    assert_eq!(stat_1.results, valid_results);
}

#[test]
fn statistics_unite_results_03() {
    let mut stat_1: Statistics<f32> = Statistics::new();
    let mut stat_2: Statistics<f32> = Statistics::new();

    let valid_results: Vec<Option<Solution<f32>>> =
        vec![Some((1.0_f32, b(0.0))), Some((2.0_f32, b(1.0)))];

    stat_1.results.push(Some((1.0_f32, b(0.0))));
    stat_2.results.push(Some((2.0_f32, b(1.0))));

    stat_1.unite(stat_2);
    assert_eq!(stat_1.results, valid_results);
}

#[test]
fn convergence_unite_01() {
    let mut stat_1: Statistics<f32> = Statistics::new();
    let stat_2: Statistics<f32> = Statistics::new();

    let valid_convergence: Convergence<f32> =
        vec![vec![Some((1.0_f32, b(0.0))), Some((2.0_f32, b(1.0)))]];

    stat_1.convergence.push(vec![Some((1.0_f32, b(0.0))), Some((2.0_f32, b(1.0)))]);

    stat_1.unite(stat_2);
    assert_eq!(stat_1.convergence, valid_convergence);
}

#[test]
fn convergence_unite_02() {
    let mut stat_1: Statistics<f32> = Statistics::new();
    let mut stat_2: Statistics<f32> = Statistics::new();

    let valid_convergence: Convergence<f32> =
        vec![vec![Some((1.0_f32, b(0.0))), Some((2.0_f32, b(1.0)))]];

    stat_2.convergence.push(vec![Some((1.0_f32, b(0.0))), Some((2.0_f32, b(1.0)))]);

    stat_1.unite(stat_2);
    assert_eq!(stat_1.convergence, valid_convergence);
}

#[test]
fn convergence_unite_04() {
    let mut stat_1: Statistics<f32> = Statistics::new();
    let mut stat_2: Statistics<f32> = Statistics::new();

    let valid_convergence: Convergence<f32> = vec![
        vec![Some((1.0_f32, b(0.0))), Some((2.0_f32, b(1.0)))],
        vec![Some((10.0_f32, b(10.0))), Some((20.0_f32, b(2.0)))],
    ];

    stat_1.convergence.push(vec![Some((1.0_f32, b(0.0))), Some((2.0_f32, b(1.0)))]);

    stat_2.convergence.push(vec![Some((10.0_f32, b(10.0))), Some((20.0_f32, b(2.0)))]);

    stat_1.unite(stat_2);
    assert_eq!(stat_1.convergence, valid_convergence);
}

#[test]
fn call_count_data_unite_empty() {
    let mut call_count_1 = CallCountData::new();
    let call_count_2 = CallCountData::new();

    let valid_call_count_stat: Vec<usize> = vec![];

    call_count_1.unite(call_count_2);

    assert_eq!(call_count_1.0, valid_call_count_stat);
}

#[test]
fn call_count_data_unite_01() {
    let mut call_count_1 = CallCountData::new();
    let call_count_2 = CallCountData::new();

    let valid_call_count_stat: Vec<usize> = vec![100];

    call_count_1.0.push(100);
    call_count_1.unite(call_count_2);

    assert_eq!(call_count_1.0, valid_call_count_stat);
}

#[test]
fn call_count_data_unite_02() {
    let mut call_count_1 = CallCountData::new();
    let mut call_count_2 = CallCountData::new();

    let valid_call_count_stat: Vec<usize> = vec![100];

    call_count_2.0.push(100);
    call_count_1.unite(call_count_2);

    assert_eq!(call_count_1.0, valid_call_count_stat);
}

#[test]
fn call_count_data_unite_03() {
    let mut call_count_1 = CallCountData::new();
    let mut call_count_2 = CallCountData::new();

    let valid_call_count_stat: Vec<usize> = vec![100, 200];

    call_count_1.0.push(100);
    call_count_2.0.push(200);

    call_count_1.unite(call_count_2);

    assert_eq!(call_count_1.0, valid_call_count_stat);
}

#[test]
fn call_count_data_counts() {
    let mut data = CallCountData::new();
    data.next_run();
    assert_eq!(data.get_call_count(), vec![0]);
    data.increment();
    assert_eq!(data.get_call_count(), vec![1]);
    data.add(5);
    assert_eq!(data.get_call_count(), vec![6]);
    data.next_run();
    data.add(7);
    assert_eq!(data.get_call_count(), vec![6, 7]);
    // Without an open run a count opens one.
    let mut fresh = CallCountData::new();
    fresh.increment();
    assert_eq!(fresh.get_call_count(), vec![1]);
}

struct CountedGoal;

impl Goal<Vec<u64>> for CountedGoal {
    fn get(&mut self, x: &Vec<u64>) -> u64 {
        (x.len() as f64).to_bits()
    }
}

#[test]
fn goal_calc_statistics_counts_calls() {
    let mut wrapped = GoalCalcStatistics::new(CountedGoal);
    let point = vec![b(1.0), b(2.0)];
    let v1 = wrapped.get(&point);
    let v2 = wrapped.get(&point);
    assert_eq!(f64::from_bits(v1), 2.0);
    assert_eq!(v1, v2);
    assert_eq!(wrapped.get_call_count_data().0, vec![2]);
}
