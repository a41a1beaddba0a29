//! End-to-end runs of the genetic engine on a shifted paraboloid:
//! minimizing the sum of the squares of `x[i] - (i + 1)`.

use rand::Rng;

use optlib::genetic::cross::{FloatCrossExp, VecCrossAllGenes};
use optlib::genetic::mutation::{BitwiseMutation, VecMutation};
use optlib::genetic::pairing::Tournament;
use optlib::genetic::pre_birth::CheckChromoInterval;
use optlib::genetic::selection::{AnySelection, KillFitnessNaN, LimitPopulation};
use optlib::genetic::{Creator, GeneticOptimizer};
use optlib::tools::logging::{Logger, NullLogger};
use optlib::tools::statistics::{Statistics, StatisticsLogger};
use optlib::tools::stopchecker::{
    AnyStopChecker, CompositeAny, GoalNotChange, MaxIterations, Threshold,
};
use optlib::{Chromosomes, Goal, Solution};

fn b(x: f64) -> u64 {
    x.to_bits()
}

/// The shifted paraboloid: its minimum of zero sits at `(1, 2, ..., n)`.
struct Paraboloid;

impl Goal<Chromosomes> for Paraboloid {
    fn get(&mut self, x: &Chromosomes) -> u64 {
        let mut result = 0.0_f64;
        for (n, bits) in x.iter().enumerate() {
            let v = f64::from_bits(*bits);
            result += (v - (n as f64 + 1.0)) * (v - (n as f64 + 1.0));
        }
        result.to_bits()
    }
}

/// Creates chromosomes with every gene drawn uniformly from its interval.
struct RandomCreator {
    population_size: usize,
    intervals: Vec<(f64, f64)>,
}

impl Creator<Chromosomes> for RandomCreator {
    fn create(&mut self) -> Vec<Chromosomes> {
        let mut rng = rand::thread_rng();
        (0..self.population_size)
            .map(|_| {
                self.intervals
                    .iter()
                    .map(|&(lo, hi)| rng.gen_range(lo..=hi).to_bits())
                    .collect()
            })
            .collect()
    }
}

type Engine<L> = GeneticOptimizer<
    Paraboloid,
    CompositeAny<AnyStopChecker>,
    RandomCreator,
    Tournament,
    VecCrossAllGenes<FloatCrossExp>,
    VecMutation<BitwiseMutation>,
    AnySelection,
    CheckChromoInterval,
    L,
>;

fn create_optimizer<L: Logger<Chromosomes>>(chromo_count: usize, loggers: Vec<L>) -> Engine<L> {
    let minval = -100.0;
    let maxval = 100.0;
    let population_size = 200;
    let intervals_f: Vec<(f64, f64)> = vec![(minval, maxval); chromo_count];
    let intervals_b: Vec<(u64, u64)> = intervals_f.iter().map(|&(l, h)| (b(l), b(h))).collect();

    let goal = Paraboloid;
    let creator = RandomCreator { population_size, intervals: intervals_f };

    let families_count = population_size / 2;
    let pairing = Tournament::new(families_count).partners_count(2).rounds_count(2);

    let single_cross = FloatCrossExp::new();
    let cross = VecCrossAllGenes::new(single_cross);

    let mutation_probability = 15.0;
    let mutation_gene_count = 3;
    let single_mutation = BitwiseMutation::new(mutation_gene_count);
    let mutation = VecMutation::new(b(mutation_probability), single_mutation);

    let pre_births = vec![CheckChromoInterval::new(intervals_b)];

    let selections = vec![
        AnySelection::KillFitnessNaN(KillFitnessNaN::new()),
        AnySelection::LimitPopulation(LimitPopulation::new(population_size)),
    ];

    let stop_checker = CompositeAny::new(vec![
        AnyStopChecker::Threshold(Threshold::new(b(1e-6))),
        AnyStopChecker::GoalNotChange(GoalNotChange::new(150, b(1e-7))),
        AnyStopChecker::MaxIterations(MaxIterations::new(3000)),
    ]);

    GeneticOptimizer::new(
        goal,
        stop_checker,
        creator,
        pairing,
        cross,
        mutation,
        selections,
        pre_births,
        loggers,
    )
}

fn solution_is_good(solution: &Solution<Chromosomes>, chromo_count: usize) -> bool {
    let goal_value = f64::from_bits(solution.1);
    if !(goal_value.abs() < 1e-3) {
        return false;
    }
    for i in 0..chromo_count {
        let x = f64::from_bits(solution.0[i]);
        if !((x - (i as f64 + 1.0)).abs() < 0.1) {
            return false;
        }
    }
    true
}

#[test]
fn genetic_paraboloid() {
    let chromo_count = 5;
    // The search is stochastic: a supermajority of seeds succeeds, so a
    // couple of retries make the outcome dependable.
    let mut succeeded = false;
    for _ in 0..3 {
        let loggers: Vec<NullLogger> = vec![];
        let mut optimizer = create_optimizer(chromo_count, loggers);
        match optimizer.find_min() {
            None => {},
            Some(solution) => {
                if solution_is_good(&solution, chromo_count) {
                    succeeded = true;
                    break;
                }
            },
        }
    }
    assert!(succeeded);
}

#[test]
fn genetic_paraboloid_single() {
    let run_count = 1;
    let chromo_count = 5;

    let stat_logger = StatisticsLogger::new(Statistics::new());
    let mut optimizer = create_optimizer(chromo_count, vec![stat_logger]);

    let result = optimizer.find_min().unwrap();

    let statistics = optimizer.into_loggers().remove(0).into_statistics();

    assert_eq!(statistics.get_run_count(), run_count);
    assert_eq!(statistics.get_results().len(), run_count);
    assert_eq!(statistics.get_convergence().len(), run_count);

    let stat_results = statistics.get_results();
    let (stat_solution, stat_goal) = stat_results[0].as_ref().unwrap();

    assert_eq!(result.0, *stat_solution);
    assert_eq!(result.1, *stat_goal);
}

#[test]
fn genetic_paraboloid_two() {
    let run_count = 2;
    let chromo_count = 5;

    let stat_logger = StatisticsLogger::new(Statistics::new());
    let mut optimizer = create_optimizer(chromo_count, vec![stat_logger]);

    let result_1 = optimizer.find_min().unwrap();
    let result_2 = optimizer.find_min().unwrap();

    let statistics = optimizer.into_loggers().remove(0).into_statistics();

    assert_eq!(statistics.get_run_count(), run_count);
    assert_eq!(statistics.get_results().len(), run_count);
    assert_eq!(statistics.get_convergence().len(), run_count);

    let stat_results = statistics.get_results();
    let (stat_solution_1, stat_goal_1) = stat_results[0].as_ref().unwrap();
    let (stat_solution_2, stat_goal_2) = stat_results[1].as_ref().unwrap();

    assert_eq!(result_1.0, *stat_solution_1);
    assert_eq!(result_1.1, *stat_goal_1);
    assert_eq!(result_2.0, *stat_solution_2);
    assert_eq!(result_2.1, *stat_goal_2);
}

#[test]
fn best_score_never_worsens_across_generations() {
    // The tracked best of the recorded convergence series is non-increasing:
    // the engine never loses its best individual under the NaN-kill and
    // population-cap selections.
    let chromo_count = 3;
    let stat_logger = StatisticsLogger::new(Statistics::new());
    let mut optimizer = create_optimizer(chromo_count, vec![stat_logger]);
    let _ = optimizer.find_min();
    let statistics = optimizer.into_loggers().remove(0).into_statistics();
    let series = &statistics.get_convergence()[0];
    let mut previous: Option<f64> = None;
    for entry in series {
        let goal_value = f64::from_bits(entry.as_ref().unwrap().1);
        if let Some(p) = previous {
            assert!(goal_value <= p, "best worsened from {p} to {goal_value}");
        }
        previous = Some(goal_value);
    }
    assert!(previous.is_some());
}
