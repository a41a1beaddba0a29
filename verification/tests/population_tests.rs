//! The population lifecycle: insertion, best and worst tracking, selection
//! and removal of the dead.

use optlib::genetic::selection::{kill_worst, AnySelection, CheckChromoInterval, KillFitnessNaN, LimitPopulation};
use optlib::genetic::{Individual, Population, Selection};

fn b(x: f64) -> u64 {
    x.to_bits()
}

fn population_of(fitnesses: &[f64]) -> Population {
    let mut population = Population::new();
    for (i, &f) in fitnesses.iter().enumerate() {
        population.push(vec![b(i as f64)], b(f));
    }
    population
}

#[test]
fn push_tracks_best_and_worst() {
    let mut population = Population::new();
    assert!(population.get_best().is_none());
    assert!(population.get_worst().is_none());

    population.push(vec![b(1.0)], b(5.0));
    assert_eq!(population.get_best().as_ref().unwrap().get_fitness(), b(5.0));
    assert_eq!(population.get_worst().as_ref().unwrap().get_fitness(), b(5.0));

    population.push(vec![b(2.0)], b(3.0));
    assert_eq!(population.get_best().as_ref().unwrap().get_fitness(), b(3.0));
    assert_eq!(population.get_worst().as_ref().unwrap().get_fitness(), b(5.0));

    population.push(vec![b(3.0)], b(9.0));
    assert_eq!(population.get_best().as_ref().unwrap().get_fitness(), b(3.0));
    assert_eq!(population.get_worst().as_ref().unwrap().get_fitness(), b(9.0));
    assert_eq!(population.len(), 3);
    assert_eq!(population.len_alive(), 3);
}

#[test]
fn nan_never_becomes_best() {
    // One NaN-scored candidate among finite ones: the reported best is
    // finite, while the worst is the NaN.
    let mut population = population_of(&[4.0, 2.0, 8.0]);
    population.push(vec![b(9.0)], b(f64::NAN));
    population.remove_dead();
    let best = population.get_best().as_ref().unwrap().get_fitness();
    assert_eq!(best, b(2.0));
    assert!(f64::from_bits(best).is_finite());
    let worst = population.get_worst().as_ref().unwrap().get_fitness();
    assert!(f64::from_bits(worst).is_nan());
}

#[test]
fn remove_dead_drops_marked() {
    let mut population = population_of(&[4.0, 2.0, 8.0, 6.0]);
    population.set_dead(1);
    population.set_dead(3);
    assert_eq!(population.len_alive(), 2);
    population.remove_dead();
    assert_eq!(population.len(), 2);
    assert_eq!(population.get(0).get_fitness(), b(4.0));
    assert_eq!(population.get(1).get_fitness(), b(8.0));
    assert_eq!(population.get_best().as_ref().unwrap().get_fitness(), b(4.0));
    assert_eq!(population.get_worst().as_ref().unwrap().get_fitness(), b(8.0));
}

#[test]
fn remove_dead_empties_population() {
    let mut population = population_of(&[4.0]);
    population.set_dead(0);
    population.remove_dead();
    assert_eq!(population.len(), 0);
    assert!(population.get_best().is_none());
    assert!(population.get_worst().is_none());
}

#[test]
fn kill_worst_marks_the_worst() {
    let mut population = population_of(&[5.0, 1.0, 9.0, 7.0, 3.0]);
    kill_worst(&mut population, 2);
    assert_eq!(population.len_alive(), 3);
    assert!(population.get(0).is_alive());
    assert!(population.get(1).is_alive());
    assert!(!population.get(2).is_alive());
    assert!(!population.get(3).is_alive());
    assert!(population.get(4).is_alive());
}

#[test]
fn kill_fitness_nan_kills_non_finite() {
    let mut population = population_of(&[5.0, 1.0]);
    population.push(vec![b(7.0)], b(f64::NAN));
    population.push(vec![b(8.0)], b(f64::INFINITY));
    population.push(vec![b(9.0)], b(f64::NEG_INFINITY));
    let mut selection = KillFitnessNaN::new();
    selection.kill(&mut population);
    assert_eq!(population.len_alive(), 2);
    population.remove_dead();
    assert_eq!(population.len(), 2);
}

#[test]
fn limit_population_caps_alive_count() {
    // The population size bound: after the cap selection and the removal of
    // the dead, at most the configured number of individuals remain.
    let mut population = population_of(&[5.0, 1.0, 9.0, 7.0, 3.0, 2.0, 8.0]);
    let mut selection = LimitPopulation::new(4);
    selection.kill(&mut population);
    assert_eq!(population.len_alive(), 4);
    population.remove_dead();
    assert_eq!(population.len(), 4);
    // The best individual survived the cap.
    assert_eq!(population.get_best().as_ref().unwrap().get_fitness(), b(1.0));
    // A cap above the alive count removes nothing.
    let mut wide = LimitPopulation::new(100);
    wide.kill(&mut population);
    population.remove_dead();
    assert_eq!(population.len(), 4);
}

#[test]
fn limit_population_set_limit() {
    let mut selection = LimitPopulation::new(10);
    selection.set_limit(2);
    let mut population = population_of(&[5.0, 1.0, 9.0]);
    selection.kill(&mut population);
    population.remove_dead();
    assert_eq!(population.len(), 2);
}

#[test]
fn composed_selections_keep_finite_best() {
    let mut population = population_of(&[5.0, 1.0, 9.0, 7.0]);
    population.push(vec![b(9.0)], b(f64::NAN));
    let mut selections = vec![
        AnySelection::KillFitnessNaN(KillFitnessNaN::new()),
        AnySelection::LimitPopulation(LimitPopulation::new(3)),
    ];
    for s in selections.iter_mut() {
        s.kill(&mut population);
    }
    population.remove_dead();
    assert_eq!(population.len(), 3);
    assert_eq!(population.get_best().as_ref().unwrap().get_fitness(), b(1.0));
}

#[test]
fn individual_accessors() {
    let ind = Individual { chromosomes: vec![b(1.5)], fitness: b(4.0), alive: true };
    assert_eq!(ind.get_chromosomes(), &vec![b(1.5)]);
    assert_eq!(ind.get_fitness(), b(4.0));
    assert!(ind.is_alive());
    let mut dead = ind.duplicate();
    dead.kill();
    assert!(!dead.is_alive());
    assert!(ind.is_alive());
}

#[test]
fn reset_clears_everything() {
    let mut population = population_of(&[5.0, 1.0]);
    population.next_iteration();
    assert_eq!(population.get_iteration(), 1);
    population.reset();
    assert_eq!(population.len(), 0);
    assert_eq!(population.get_iteration(), 0);
    assert!(population.get_best().is_none());
}

#[test]
fn check_chromo_interval_kills_infeasible() {
    let mut population = Population::new();
    population.push(vec![b(0.5)], b(1.0));
    population.push(vec![b(2.0)], b(2.0));
    population.push(vec![b(f64::NAN)], b(3.0));
    population.push(vec![b(0.25), b(0.5)], b(4.0));
    let mut selection = CheckChromoInterval::new(vec![(b(0.0), b(1.0))]);
    selection.kill(&mut population);
    population.remove_dead();
    // Only the in-interval, right-sized, finite point survives.
    assert_eq!(population.len(), 1);
    assert_eq!(population.get(0).get_chromosomes(), &vec![b(0.5)]);
}
