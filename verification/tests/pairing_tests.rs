//! Pairing: index validity and tournament selection pressure.

use optlib::genetic::pairing::{RandomPairing, Tournament};
use optlib::genetic::{Pairing, Population};

fn b(x: f64) -> u64 {
    x.to_bits()
}

fn population_of(fitnesses: &[f64]) -> Population {
    let mut population = Population::new();
    for (i, &f) in fitnesses.iter().enumerate() {
        population.push(vec![b(i as f64)], b(f));
    }
    population
}

#[test]
fn random_pairing_shape() {
    let population = population_of(&[4.0, 2.0, 8.0, 6.0, 5.0, 1.0, 9.0]);
    let mut pairing = RandomPairing::new();
    let pairs = pairing.get_pairs(&population);
    assert_eq!(pairs.len(), 7 / 2);
    for pair in &pairs {
        assert_eq!(pair.len(), 2);
        for &i in pair {
            assert!(i < 7);
        }
    }
}

#[test]
fn tournament_shape() {
    let population = population_of(&[4.0, 2.0, 8.0, 6.0, 5.0]);
    let mut pairing = Tournament::new(6).partners_count(3).rounds_count(2);
    let pairs = pairing.get_pairs(&population);
    assert_eq!(pairs.len(), 6);
    for family in &pairs {
        assert_eq!(family.len(), 3);
        for &i in family {
            assert!(i < 5);
        }
    }
}

#[test]
fn tournament_pressure_grows_with_rounds() {
    // The probability that the tournament returns the single best individual
    // grows with the round count: measured over many families, the best
    // index must win far more often under six rounds than under one.
    let fitnesses: Vec<f64> = (0..10).map(|i| i as f64).collect();
    let population = population_of(&fitnesses);
    let draws = 2000;

    let mut few_rounds = Tournament::new(draws).partners_count(1).rounds_count(1);
    let mut many_rounds = Tournament::new(draws).partners_count(1).rounds_count(6);

    let count_best = |pairs: Vec<Vec<usize>>| -> usize {
        pairs.iter().flatten().filter(|&&i| i == 0).count()
    };

    let few = count_best(few_rounds.get_pairs(&population));
    let many = count_best(many_rounds.get_pairs(&population));

    // Expected hit counts are about 380 of 2000 and 1040 of 2000: a margin
    // of 250 leaves no realistic chance of a false alarm.
    assert!(
        many > few + 250,
        "expected a strong rise of selection pressure: one round {few}, six rounds {many}",
    );
}
