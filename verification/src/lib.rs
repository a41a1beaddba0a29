//! A generational optimization framework: population lifecycle, pluggable
//! operator pipeline, stop-condition composition and cross-run statistics.
//!
//! Objective scores and vector genes are carried as IEEE-754 double-precision
//! bit patterns (`u64`), so that the whole engine is ordinary integer code:
//! comparisons, liveness bookkeeping and bit-level recombination are verified
//! exactly, while real-number arithmetic (objective evaluation, velocity
//! formulas, averaging) lives behind the operator traits that an embedding
//! implements.

use vstd::prelude::*;

pub mod bits;
pub mod exact;
pub mod genetic;
pub mod particleswarm;
pub mod rng;
pub mod tools;

verus! {

/// A single gene: the bit pattern of one 64-bit float coordinate.
pub type Gene = u64;

/// A point of the search space: a vector of genes.
pub type Chromosomes = Vec<Gene>;

/// A solution: a point of the search space and the goal value at that point,
/// as a 64-bit float bit pattern.
pub type Solution<T> = (T, u64);

/// The trait for the goal function. An embedding implements it by decoding
/// the bit patterns, evaluating its objective and encoding the result.
pub trait Goal<T> {
    /// Must return the goal value for the point `x` of the search space,
    /// as a 64-bit float bit pattern.
    fn get(&mut self, x: &T) -> u64;
}

/// A snapshot of the observable state of a running algorithm: the best
/// solution found so far and the iteration counter.
pub struct RunState<T> {
    pub best: Option<Solution<T>>,
    pub iteration: usize,
}

/// The trait for a struct with information about the current algorithm state,
/// such as the population of a genetic algorithm or the swarm of a particle
/// swarm algorithm.
pub trait AlgorithmState<T> {
    fn get_best_solution(&self) -> Option<Solution<T>>;

    fn get_iteration(&self) -> usize;
}

/// Common optimizer trait: run an algorithm to completion.
///
/// All optimizers search for a minimum of the goal function.
pub trait Optimizer<T> {
    /// Run the algorithm. Returns the best solution found, or `None` if the
    /// population is empty when the algorithm stops.
    fn find_min(&mut self) -> Option<Solution<T>>;
}

/// The trait for iterative algorithms whose state survives a finished run:
/// the method continues the current population under the current stop
/// condition without resetting anything.
pub trait IterativeOptimizer<T> {
    fn next_iterations(&mut self) -> Option<Solution<T>>;
}

} // verus!
