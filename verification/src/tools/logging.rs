//! The logging interface: an observer told about run boundaries and about
//! every finished iteration. No engine state depends on a logger.

use vstd::prelude::*;
use crate::RunState;

verus! {

/// The logging trait for the optimization algorithms. Every method defaults
/// to doing nothing; a logger overrides the subset it cares about.
pub trait Logger<T> {
    /// Called after the algorithm is initialized.
    fn start(&mut self, _state: &RunState<T>) {
    }

    /// Called before the algorithm starts or resumes iterating.
    fn resume(&mut self, _state: &RunState<T>) {
    }

    /// Called at the end of every iteration.
    fn next_iteration(&mut self, _state: &RunState<T>) {
    }

    /// Called when the algorithm stops.
    fn finish(&mut self, _state: &RunState<T>) {
    }
}

/// A logger that ignores everything: for runs that need no observation.
pub struct NullLogger;

impl NullLogger {
    pub fn new() -> NullLogger {
        NullLogger
    }
}

impl<T> Logger<T> for NullLogger {

}

} // verus!
