//! Stop conditions for the iterative optimizers, and their composition.

use vstd::prelude::*;
use crate::RunState;
use crate::bits::{bits_finite, ieee_le, is_finite_bits, le_ieee};
use crate::exact::{abs_diff_exceeds, abs_diff_exceeds_spec};

verus! {

/// The break criterion of an optimization algorithm.
pub trait StopChecker<T> {
    /// Must return true when the algorithm has to stop, given the observable
    /// state after the generation that just completed.
    fn can_stop(&mut self, state: &RunState<T>) -> bool;
}

/// The algorithm is stopped after the given iteration count is reached.
pub struct MaxIterations {
    pub max_iter: usize,
}

impl MaxIterations {
    /// How many iterations the algorithm may run.
    pub fn new(max_iter: usize) -> (r: MaxIterations)
        ensures
            r.max_iter == max_iter,
    {
        MaxIterations { max_iter }
    }
}

impl<T> StopChecker<T> for MaxIterations {
    fn can_stop(&mut self, state: &RunState<T>) -> (r: bool)
        ensures
            r == (state.iteration >= old(self).max_iter),
            *final(self) == *old(self),
    {
        state.iteration >= self.max_iter
    }
}

/// The algorithm is stopped once the best goal value reaches the threshold.
pub struct Threshold {
    pub threshold: u64,
}

impl Threshold {
    /// The goal value at which the search may end, as a float bit pattern.
    pub fn new(threshold: u64) -> (r: Threshold)
        ensures
            r.threshold == threshold,
    {
        Threshold { threshold }
    }
}

impl<T> StopChecker<T> for Threshold {
    fn can_stop(&mut self, state: &RunState<T>) -> (r: bool)
        ensures
            r == (state.best matches Some(s) && ieee_le(s.1, old(self).threshold)),
            *final(self) == *old(self),
    {
        match &state.best {
            None => false,
            Some(s) => le_ieee(s.1, self.threshold),
        }
    }
}

/// The algorithm is stopped once the best goal value has not moved by more
/// than `delta` for `max_iter` consecutive iterations. The distance between
/// the old and the new best is evaluated in exact arithmetic; a best value
/// that is not finite never resets the stagnation window.
pub struct GoalNotChange {
    /// How long the best value may stay within `delta` before stopping.
    pub max_iter: usize,
    /// The change of the best goal value below which it counts as unchanged.
    pub delta: u64,
    /// The best goal value at the last observed change.
    pub old_goal: u64,
    /// The iteration at which the best goal value last changed.
    pub change_iter: usize,
}

impl GoalNotChange {
    /// Watch for the best goal value staying within `delta` over `max_iter`
    /// iterations. The watermark starts at the largest finite value.
    pub fn new(max_iter: usize, delta: u64) -> (r: GoalNotChange)
        ensures
            r.max_iter == max_iter,
            r.delta == delta,
            r.old_goal == 0x7FEF_FFFF_FFFF_FFFFu64,
            r.change_iter == 0,
    {
        GoalNotChange { max_iter, delta, old_goal: 0x7FEF_FFFF_FFFF_FFFF, change_iter: 0 }
    }
}

impl<T> StopChecker<T> for GoalNotChange {
    fn can_stop(&mut self, state: &RunState<T>) -> (r: bool)
        ensures
            state.best is None ==> !r && *final(self) == *old(self),
            state.best matches Some(s) ==> {
                let changed = is_finite_bits(s.1) && is_finite_bits(old(self).old_goal)
                    && abs_diff_exceeds_spec(s.1, old(self).old_goal, old(self).delta);
                &&& final(self).max_iter == old(self).max_iter
                &&& final(self).delta == old(self).delta
                &&& final(self).old_goal == if changed {
                    s.1
                } else {
                    old(self).old_goal
                }
                &&& final(self).change_iter == if changed {
                    state.iteration
                } else {
                    old(self).change_iter
                }
                &&& r == (state.iteration >= final(self).change_iter
                    && state.iteration - final(self).change_iter > final(self).max_iter)
            },
    {
        match &state.best {
            None => false,
            Some(s) => {
                let best_goal = s.1;
                let changed = bits_finite(best_goal) && bits_finite(self.old_goal)
                    && abs_diff_exceeds(best_goal, self.old_goal, self.delta);
                if changed {
                    self.old_goal = best_goal;
                    self.change_iter = state.iteration;
                }
                // A resumed run may see an iteration counter behind the
                // recorded change: guard the subtraction instead of
                // underflowing.
                if state.iteration >= self.change_iter {
                    state.iteration - self.change_iter > self.max_iter
                } else {
                    false
                }
            },
        }
    }
}

/// Stop when ANY of the composed stop checkers says so; the checkers after
/// the first that answers yes are not asked.
pub struct CompositeAny<C> {
    pub stop_checkers: Vec<C>,
}

impl<C> CompositeAny<C> {
    /// Compose a non-empty list of stop checkers by disjunction.
    pub fn new(stop_checkers: Vec<C>) -> (r: CompositeAny<C>)
        requires
            stop_checkers@.len() > 0,
        ensures
            r.stop_checkers == stop_checkers,
    {
        CompositeAny { stop_checkers }
    }
}

impl<T, C: StopChecker<T>> StopChecker<T> for CompositeAny<C> {
    fn can_stop(&mut self, state: &RunState<T>) -> (r: bool)
        ensures
            final(self).stop_checkers@.len() == old(self).stop_checkers@.len(),
    {
        let n = self.stop_checkers.len();
        let mut found = false;
        let mut k: usize = 0;
        while k < n
            invariant
                k <= n,
                self.stop_checkers@.len() == n,
            decreases n - k,
        {
            let mut checker = self.stop_checkers.remove(0);
            if !found {
                found = checker.can_stop(state);
            }
            self.stop_checkers.push(checker);
            k = k + 1;
        }
        found
    }
}

/// Stop when ALL of the composed stop checkers say so; the checkers after
/// the first that answers no are not asked.
pub struct CompositeAll<C> {
    pub stop_checkers: Vec<C>,
}

impl<C> CompositeAll<C> {
    /// Compose a non-empty list of stop checkers by conjunction.
    pub fn new(stop_checkers: Vec<C>) -> (r: CompositeAll<C>)
        requires
            stop_checkers@.len() > 0,
        ensures
            r.stop_checkers == stop_checkers,
    {
        CompositeAll { stop_checkers }
    }
}

impl<T, C: StopChecker<T>> StopChecker<T> for CompositeAll<C> {
    fn can_stop(&mut self, state: &RunState<T>) -> (r: bool)
        ensures
            final(self).stop_checkers@.len() == old(self).stop_checkers@.len(),
    {
        let n = self.stop_checkers.len();
        let mut all = true;
        let mut k: usize = 0;
        while k < n
            invariant
                k <= n,
                self.stop_checkers@.len() == n,
            decreases n - k,
        {
            let mut checker = self.stop_checkers.remove(0);
            if all {
                all = checker.can_stop(state);
            }
            self.stop_checkers.push(checker);
            k = k + 1;
        }
        all
    }
}

/// One of the ready-made stop checkers, as a single type, so that checkers of
/// different kinds can be composed in one list.
pub enum AnyStopChecker {
    MaxIterations(MaxIterations),
    Threshold(Threshold),
    GoalNotChange(GoalNotChange),
}

impl<T> StopChecker<T> for AnyStopChecker {
    fn can_stop(&mut self, state: &RunState<T>) -> (r: bool) {
        match self {
            AnyStopChecker::MaxIterations(c) => StopChecker::<T>::can_stop(c, state),
            AnyStopChecker::Threshold(c) => StopChecker::<T>::can_stop(c, state),
            AnyStopChecker::GoalNotChange(c) => StopChecker::<T>::can_stop(c, state),
        }
    }
}

} // verus!
