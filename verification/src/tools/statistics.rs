//! Cross-run statistics of independent optimization trials: the final result
//! and the per-iteration best-so-far series of every run, and the call count
//! of the goal function. Merging is plain sequence concatenation, so worker
//! accumulators can be combined at the end of a batch.

use vstd::prelude::*;
use crate::{RunState, Solution};
use crate::tools::logging::Logger;
use crate::Goal;

verus! {

/// Stores the outcome of every algorithm run and the best-so-far solution of
/// every iteration of every run: `convergence[run][iteration]`.
pub struct Statistics<T> {
    /// The final solution of every run; the index is the run number.
    pub results: Vec<Option<Solution<T>>>,
    /// The best-so-far solution per run and iteration.
    pub convergence: Vec<Vec<Option<Solution<T>>>>,
}

impl<T> Statistics<T> {
    /// An empty record: no runs yet.
    pub fn new() -> (r: Statistics<T>)
        ensures
            r.results@.len() == 0,
            r.convergence@.len() == 0,
    {
        Statistics { results: Vec::new(), convergence: Vec::new() }
    }

    /// How many runs have reported a final result.
    pub fn get_run_count(&self) -> (r: usize)
        ensures
            r == self.results@.len(),
    {
        self.results.len()
    }

    /// The final solution of every run.
    pub fn get_results(&self) -> (r: &Vec<Option<Solution<T>>>)
        ensures
            r == &self.results,
    {
        &self.results
    }

    /// The best-so-far series of every run.
    pub fn get_convergence(&self) -> (r: &Vec<Vec<Option<Solution<T>>>>)
        ensures
            r == &self.convergence,
    {
        &self.convergence
    }

    /// Record the final solution of a finished run.
    pub fn add_result(&mut self, solution: Option<Solution<T>>)
        ensures
            final(self).results@ == old(self).results@.push(solution),
            final(self).convergence == old(self).convergence,
    {
        self.results.push(solution);
    }

    /// Open the series of a new run.
    pub fn start_run(&mut self)
        ensures
            final(self).results == old(self).results,
            final(self).convergence@.len() == old(self).convergence@.len() + 1,
            forall|i: int|
                0 <= i < old(self).convergence@.len() ==> #[trigger] final(self).convergence@[i]
                    == old(self).convergence@[i],
            final(self).convergence@.last()@.len() == 0,
    {
        let fresh: Vec<Option<Solution<T>>> = Vec::new();
        self.convergence.push(fresh);
    }

    /// Append the best-so-far solution of the iteration that just finished to
    /// the series of the current run. Without an open run this records
    /// nothing.
    pub fn add_convergence(&mut self, solution: Option<Solution<T>>)
        ensures
            final(self).results == old(self).results,
            final(self).convergence@.len() == old(self).convergence@.len(),
            forall|i: int|
                0 <= i < old(self).convergence@.len() - 1 ==> #[trigger] final(self).convergence@[i] == old(self).convergence@[i],
            old(self).convergence@.len() > 0 ==> final(self).convergence@.last()@ == old(self).convergence@.last()@.push(solution),
    {
        if self.convergence.len() == 0 {
            return ;
        }
        let mut last = self.convergence.pop().unwrap();
        last.push(solution);
        self.convergence.push(last);
        proof {
            assert(final(self).convergence@ =~= old(self).convergence@.update(
                old(self).convergence@.len() - 1,
                final(self).convergence@.last(),
            ));
        }
    }

    /// Merge another record into this one: the runs of `other` follow the
    /// runs already recorded, in their original order, for both the final
    /// results and the convergence series.
    pub fn unite(&mut self, other: Statistics<T>)
        ensures
            final(self).results@ == old(self).results@ + other.results@,
            final(self).convergence@ == old(self).convergence@ + other.convergence@,
    {
        let Statistics { mut results, mut convergence } = other;
        self.results.append(&mut results);
        self.convergence.append(&mut convergence);
    }
}

/// The number of goal-function calls of every run, one counter per run.
pub struct CallCountData(pub Vec<usize>);

impl CallCountData {
    /// No runs yet.
    pub fn new() -> (r: CallCountData)
        ensures
            r.0@.len() == 0,
    {
        CallCountData(Vec::new())
    }

    /// Open the counter of a new run, at zero.
    pub fn next_run(&mut self)
        ensures
            final(self).0@ == old(self).0@.push(0usize),
    {
        self.0.push(0);
    }

    /// Count one call in the current run, opening a run if none is open; the
    /// counter saturates instead of overflowing.
    pub fn increment(&mut self)
        ensures
            final(self).0@.len() == if old(self).0@.len() == 0 {
                1int
            } else {
                old(self).0@.len() as int
            },
            final(self).0@.last() == if old(self).0@.len() == 0 {
                1usize
            } else if old(self).0@.last() < usize::MAX {
                (old(self).0@.last() + 1) as usize
            } else {
                old(self).0@.last()
            },
            forall|i: int|
                0 <= i < old(self).0@.len() - 1 ==> #[trigger] final(self).0@[i] == old(self).0@[i],
    {
        self.add(1);
    }

    /// Count `n` calls in the current run, opening a run if none is open; the
    /// counter saturates instead of overflowing.
    pub fn add(&mut self, n: usize)
        ensures
            final(self).0@.len() == if old(self).0@.len() == 0 {
                1int
            } else {
                old(self).0@.len() as int
            },
            final(self).0@.last() == if old(self).0@.len() == 0 {
                n
            } else if old(self).0@.last() + n <= usize::MAX {
                (old(self).0@.last() + n) as usize
            } else {
                usize::MAX
            },
            forall|i: int|
                0 <= i < old(self).0@.len() - 1 ==> #[trigger] final(self).0@[i] == old(self).0@[i],
    {
        if self.0.len() == 0 {
            self.0.push(0);
        }
        let last = self.0.pop().unwrap();
        let bumped = if last <= usize::MAX - n {
            last + n
        } else {
            usize::MAX
        };
        self.0.push(bumped);
    }

    /// The call count of every run.
    pub fn get_call_count(&self) -> (r: Vec<usize>)
        ensures
            r@ == self.0@,
    {
        let r = self.0.clone();
        proof {
            assert forall|i: int| 0 <= i < r@.len() implies r@[i] == self.0@[i] by {
                assert(cloned::<usize>(self.0@[i], r@[i]));
            }
            assert(r@ =~= self.0@);
        }
        r
    }

    /// Concatenate the counters of another record after this one's.
    pub fn unite(&mut self, other: CallCountData)
        ensures
            final(self).0@ == old(self).0@ + other.0@,
    {
        let CallCountData(mut counters) = other;
        self.0.append(&mut counters);
    }
}

/// A logger that accumulates statistics: it opens a convergence series at the
/// start of every run, appends the best-so-far solution after every iteration
/// and records the final solution when the run finishes.
pub struct StatisticsLogger<T> {
    pub statistics: Statistics<T>,
}

impl<T> StatisticsLogger<T> {
    /// Wrap a statistics record to be filled by a run.
    pub fn new(statistics: Statistics<T>) -> (r: StatisticsLogger<T>)
        ensures
            r.statistics == statistics,
    {
        StatisticsLogger { statistics }
    }

    /// Give the accumulated statistics back.
    pub fn into_statistics(self) -> (r: Statistics<T>)
        ensures
            r == self.statistics,
    {
        self.statistics
    }
}

/// Clone the observable best solution of a state.
fn clone_best<T: Clone>(state: &RunState<T>) -> (r: Option<Solution<T>>)
    ensures
        r is Some <==> state.best is Some,
        state.best matches Some(s) ==> (r matches Some(c) && c.1 == s.1),
{
    match &state.best {
        None => None,
        Some(s) => Some((s.0.clone(), s.1)),
    }
}

impl<T: Clone> Logger<T> for StatisticsLogger<T> {
    fn start(&mut self, _state: &RunState<T>) {
        self.statistics.start_run();
    }

    fn next_iteration(&mut self, state: &RunState<T>) {
        let best = clone_best(state);
        self.statistics.add_convergence(best);
    }

    fn finish(&mut self, state: &RunState<T>) {
        let best = clone_best(state);
        self.statistics.add_result(best);
    }
}

/// A goal function wrapper that counts how often the goal is evaluated.
pub struct GoalCalcStatistics<G> {
    pub goal: G,
    pub call_count: CallCountData,
}

impl<G> GoalCalcStatistics<G> {
    /// Wrap a goal function with a fresh call counter.
    pub fn new(goal: G) -> (r: GoalCalcStatistics<G>)
        ensures
            r.goal == goal,
            r.call_count.0@.len() == 0,
    {
        GoalCalcStatistics { goal, call_count: CallCountData::new() }
    }

    /// The accumulated call counts.
    pub fn get_call_count_data(&self) -> (r: &CallCountData)
        ensures
            r == &self.call_count,
    {
        &self.call_count
    }
}

impl<T, G: Goal<T>> Goal<T> for GoalCalcStatistics<G> {
    fn get(&mut self, x: &T) -> (r: u64)
        ensures
            final(self).call_count.0@.len() == if old(self).call_count.0@.len() == 0 {
                1int
            } else {
                old(self).call_count.0@.len() as int
            },
            final(self).call_count.0@.last() == if old(self).call_count.0@.len() == 0 {
                1usize
            } else if old(self).call_count.0@.last() < usize::MAX {
                (old(self).call_count.0@.last() + 1) as usize
            } else {
                old(self).call_count.0@.last()
            },
    {
        self.call_count.increment();
        self.goal.get(x)
    }
}

/// Apply a binary function dimension by dimension to two vectors of equal
/// length, collecting the results.
pub fn vectorize<T, F: Fn(&T, &T) -> T>(v1: &Vec<T>, v2: &Vec<T>, func: F) -> (r: Vec<T>)
    requires
        v1@.len() == v2@.len(),
        forall|i: int| 0 <= i < v1@.len() ==> call_requires(func, (&v1@[i], &v2@[i])),
    ensures
        r@.len() == v1@.len(),
        forall|i: int|
            0 <= i < v1@.len() ==> call_ensures(func, (&v1@[i], &v2@[i]), #[trigger] r@[i]),
{
    let n = v1.len();
    let mut r: Vec<T> = Vec::new();
    let mut k: usize = 0;
    while k < n
        invariant
            k <= n,
            n == v1@.len() == v2@.len(),
            r@.len() == k,
            forall|i: int| 0 <= i < n ==> call_requires(func, (&v1@[i], &v2@[i])),
            forall|i: int|
                0 <= i < k ==> call_ensures(func, (&v1@[i], &v2@[i]), #[trigger] r@[i]),
        decreases n - k,
    {
        let x = func(&v1[k], &v2[k]);
        r.push(x);
        k = k + 1;
    }
    r
}

/// The statistics of a convergence table `series[run][iteration]`.
pub trait StatFunctionsConvergence<T> {
    /// The length of the shortest recorded series: the iteration count up to
    /// which every run contributes a value.
    fn get_min_iterations(&self) -> usize;

    /// The goal values, as float bit patterns, that the runs report at the
    /// given iteration, in run order; runs that are too short or report no
    /// solution at that iteration contribute nothing.
    fn goals_at_iteration(&self, iteration: usize) -> Vec<u64>;
}

/// The goal values reported at one iteration column of the table, in run
/// order, skipping runs without a solution there.
pub open spec fn goals_at_spec<T>(c: Seq<Vec<Option<Solution<T>>>>, it: int) -> Seq<u64>
    decreases c.len(),
{
    if c.len() == 0 {
        Seq::empty()
    } else {
        let head = goals_at_spec(c.drop_last(), it);
        if 0 <= it < c.last()@.len() && c.last()@[it] is Some {
            head.push(c.last()@[it]->Some_0.1)
        } else {
            head
        }
    }
}

impl<T> StatFunctionsConvergence<T> for Vec<Vec<Option<Solution<T>>>> {
    fn get_min_iterations(&self) -> (r: usize)
        ensures
            self@.len() == 0 ==> r == 0,
            self@.len() > 0 ==> (exists|i: int| 0 <= i < self@.len() && r == #[trigger] self@[i]@.len())
                && (forall|i: int| 0 <= i < self@.len() ==> r <= #[trigger] self@[i]@.len()),
    {
        if self.len() == 0 {
            return 0;
        }
        let mut min_len = self[0].len();
        let mut k: usize = 1;
        while k < self.len()
            invariant
                1 <= k <= self@.len(),
                exists|i: int| 0 <= i < k && min_len == #[trigger] self@[i]@.len(),
                forall|i: int| 0 <= i < k ==> min_len <= #[trigger] self@[i]@.len(),
            decreases self@.len() - k,
        {
            if self[k].len() < min_len {
                min_len = self[k].len();
            }
            k = k + 1;
        }
        min_len
    }

    fn goals_at_iteration(&self, iteration: usize) -> (r: Vec<u64>)
        ensures
            r@ == goals_at_spec(self@, iteration as int),
    {
        let n = self.len();
        let mut r: Vec<u64> = Vec::new();
        let mut k: usize = 0;
        while k < n
            invariant
                k <= n,
                n == self@.len(),
                r@ == goals_at_spec(self@.take(k as int), iteration as int),
            decreases n - k,
        {
            proof {
                assert(self@.take(k + 1int).drop_last() =~= self@.take(k as int));
                assert(self@.take(k + 1int).last() == self@[k as int]);
            }
            let run = &self[k];
            if iteration < run.len() {
                match &run[iteration] {
                    Some(s) => {
                        let g = s.1;
                        r.push(g);
                    },
                    None => {},
                }
            }
            k = k + 1;
        }
        proof {
            assert(self@.take(n as int) =~= self@);
        }
        r
    }
}

} // verus!
