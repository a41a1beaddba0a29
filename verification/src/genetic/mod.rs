//! The genetic algorithm: individuals, the population lifecycle, the operator
//! interfaces and the generational engine.
//!
//! Terms: "chromosomes" are points in the search space, "fitness" is the goal
//! value of a point, a "generation" is one iteration of the engine, and an
//! "individual" is a point together with its fitness and a liveness flag.

pub mod cross;
pub mod mutation;
pub mod pairing;
pub mod pre_birth;
pub mod selection;

use vstd::prelude::*;
use vstd::pervasive::VecAdditionalExecFns;
use crate::bits::{fit_le, fit_lt, fit_better, is_finite_bits};
use crate::{Chromosomes, Gene, Solution, RunState, AlgorithmState};

verus! {

/// One point (agent) of the search space: its chromosomes, the fitness
/// evaluated at insertion time, and whether it goes into the next generation.
pub struct Individual {
    /// The point in the search space.
    pub chromosomes: Chromosomes,
    /// The goal value for the point, fixed when the individual is created.
    pub fitness: u64,
    /// True while the individual passes to the next generation.
    pub alive: bool,
}

/// Clone a chromosome vector; the copy holds the very same genes.
pub fn clone_chromosomes(v: &Chromosomes) -> (r: Chromosomes)
    ensures
        r@ == v@,
{
    let r = v.clone();
    proof {
        assert forall|i: int| 0 <= i < r@.len() implies r@[i] == v@[i] by {
            assert(cloned::<Gene>(v@[i], r@[i]));
        }
        assert(r@ =~= v@);
    }
    r
}

impl Individual {
    /// The point in the search space.
    pub fn get_chromosomes(&self) -> (r: &Chromosomes)
        ensures
            r == &self.chromosomes,
    {
        &self.chromosomes
    }

    /// The goal value of the individual.
    pub fn get_fitness(&self) -> (r: u64)
        ensures
            r == self.fitness,
    {
        self.fitness
    }

    /// Whether the individual goes into the next generation.
    pub fn is_alive(&self) -> (r: bool)
        ensures
            r == self.alive,
    {
        self.alive
    }

    /// Mark the individual dead: it will not go into the next generation.
    pub fn kill(&mut self)
        ensures
            final(self).chromosomes == old(self).chromosomes,
            final(self).fitness == old(self).fitness,
            !final(self).alive,
    {
        self.alive = false;
    }

    /// A copy of the individual, gene for gene.
    pub fn duplicate(&self) -> (r: Individual)
        ensures
            r.chromosomes@ == self.chromosomes@,
            r.fitness == self.fitness,
            r.alive == self.alive,
    {
        Individual {
            chromosomes: clone_chromosomes(&self.chromosomes),
            fitness: self.fitness,
            alive: self.alive,
        }
    }
}

/// How many individuals of the sequence are alive.
pub open spec fn count_alive(s: Seq<Individual>) -> int
    decreases s.len(),
{
    if s.len() == 0 {
        0
    } else {
        count_alive(s.drop_last()) + if s.last().alive {
            1int
        } else {
            0int
        }
    }
}

/// The count of alive individuals never exceeds the length.
pub proof fn lemma_count_alive_le_len(s: Seq<Individual>)
    ensures
        0 <= count_alive(s) <= s.len(),
    decreases s.len(),
{
    if s.len() > 0 {
        lemma_count_alive_le_len(s.drop_last());
    }
}

/// Marking one alive individual dead lowers the alive count by one.
pub proof fn lemma_count_alive_update_dead(s: Seq<Individual>, i: int, d: Individual)
    requires
        0 <= i < s.len(),
        s[i].alive,
        !d.alive,
    ensures
        count_alive(s.update(i, d)) == count_alive(s) - 1,
    decreases s.len(),
{
    let t = s.update(i, d);
    if i == s.len() - 1 {
        assert(t.drop_last() =~= s.drop_last());
    } else {
        assert(t.drop_last() =~= s.drop_last().update(i, d));
        lemma_count_alive_update_dead(s.drop_last(), i, d);
    }
}

/// Whether `f` is at least as good as every fitness in the sequence, in the
/// minimization order.
pub open spec fn is_min_fit(f: u64, s: Seq<Individual>) -> bool {
    forall|j: int| 0 <= j < s.len() ==> fit_le(f, #[trigger] s[j].fitness)
}

/// Whether `f` is at least as bad as every fitness in the sequence.
pub open spec fn is_max_fit(f: u64, s: Seq<Individual>) -> bool {
    forall|j: int| 0 <= j < s.len() ==> fit_le(#[trigger] s[j].fitness, f)
}

/// Stores all individuals of the current generation, the tracked best and
/// worst individuals, and the generation counter.
pub struct Population {
    pub individuals: Vec<Individual>,
    /// The best individual of the current generation, if any.
    pub best_individual: Option<Individual>,
    /// The worst individual of the current generation, if any.
    pub worst_individual: Option<Individual>,
    /// The generation number.
    pub iteration: usize,
}

impl Population {
    /// The bookkeeping invariant: the tracked best and worst exist exactly
    /// when the population is non-empty, their fitnesses are extremal over
    /// the current individuals, and each equals the fitness of some member.
    pub open spec fn well_formed(self) -> bool {
        &&& (self.individuals@.len() == 0 ==> self.best_individual is None
            && self.worst_individual is None)
        &&& (self.individuals@.len() > 0 ==> {
            &&& self.best_individual matches Some(b) && is_min_fit(b.fitness, self.individuals@)
                && exists|w: int|
                0 <= w < self.individuals@.len() && b.fitness == #[trigger] self.individuals@[w].fitness
            &&& self.worst_individual matches Some(b) && is_max_fit(b.fitness, self.individuals@)
                && exists|w: int|
                0 <= w < self.individuals@.len() && b.fitness == #[trigger] self.individuals@[w].fitness
        })
    }

    /// Create an empty population at generation zero.
    pub fn new() -> (r: Population)
        ensures
            r.individuals@.len() == 0,
            r.best_individual is None,
            r.worst_individual is None,
            r.iteration == 0,
            r.well_formed(),
    {
        Population {
            individuals: Vec::new(),
            best_individual: None,
            worst_individual: None,
            iteration: 0,
        }
    }

    /// Remove all individuals and go back to generation zero.
    pub fn reset(&mut self)
        ensures
            final(self).individuals@.len() == 0,
            final(self).best_individual is None,
            final(self).worst_individual is None,
            final(self).iteration == 0,
            final(self).well_formed(),
    {
        self.individuals = Vec::new();
        self.best_individual = None;
        self.worst_individual = None;
        self.iteration = 0;
    }

    /// The number of individuals in the population.
    pub fn len(&self) -> (r: usize)
        ensures
            r == self.individuals@.len(),
    {
        self.individuals.len()
    }

    /// The number of individuals still alive.
    pub fn len_alive(&self) -> (r: usize)
        ensures
            r == count_alive(self.individuals@),
    {
        let mut count: usize = 0;
        let mut k: usize = 0;
        let n = self.individuals.len();
        proof {
            lemma_count_alive_le_len(self.individuals@);
        }
        while k < n
            invariant
                k <= n,
                n == self.individuals@.len(),
                count == count_alive(self.individuals@.take(k as int)),
                count <= k,
            decreases n - k,
        {
            proof {
                assert(self.individuals@.take(k + 1int).drop_last() =~= self.individuals@.take(
                    k as int,
                ));
                assert(self.individuals@.take(k + 1int).last() == self.individuals@[k as int]);
            }
            if self.individuals[k].is_alive() {
                count = count + 1;
            }
            k = k + 1;
        }
        proof {
            assert(self.individuals@.take(n as int) =~= self.individuals@);
        }
        count
    }

    /// The individual at the given index.
    pub fn get(&self, i: usize) -> (r: &Individual)
        requires
            i < self.individuals@.len(),
        ensures
            r == &self.individuals@[i as int],
    {
        &self.individuals[i]
    }

    /// The generation (iteration) number.
    pub fn get_iteration(&self) -> (r: usize)
        ensures
            r == self.iteration,
    {
        self.iteration
    }

    /// The best individual of the population, or `None` when it is empty.
    pub fn get_best(&self) -> (r: &Option<Individual>)
        ensures
            r == &self.best_individual,
    {
        &self.best_individual
    }

    /// The worst individual of the population, or `None` when it is empty.
    pub fn get_worst(&self) -> (r: &Option<Individual>)
        ensures
            r == &self.worst_individual,
    {
        &self.worst_individual
    }

    /// Mark the individual at the given index dead, in place.
    pub fn set_dead(&mut self, i: usize)
        requires
            i < old(self).individuals@.len(),
        ensures
            final(self).individuals@ == old(self).individuals@.update(
                i as int,
                (Individual {
                    chromosomes: old(self).individuals@[i as int].chromosomes,
                    fitness: old(self).individuals@[i as int].fitness,
                    alive: false,
                }),
            ),
            final(self).best_individual == old(self).best_individual,
            final(self).worst_individual == old(self).worst_individual,
            final(self).iteration == old(self).iteration,
    {
        let mut tmp = Individual { chromosomes: Vec::new(), fitness: 0, alive: false };
        self.individuals.set_and_swap(i, &mut tmp);
        tmp.alive = false;
        self.individuals.set_and_swap(i, &mut tmp);
        proof {
            assert(final(self).individuals@ =~= old(self).individuals@.update(
                i as int,
                (Individual {
                    chromosomes: old(self).individuals@[i as int].chromosomes,
                    fitness: old(self).individuals@[i as int].fitness,
                    alive: false,
                }),
            ));
        }
    }

    /// Append an already-evaluated individual, alive, and update the tracked
    /// best and worst against the incumbents, without a full rescan.
    pub fn push(&mut self, chromosomes: Chromosomes, fitness: u64)
        ensures
            final(self).individuals@ == old(self).individuals@.push(
                (Individual { chromosomes: chromosomes, fitness: fitness, alive: true }),
            ),
            final(self).iteration == old(self).iteration,
            old(self).best_individual is None || (old(self).best_individual matches Some(b0)
                && fit_lt(fitness, b0.fitness)) ==> (final(self).best_individual matches Some(b)
                && b.fitness == fitness && b.alive && b.chromosomes@ == chromosomes@),
            (old(self).best_individual matches Some(b0) && !fit_lt(fitness, b0.fitness)) ==> final(self).best_individual == old(self).best_individual,
            old(self).worst_individual is None || (old(self).worst_individual matches Some(w0)
                && fit_lt(w0.fitness, fitness)) ==> (final(self).worst_individual matches Some(w)
                && w.fitness == fitness && w.alive && w.chromosomes@ == chromosomes@),
            (old(self).worst_individual matches Some(w0) && !fit_lt(w0.fitness, fitness)) ==> final(self).worst_individual == old(self).worst_individual,
            old(self).well_formed() ==> final(self).well_formed(),
    {
        proof {
            crate::bits::lemma_fit_total(fitness, fitness);
        }
        let replace_best = match &self.best_individual {
            None => true,
            Some(b) => fit_better(fitness, b.fitness),
        };
        let replace_worst = match &self.worst_individual {
            None => true,
            Some(w) => fit_better(w.fitness, fitness),
        };
        if replace_best {
            self.best_individual = Some(
                Individual {
                    chromosomes: clone_chromosomes(&chromosomes),
                    fitness,
                    alive: true,
                },
            );
        }
        if replace_worst {
            self.worst_individual = Some(
                Individual {
                    chromosomes: clone_chromosomes(&chromosomes),
                    fitness,
                    alive: true,
                },
            );
        }
        let ind = Individual { chromosomes, fitness, alive: true };
        self.individuals.push(ind);
        proof {
            let s = self.individuals@;
            let s0 = old(self).individuals@;
            let last = s.len() - 1;
            if old(self).well_formed() {
                let nb = final(self).best_individual->Some_0;
                assert forall|j: int| 0 <= j < s.len() implies fit_le(
                    nb.fitness,
                    #[trigger] s[j].fitness,
                ) by {
                    crate::bits::lemma_fit_total(nb.fitness, s[j].fitness);
                    if j < s0.len() {
                        if replace_best {
                            let ob = old(self).best_individual;
                            if ob is Some {
                                crate::bits::lemma_fit_le_trans(
                                    fitness,
                                    ob->Some_0.fitness,
                                    s0[j].fitness,
                                );
                            }
                        }
                    } else {
                        // The new element itself.
                        if !replace_best {
                            crate::bits::lemma_fit_total(nb.fitness, fitness);
                        }
                    }
                }
                // A witness that the tracked best fitness occurs in the list.
                if replace_best {
                    assert(nb.fitness == s[last].fitness);
                } else {
                    let w0 = choose|w: int|
                        0 <= w < s0.len() && nb.fitness == #[trigger] s0[w].fitness;
                    assert(nb.fitness == s[w0].fitness);
                }
                let nw = final(self).worst_individual->Some_0;
                assert forall|j: int| 0 <= j < s.len() implies fit_le(
                    #[trigger] s[j].fitness,
                    nw.fitness,
                ) by {
                    crate::bits::lemma_fit_total(s[j].fitness, nw.fitness);
                    if j < s0.len() {
                        if replace_worst {
                            let ow = old(self).worst_individual;
                            if ow is Some {
                                crate::bits::lemma_fit_le_trans(
                                    s0[j].fitness,
                                    ow->Some_0.fitness,
                                    fitness,
                                );
                            }
                        }
                    } else {
                        if !replace_worst {
                            crate::bits::lemma_fit_total(nw.fitness, fitness);
                        }
                    }
                }
                if replace_worst {
                    assert(nw.fitness == s[last].fitness);
                } else {
                    let w0 = choose|w: int|
                        0 <= w < s0.len() && nw.fitness == #[trigger] s0[w].fitness;
                    assert(nw.fitness == s[w0].fitness);
                }
            }
        }
    }


    /// Rescan the whole population and retrack the best and worst
    /// individuals; on an empty population both become `None`.
    pub fn update_best_worst_individuals(&mut self)
        ensures
            final(self).individuals == old(self).individuals,
            final(self).iteration == old(self).iteration,
            final(self).well_formed(),
    {
        let n = self.individuals.len();
        if n == 0 {
            self.best_individual = None;
            self.worst_individual = None;
            return ;
        }
        let mut bi: usize = 0;
        let mut wi: usize = 0;
        let mut k: usize = 1;
        proof {
            crate::bits::lemma_fit_total(
                self.individuals@[0].fitness,
                self.individuals@[0].fitness,
            );
        }
        while k < n
            invariant
                n == self.individuals@.len(),
                0 < n,
                k <= n,
                bi < k,
                wi < k,
                forall|j: int|
                    0 <= j < k ==> fit_le(
                        self.individuals@[bi as int].fitness,
                        #[trigger] self.individuals@[j].fitness,
                    ),
                forall|j: int|
                    0 <= j < k ==> fit_le(
                        #[trigger] self.individuals@[j].fitness,
                        self.individuals@[wi as int].fitness,
                    ),
            decreases n - k,
        {
            let fk = self.individuals[k].get_fitness();
            let fb = self.individuals[bi].get_fitness();
            let fw = self.individuals[wi].get_fitness();
            if fit_better(fk, fb) {
                proof {
                    assert forall|j: int| 0 <= j < k + 1 implies fit_le(
                        fk,
                        #[trigger] self.individuals@[j].fitness,
                    ) by {
                        crate::bits::lemma_fit_total(fk, fk);
                        if j < k {
                            crate::bits::lemma_fit_le_trans(
                                fk,
                                fb,
                                self.individuals@[j].fitness,
                            );
                        }
                    }
                }
                bi = k;
            } else {
                proof {
                    crate::bits::lemma_fit_total(fk, fb);
                }
            }
            if fit_better(fw, fk) {
                proof {
                    assert forall|j: int| 0 <= j < k + 1 implies fit_le(
                        #[trigger] self.individuals@[j].fitness,
                        fk,
                    ) by {
                        crate::bits::lemma_fit_total(fk, fk);
                        if j < k {
                            crate::bits::lemma_fit_le_trans(
                                self.individuals@[j].fitness,
                                fw,
                                fk,
                            );
                        }
                    }
                }
                wi = k;
            } else {
                proof {
                    crate::bits::lemma_fit_total(fk, fw);
                }
            }
            k = k + 1;
        }
        self.best_individual = Some(self.individuals[bi].duplicate());
        self.worst_individual = Some(self.individuals[wi].duplicate());
    }

    /// Drop every dead individual, keeping the order of the survivors, then
    /// retrack the best and worst by a full scan. When at least one survivor
    /// has a finite fitness, the tracked best is finite: a non-finite score
    /// never becomes the reported best.
    pub fn remove_dead(&mut self)
        ensures
            final(self).individuals@ == old(self).individuals@.filter(|i: Individual| i.alive),
            final(self).iteration == old(self).iteration,
            final(self).well_formed(),
            (exists|j: int|
                0 <= j < old(self).individuals@.len() && old(self).individuals@[j].alive
                    && is_finite_bits(#[trigger] old(self).individuals@[j].fitness))
                ==> (final(self).best_individual matches Some(b) && is_finite_bits(b.fitness)),
    {
        let ghost orig = self.individuals@;
        let ghost pred = |i: Individual| i.alive;
        let n = self.individuals.len();
        // Unload the individuals onto a stack, reversing them.
        let mut stack: Vec<Individual> = Vec::new();
        while self.individuals.len() > 0
            invariant
                stack@.len() + self.individuals@.len() == n == orig.len(),
                self.iteration == old(self).iteration,
                self.individuals@ == orig.take(self.individuals@.len() as int),
                forall|j: int|
                    0 <= j < stack@.len() ==> #[trigger] stack@[j] == orig[n - 1 - j],
            decreases self.individuals@.len(),
        {
            let ind = self.individuals.pop().unwrap();
            stack.push(ind);
            proof {
                assert(self.individuals@ =~= orig.take(self.individuals@.len() as int));
            }
        }
        // Reload the survivors in the original order.
        let mut survivors: Vec<Individual> = Vec::new();
        proof {
            assert(orig.take(0int).filter(pred) =~= Seq::<Individual>::empty());
        }
        while stack.len() > 0
            invariant
                stack@.len() <= n == orig.len(),
                self.iteration == old(self).iteration,
                forall|j: int|
                    0 <= j < stack@.len() ==> #[trigger] stack@[j] == orig[n - 1 - j],
                (pred == (|i: Individual| i.alive)),
                survivors@ == orig.take(n - stack@.len()).filter(pred),
            decreases stack@.len(),
        {
            let ghost i = n - stack@.len();
            let ind = stack.pop().unwrap();
            proof {
                assert(ind == orig[i]);
                assert(orig.take(i + 1).drop_last() =~= orig.take(i));
                assert(orig.take(i + 1).last() == orig[i]);
            }
            if ind.is_alive() {
                survivors.push(ind);
            }
            proof {
                assert(orig.take(i + 1) =~= orig.take(i) + seq![orig[i]]);
                Seq::<Individual>::filter_distributes_over_add(orig.take(i), seq![orig[i]], pred);
                reveal_with_fuel(Seq::<_>::filter, 3);
                let single = seq![orig[i]];
                assert(single.drop_last() =~= Seq::<Individual>::empty());
                if pred(orig[i]) {
                    assert(single.filter(pred) =~= seq![orig[i]]);
                    assert(survivors@ =~= orig.take(i).filter(pred) + single.filter(pred));
                } else {
                    assert(single.filter(pred) =~= Seq::<Individual>::empty());
                    assert(survivors@ =~= orig.take(i).filter(pred) + single.filter(pred));
                }
                assert(survivors@ == orig.take(i + 1).filter(pred));
            }
        }
        proof {
            assert(orig.take(n as int) =~= orig);
        }
        self.individuals = survivors;
        self.update_best_worst_individuals();
        proof {
            if exists|j: int|
                0 <= j < orig.len() && orig[j].alive && is_finite_bits(#[trigger] orig[j].fitness) {
                let j = choose|j: int|
                    0 <= j < orig.len() && orig[j].alive && is_finite_bits(
                        #[trigger] orig[j].fitness,
                    );
                orig.lemma_filter_contains(pred, j);
                let s = final(self).individuals@;
                let w = choose|w: int| 0 <= w < s.len() && s[w] == orig[j];
                assert(fit_le(
                    final(self).best_individual->Some_0.fitness,
                    s[w].fitness,
                ));
            }
        }
    }

    /// Step to the next generation. The counter saturates at the largest
    /// representable value instead of overflowing.
    pub fn next_iteration(&mut self)
        ensures
            final(self).individuals == old(self).individuals,
            final(self).best_individual == old(self).best_individual,
            final(self).worst_individual == old(self).worst_individual,
            final(self).iteration == if old(self).iteration < usize::MAX {
                (old(self).iteration + 1) as usize
            } else {
                old(self).iteration
            },
            old(self).well_formed() ==> final(self).well_formed(),
    {
        if self.iteration < usize::MAX {
            self.iteration = self.iteration + 1;
        }
    }
}


/// Between the two population states only liveness flags were cleared: same
/// length, same chromosomes and fitnesses, and nothing dead came back alive.
pub open spec fn liveness_only(s1: Seq<Individual>, s2: Seq<Individual>) -> bool {
    &&& s2.len() == s1.len()
    &&& forall|i: int|
        0 <= i < s1.len() ==> (#[trigger] s2[i]).chromosomes == s1[i].chromosomes && s2[i].fitness
            == s1[i].fitness && (s2[i].alive ==> s1[i].alive)
}

/// Whether `f` is at least as good as the fitness of every alive individual.
pub open spec fn le_all_alive(f: u64, s: Seq<Individual>) -> bool {
    forall|j: int| 0 <= j < s.len() && (#[trigger] s[j]).alive ==> fit_le(f, s[j].fitness)
}

/// Whether some alive individual has a finite fitness.
pub open spec fn has_finite_alive(s: Seq<Individual>) -> bool {
    exists|i: int| 0 <= i < s.len() && (#[trigger] s[i]).alive && is_finite_bits(s[i].fitness)
}

/// A selection step from `s1` to `s2` kept a survivor at least as good as
/// every individual that was alive before, provided any alive individual had
/// a finite fitness at all.
pub open spec fn min_alive_preserved(s1: Seq<Individual>, s2: Seq<Individual>) -> bool {
    has_finite_alive(s1) ==> exists|i: int|
        0 <= i < s2.len() && (#[trigger] s2[i]).alive && le_all_alive(s2[i].fitness, s1)
}

/// Liveness-only changes compose.
pub proof fn lemma_liveness_only_trans(s0: Seq<Individual>, s1: Seq<Individual>, s2: Seq<Individual>)
    requires
        liveness_only(s0, s1),
        liveness_only(s1, s2),
    ensures
        liveness_only(s0, s2),
{
}

/// Preservation of a best-or-better alive individual composes.
pub proof fn lemma_min_preserved_trans(s0: Seq<Individual>, s1: Seq<Individual>, s2: Seq<Individual>)
    requires
        min_alive_preserved(s0, s1),
        min_alive_preserved(s1, s2),
    ensures
        min_alive_preserved(s0, s2),
{
    if has_finite_alive(s0) {
        let i1 = choose|i: int|
            0 <= i < s1.len() && (#[trigger] s1[i]).alive && le_all_alive(s1[i].fitness, s0);
        let f0 = choose|i: int|
            0 <= i < s0.len() && (#[trigger] s0[i]).alive && is_finite_bits(s0[i].fitness);
        assert(fit_le(s1[i1].fitness, s0[f0].fitness));
        assert(is_finite_bits(s1[i1].fitness));
        assert(has_finite_alive(s1));
        let i2 = choose|i: int|
            0 <= i < s2.len() && (#[trigger] s2[i]).alive && le_all_alive(s2[i].fitness, s1);
        assert forall|j: int| 0 <= j < s0.len() && (#[trigger] s0[j]).alive implies fit_le(
            s2[i2].fitness,
            s0[j].fitness,
        ) by {
            crate::bits::lemma_fit_le_trans(s2[i2].fitness, s1[i1].fitness, s0[j].fitness);
        }
        assert(le_all_alive(s2[i2].fitness, s0));
    }
}

/// Among the alive individuals of a non-empty alive set there is a best one.
pub proof fn lemma_exists_min_alive(s: Seq<Individual>)
    requires
        exists|i: int| 0 <= i < s.len() && (#[trigger] s[i]).alive,
    ensures
        exists|i: int| 0 <= i < s.len() && (#[trigger] s[i]).alive && le_all_alive(s[i].fitness, s),
    decreases s.len(),
{
    let sp = s.drop_last();
    let last = s.len() - 1;
    if exists|i: int| 0 <= i < sp.len() && (#[trigger] sp[i]).alive {
        lemma_exists_min_alive(sp);
        let m = choose|i: int|
            0 <= i < sp.len() && (#[trigger] sp[i]).alive && le_all_alive(sp[i].fitness, sp);
        if s[last].alive && fit_lt(s[last].fitness, s[m].fitness) {
            assert forall|j: int| 0 <= j < s.len() && (#[trigger] s[j]).alive implies fit_le(
                s[last].fitness,
                s[j].fitness,
            ) by {
                if j < last {
                    assert(sp[j] == s[j]);
                    crate::bits::lemma_fit_le_trans(s[last].fitness, s[m].fitness, s[j].fitness);
                } else {
                    crate::bits::lemma_fit_total(s[last].fitness, s[last].fitness);
                }
            }
            assert(le_all_alive(s[last].fitness, s));
        } else {
            assert forall|j: int| 0 <= j < s.len() && (#[trigger] s[j]).alive implies fit_le(
                s[m].fitness,
                s[j].fitness,
            ) by {
                if j < last {
                    assert(sp[j] == s[j]);
                } else {
                    crate::bits::lemma_fit_total(s[last].fitness, s[m].fitness);
                }
            }
            assert(s[m].alive && le_all_alive(s[m].fitness, s));
        }
    } else {
        // The witness can only be the last element.
        let a = choose|i: int| 0 <= i < s.len() && (#[trigger] s[i]).alive;
        if a < last {
            assert(sp[a] == s[a]);
        }
        assert(a == last);
        assert forall|j: int| 0 <= j < s.len() && (#[trigger] s[j]).alive implies fit_le(
            s[last].fitness,
            s[j].fitness,
        ) by {
            if j < last {
                assert(sp[j] == s[j]);
                assert(false);
            } else {
                crate::bits::lemma_fit_total(s[last].fitness, s[last].fitness);
            }
        }
        assert(s[last].alive && le_all_alive(s[last].fitness, s));
    }
}

/// Doing nothing preserves the best alive individual.
pub proof fn lemma_min_preserved_refl(s: Seq<Individual>)
    ensures
        min_alive_preserved(s, s),
{
    if has_finite_alive(s) {
        lemma_exists_min_alive(s);
    }
}

/// The trait that creates the chromosomes of the initial individuals.
pub trait Creator<T> {
    /// Must return the chromosomes of the new individuals of a population.
    fn create(&mut self) -> Vec<T>;
}

/// The trait with a recombination algorithm.
pub trait Cross<T> {
    /// Takes the chromosomes of the parents and returns the chromosomes of
    /// one or more children. The children enter the population after
    /// mutation.
    fn cross(&mut self, parents: &Vec<T>) -> Vec<T>;
}

/// The trait with a mutation algorithm.
pub trait Mutation<T> {
    /// Takes the chromosomes of one child and returns the possibly modified
    /// chromosomes that the child will be born with.
    fn mutation(&mut self, chromosomes: &T) -> T;
}

/// The trait that may adjust the list of new chromosomes after mutation and
/// before the children are born, for example to discard infeasible points.
pub trait PreBirth {
    fn pre_birth(&mut self, population: &Population, new_chromosomes: &mut Vec<Chromosomes>);
}

/// The trait with a selection algorithm: mark individuals dead, never remove
/// them, so that several selections can compose. A selection that promises
/// `preserves_min` also keeps some alive individual that is at least as good
/// as everything that was alive before, whenever survivors remain owed.
pub trait Selection {
    /// Whether this selection, as configured, never loses the best alive
    /// individual while any alive individual has a finite fitness.
    spec fn preserves_min(&self) -> bool;

    fn kill(&mut self, population: &mut Population)
        ensures
            liveness_only(old(population).individuals@, final(population).individuals@),
            final(population).best_individual == old(population).best_individual,
            final(population).worst_individual == old(population).worst_individual,
            final(population).iteration == old(population).iteration,
            final(self).preserves_min() == old(self).preserves_min(),
            old(self).preserves_min() ==> min_alive_preserved(
                old(population).individuals@,
                final(population).individuals@,
            ),
    ;
}

/// The trait that picks the parents for recombination: a list of groups of
/// indices into the population, each group crossed together.
pub trait Pairing {
    fn get_pairs(&mut self, population: &Population) -> (pairs: Vec<Vec<usize>>)
        requires
            population.individuals@.len() > 0,
        ensures
            forall|p: int, q: int|
                0 <= p < pairs@.len() && 0 <= q < pairs@[p]@.len() ==> #[trigger] pairs@[p]@[q]
                    < population.individuals@.len(),
    ;
}

impl Population {
    /// Whether every individual of the population is alive: the state in
    /// which a generation starts.
    pub open spec fn all_alive(self) -> bool {
        forall|i: int| 0 <= i < self.individuals@.len() ==> (#[trigger] self.individuals@[i]).alive
    }

    /// The observable state of the population: the best solution and the
    /// generation counter.
    pub fn run_state(&self) -> (r: RunState<Chromosomes>)
        ensures
            r.iteration == self.iteration,
            r.best is Some <==> self.best_individual is Some,
            self.best_individual matches Some(b) ==> (r.best matches Some(s) && s.1 == b.fitness
                && s.0@ == b.chromosomes@),
    {
        let best = match &self.best_individual {
            None => None,
            Some(b) => Some((clone_chromosomes(&b.chromosomes), b.fitness)),
        };
        RunState { best, iteration: self.iteration }
    }
}

impl AlgorithmState<Chromosomes> for Population {
    fn get_best_solution(&self) -> (r: Option<Solution<Chromosomes>>)
        ensures
            r is Some <==> self.best_individual is Some,
            self.best_individual matches Some(b) ==> (r matches Some(s) && s.1 == b.fitness && s.0@
                == b.chromosomes@),
    {
        match &self.best_individual {
            None => None,
            Some(b) => Some((clone_chromosomes(&b.chromosomes), b.fitness)),
        }
    }

    fn get_iteration(&self) -> (r: usize)
        ensures
            r == self.iteration,
    {
        self.iteration
    }
}


/// The main entry point of the genetic algorithm. The engine owns the goal
/// function and the operator pipeline as pluggable parts, and drives the
/// population through generations until the stop checker fires: pairing,
/// recombination, mutation, pre-birth filtering, insertion, the selections in
/// order, removal of the dead, and the bookkeeping of the generation counter.
pub struct GeneticOptimizer<G, K, C, P, X, M, S, B, L> {
    pub goal: G,
    pub stop_checker: K,
    pub creator: C,
    pub pairing: P,
    pub cross: X,
    pub mutation: M,
    pub selections: Vec<S>,
    pub pre_births: Vec<B>,
    pub loggers: Vec<L>,
    pub population: Population,
}

impl<
    G: crate::Goal<Chromosomes>,
    K: crate::tools::stopchecker::StopChecker<Chromosomes>,
    C: Creator<Chromosomes>,
    P: Pairing,
    X: Cross<Chromosomes>,
    M: Mutation<Chromosomes>,
    S: Selection,
    B: PreBirth,
    L: crate::tools::logging::Logger<Chromosomes>,
> GeneticOptimizer<G, K, C, P, X, M, S, B, L> {
    /// Assemble an engine around an empty population at generation zero.
    pub fn new(
        goal: G,
        stop_checker: K,
        creator: C,
        pairing: P,
        cross: X,
        mutation: M,
        selections: Vec<S>,
        pre_births: Vec<B>,
        loggers: Vec<L>,
    ) -> (r: GeneticOptimizer<G, K, C, P, X, M, S, B, L>)
        ensures
            r.population.individuals@.len() == 0,
            r.population.iteration == 0,
            r.population.well_formed(),
            r.selections == selections,
    {
        GeneticOptimizer {
            goal,
            stop_checker,
            creator,
            pairing,
            cross,
            mutation,
            selections,
            pre_births,
            loggers,
            population: Population::new(),
        }
    }

    /// Replace the loggers.
    pub fn set_loggers(&mut self, loggers: Vec<L>)
        ensures
            *final(self) == (GeneticOptimizer { loggers, ..*old(self) }),
    {
        self.loggers = loggers;
    }

    /// Give the loggers back, consuming the engine: how an embedding collects
    /// what an observing logger accumulated over the run.
    pub fn into_loggers(self) -> (r: Vec<L>)
        ensures
            r == self.loggers,
    {
        self.loggers
    }

    /// Replace the pairing algorithm.
    pub fn set_pairing(&mut self, pairing: P)
        ensures
            *final(self) == (GeneticOptimizer { pairing, ..*old(self) }),
    {
        self.pairing = pairing;
    }

    /// Replace the recombination algorithm.
    pub fn set_cross(&mut self, cross: X)
        ensures
            *final(self) == (GeneticOptimizer { cross, ..*old(self) }),
    {
        self.cross = cross;
    }

    /// Replace the mutation algorithm.
    pub fn set_mutation(&mut self, mutation: M)
        ensures
            *final(self) == (GeneticOptimizer { mutation, ..*old(self) }),
    {
        self.mutation = mutation;
    }

    /// Replace the selection algorithms.
    pub fn set_selection(&mut self, selections: Vec<S>)
        ensures
            *final(self) == (GeneticOptimizer { selections, ..*old(self) }),
    {
        self.selections = selections;
    }

    /// Replace the pre-birth filters.
    pub fn set_pre_birth(&mut self, pre_births: Vec<B>)
        ensures
            *final(self) == (GeneticOptimizer { pre_births, ..*old(self) }),
    {
        self.pre_births = pre_births;
    }

    /// Replace the stop checker: how a finished run is driven further under a
    /// new stop condition.
    pub fn set_stop_checker(&mut self, stop_checker: K)
        ensures
            *final(self) == (GeneticOptimizer { stop_checker, ..*old(self) }),
    {
        self.stop_checker = stop_checker;
    }

    /// Tell every logger that a run starts.
    fn log_start(&mut self)
        ensures
            final(self).population == old(self).population,
            final(self).selections == old(self).selections,
            final(self).goal == old(self).goal,
            final(self).stop_checker == old(self).stop_checker,
            final(self).creator == old(self).creator,
            final(self).pairing == old(self).pairing,
            final(self).cross == old(self).cross,
            final(self).mutation == old(self).mutation,
            final(self).pre_births == old(self).pre_births,
    {
        let st = self.population.run_state();
        let n = self.loggers.len();
        let mut k: usize = 0;
        while k < n
            invariant
                k <= n,
                self.loggers@.len() == n,
                self.population == old(self).population,
                self.selections == old(self).selections,
                self.goal == old(self).goal,
                self.stop_checker == old(self).stop_checker,
                self.creator == old(self).creator,
                self.pairing == old(self).pairing,
                self.cross == old(self).cross,
                self.mutation == old(self).mutation,
                self.pre_births == old(self).pre_births,
            decreases n - k,
        {
            let mut logger = self.loggers.remove(0);
            logger.start(&st);
            self.loggers.push(logger);
            k = k + 1;
        }
    }

    /// Tell every logger that iterating starts or resumes.
    fn log_resume(&mut self)
        ensures
            final(self).population == old(self).population,
            final(self).selections == old(self).selections,
            final(self).goal == old(self).goal,
            final(self).stop_checker == old(self).stop_checker,
            final(self).creator == old(self).creator,
            final(self).pairing == old(self).pairing,
            final(self).cross == old(self).cross,
            final(self).mutation == old(self).mutation,
            final(self).pre_births == old(self).pre_births,
    {
        let st = self.population.run_state();
        let n = self.loggers.len();
        let mut k: usize = 0;
        while k < n
            invariant
                k <= n,
                self.loggers@.len() == n,
                self.population == old(self).population,
                self.selections == old(self).selections,
                self.goal == old(self).goal,
                self.stop_checker == old(self).stop_checker,
                self.creator == old(self).creator,
                self.pairing == old(self).pairing,
                self.cross == old(self).cross,
                self.mutation == old(self).mutation,
                self.pre_births == old(self).pre_births,
            decreases n - k,
        {
            let mut logger = self.loggers.remove(0);
            logger.resume(&st);
            self.loggers.push(logger);
            k = k + 1;
        }
    }

    /// Tell every logger that an iteration finished.
    fn log_next_iteration(&mut self)
        ensures
            final(self).population == old(self).population,
            final(self).selections == old(self).selections,
            final(self).goal == old(self).goal,
            final(self).stop_checker == old(self).stop_checker,
            final(self).creator == old(self).creator,
            final(self).pairing == old(self).pairing,
            final(self).cross == old(self).cross,
            final(self).mutation == old(self).mutation,
            final(self).pre_births == old(self).pre_births,
    {
        let st = self.population.run_state();
        let n = self.loggers.len();
        let mut k: usize = 0;
        while k < n
            invariant
                k <= n,
                self.loggers@.len() == n,
                self.population == old(self).population,
                self.selections == old(self).selections,
                self.goal == old(self).goal,
                self.stop_checker == old(self).stop_checker,
                self.creator == old(self).creator,
                self.pairing == old(self).pairing,
                self.cross == old(self).cross,
                self.mutation == old(self).mutation,
                self.pre_births == old(self).pre_births,
            decreases n - k,
        {
            let mut logger = self.loggers.remove(0);
            logger.next_iteration(&st);
            self.loggers.push(logger);
            k = k + 1;
        }
    }

    /// Tell every logger that the run stopped.
    fn log_finish(&mut self)
        ensures
            final(self).population == old(self).population,
            final(self).selections == old(self).selections,
            final(self).goal == old(self).goal,
            final(self).stop_checker == old(self).stop_checker,
            final(self).creator == old(self).creator,
            final(self).pairing == old(self).pairing,
            final(self).cross == old(self).cross,
            final(self).mutation == old(self).mutation,
            final(self).pre_births == old(self).pre_births,
    {
        let st = self.population.run_state();
        let n = self.loggers.len();
        let mut k: usize = 0;
        while k < n
            invariant
                k <= n,
                self.loggers@.len() == n,
                self.population == old(self).population,
                self.selections == old(self).selections,
                self.goal == old(self).goal,
                self.stop_checker == old(self).stop_checker,
                self.creator == old(self).creator,
                self.pairing == old(self).pairing,
                self.cross == old(self).cross,
                self.mutation == old(self).mutation,
                self.pre_births == old(self).pre_births,
            decreases n - k,
        {
            let mut logger = self.loggers.remove(0);
            logger.finish(&st);
            self.loggers.push(logger);
            k = k + 1;
        }
    }

    /// Ask the pairing for parent groups and cross each group: the
    /// chromosomes of the children of this generation, before mutation.
    fn run_pairing(&mut self) -> (children: Vec<Chromosomes>)
        requires
            old(self).population.individuals@.len() > 0,
        ensures
            final(self).population == old(self).population,
            final(self).selections == old(self).selections,
            final(self).goal == old(self).goal,
            final(self).stop_checker == old(self).stop_checker,
            final(self).creator == old(self).creator,
            final(self).mutation == old(self).mutation,
            final(self).pre_births == old(self).pre_births,
            final(self).loggers == old(self).loggers,
    {
        let mut pairs = self.pairing.get_pairs(&self.population);
        let ghost pairs0 = pairs@;
        let mut new_chromosomes: Vec<Chromosomes> = Vec::new();
        let np = pairs.len();
        let mut p: usize = 0;
        while p < np
            invariant
                p <= np,
                pairs@ == pairs0.skip(p as int),
                np == pairs0.len(),
                self.population == old(self).population,
                self.selections == old(self).selections,
                self.goal == old(self).goal,
                self.stop_checker == old(self).stop_checker,
                self.creator == old(self).creator,
                self.mutation == old(self).mutation,
                self.pre_births == old(self).pre_births,
                self.loggers == old(self).loggers,
                forall|a: int, q: int|
                    0 <= a < pairs0.len() && 0 <= q < pairs0[a]@.len() ==> #[trigger] pairs0[a]@[q]
                        < self.population.individuals@.len(),
            decreases np - p,
        {
            let pair = pairs.remove(0);
            proof {
                assert(pairs@ =~= pairs0.skip(p + 1int));
                assert(pair == pairs0[p as int]);
            }
            let mut cross_chromosomes: Vec<Chromosomes> = Vec::new();
            let m = pair.len();
            let mut q: usize = 0;
            while q < m
                invariant
                    q <= m,
                    m == pair@.len(),
                    self.population == old(self).population,
                    forall|j: int|
                        0 <= j < pair@.len() ==> #[trigger] pair@[j]
                            < self.population.individuals@.len(),
                decreases m - q,
            {
                let idx = pair[q];
                cross_chromosomes.push(clone_chromosomes(self.population.get(idx).get_chromosomes()));
                q = q + 1;
            }
            let mut child_chromosomes = self.cross.cross(&cross_chromosomes);
            new_chromosomes.append(&mut child_chromosomes);
            p = p + 1;
        }
        new_chromosomes
    }
}


impl<
    G: crate::Goal<Chromosomes>,
    K: crate::tools::stopchecker::StopChecker<Chromosomes>,
    C: Creator<Chromosomes>,
    P: Pairing,
    X: Cross<Chromosomes>,
    M: Mutation<Chromosomes>,
    S: Selection,
    B: PreBirth,
    L: crate::tools::logging::Logger<Chromosomes>,
> GeneticOptimizer<G, K, C, P, X, M, S, B, L> {
    /// Whether every configured selection keeps a best-or-better survivor.
    pub open spec fn selections_preserve_min(self) -> bool {
        forall|k: int|
            0 <= k < self.selections@.len() ==> (#[trigger] self.selections@[k]).preserves_min()
    }

    /// Run one full generation: pairing, recombination, mutation, pre-birth
    /// filtering, insertion, the selections in order, removal of the dead and
    /// the step of the generation counter.
    fn run_generation(&mut self)
        requires
            old(self).population.well_formed(),
        ensures
            final(self).population.well_formed(),
            final(self).population.all_alive(),
            final(self).selections@.len() == old(self).selections@.len(),
            old(self).selections_preserve_min() ==> final(self).selections_preserve_min(),
            final(self).population.iteration == if old(self).population.iteration < usize::MAX {
                (old(self).population.iteration + 1) as usize
            } else {
                old(self).population.iteration
            },
            (old(self).selections_preserve_min() && old(self).population.all_alive()
                && old(self).population.best_individual is Some
                && is_finite_bits(old(self).population.best_individual->Some_0.fitness))
                ==> (final(self).population.best_individual is Some
                && fit_le(
                final(self).population.best_individual->Some_0.fitness,
                old(self).population.best_individual->Some_0.fitness,
            )),
    {
        let ghost cond = old(self).selections_preserve_min() && old(self).population.all_alive()
            && old(self).population.best_individual is Some && is_finite_bits(
            old(self).population.best_individual->Some_0.fitness,
        );
        // Pairing and recombination.
        let mut children: Vec<Chromosomes> = if self.population.len() > 0 {
            self.run_pairing()
        } else {
            Vec::new()
        };
        // Mutation.
        let mut mutants: Vec<Chromosomes> = Vec::new();
        while children.len() > 0
            invariant
                self.population == old(self).population,
                self.selections == old(self).selections,
                self.pre_births == old(self).pre_births,
                self.goal == old(self).goal,
                self.stop_checker == old(self).stop_checker,
            decreases children@.len(),
        {
            let child = children.remove(0);
            let mutant = self.mutation.mutation(&child);
            mutants.push(mutant);
        }
        // Pre-birth filtering.
        let nb = self.pre_births.len();
        let mut k: usize = 0;
        while k < nb
            invariant
                k <= nb,
                self.pre_births@.len() == nb,
                self.population == old(self).population,
                self.selections == old(self).selections,
                self.goal == old(self).goal,
                self.stop_checker == old(self).stop_checker,
            decreases nb - k,
        {
            let mut pb = self.pre_births.remove(0);
            pb.pre_birth(&self.population, &mut mutants);
            self.pre_births.push(pb);
            k = k + 1;
        }
        // Evaluation and insertion.
        while mutants.len() > 0
            invariant
                self.population.well_formed(),
                self.selections == old(self).selections,
                self.stop_checker == old(self).stop_checker,
                self.population.iteration == old(self).population.iteration,
                old(self).population.best_individual matches Some(b1) ==> (
                self.population.best_individual matches Some(b) && fit_le(b.fitness, b1.fitness)),
                old(self).population.all_alive() ==> self.population.all_alive(),
            decreases mutants@.len(),
        {
            let chromo = mutants.remove(0);
            let fitness = self.goal.get(&chromo);
            let ghost pre = self.population;
            self.population.push(chromo, fitness);
            proof {
                if old(self).population.best_individual is Some && pre.best_individual is Some {
                    let b1 = old(self).population.best_individual->Some_0;
                    let bp = pre.best_individual->Some_0;
                    if fit_lt(fitness, bp.fitness) {
                        crate::bits::lemma_fit_le_trans(fitness, bp.fitness, b1.fitness);
                    }
                }
                if old(self).population.all_alive() {
                    assert forall|i: int|
                        0 <= i < self.population.individuals@.len() implies (#[trigger] self
                            .population
                            .individuals@[i]).alive by {
                        if i < pre.individuals@.len() {
                        }
                    }
                }
            }
        }
        // Selection.
        let ghost popsel = self.population;
        let ghost sels0 = self.selections@;
        let ns = self.selections.len();
        let mut j: usize = 0;
        proof {
            assert(liveness_only(popsel.individuals@, self.population.individuals@));
        }
        let ghost all_pres = forall|i: int| 0 <= i < ns ==> (#[trigger] sels0[i]).preserves_min();
        proof {
            lemma_min_preserved_refl(popsel.individuals@);
        }
        while j < ns
            invariant
                j <= ns,
                ns == sels0.len(),
                self.selections@.len() == ns,
                self.stop_checker == old(self).stop_checker,
                all_pres == (forall|i: int|
                    0 <= i < ns ==> (#[trigger] sels0[i]).preserves_min()),
                all_pres ==> forall|i: int|
                    0 <= i < ns ==> (#[trigger] self.selections@[i]).preserves_min(),
                self.population.best_individual == popsel.best_individual,
                self.population.worst_individual == popsel.worst_individual,
                self.population.iteration == popsel.iteration,
                liveness_only(popsel.individuals@, self.population.individuals@),
                all_pres ==> min_alive_preserved(
                    popsel.individuals@,
                    self.population.individuals@,
                ),
            decreases ns - j,
        {
            let ghost pre = self.population;
            let ghost sels_pre = self.selections@;
            let mut sel = self.selections.remove(0);
            sel.kill(&mut self.population);
            self.selections.push(sel);
            proof {
                lemma_liveness_only_trans(
                    popsel.individuals@,
                    pre.individuals@,
                    self.population.individuals@,
                );
                if all_pres {
                    assert(sels_pre[0].preserves_min());
                    lemma_min_preserved_trans(
                        popsel.individuals@,
                        pre.individuals@,
                        self.population.individuals@,
                    );
                    assert forall|i: int| 0 <= i < ns implies (#[trigger] self
                        .selections@[i]).preserves_min() by {
                        if i < ns - 1 {
                            assert(self.selections@[i] == sels_pre[i + 1]);
                        }
                    }
                }
            }
            j = j + 1;
        }
        // Removal of the dead, with the best and worst retracked.
        let ghost popkilled = self.population;
        self.population.remove_dead();
        proof {
            // Every survivor of the filter is alive.
            let survivors = self.population.individuals@;
            assert forall|i: int| 0 <= i < survivors.len() implies (#[trigger] survivors[i]).alive by {
                popkilled.individuals@.lemma_filter_pred(|i: Individual| i.alive, i);
            }
            if cond {
                // The tracked best cannot have got worse over this generation.
                let b0 = old(self).population.best_individual->Some_0;
                let b1 = popsel.best_individual->Some_0;
                assert(fit_le(b1.fitness, b0.fitness));
                // A witness member for the pre-selection best.
                let w = choose|w: int|
                    0 <= w < popsel.individuals@.len() && b1.fitness == #[trigger] popsel
                        .individuals@[w].fitness;
                assert(has_finite_alive(popsel.individuals@)) by {
                    assert(popsel.individuals@[w].alive);
                    assert(is_finite_bits(popsel.individuals@[w].fitness));
                }
                let s = choose|i: int|
                    0 <= i < popkilled.individuals@.len() && (#[trigger] popkilled
                        .individuals@[i]).alive && le_all_alive(
                        popkilled.individuals@[i].fitness,
                        popsel.individuals@,
                    );
                assert(fit_le(popkilled.individuals@[s].fitness, popsel.individuals@[w].fitness));
                popkilled.individuals@.lemma_filter_contains(|i: Individual| i.alive, s);
                let sv = choose|i: int|
                    0 <= i < survivors.len() && survivors[i] == popkilled.individuals@[s];
                let b2 = self.population.best_individual->Some_0;
                assert(fit_le(b2.fitness, survivors[sv].fitness));
                crate::bits::lemma_fit_le_trans(
                    b2.fitness,
                    popkilled.individuals@[s].fitness,
                    b1.fitness,
                );
                crate::bits::lemma_fit_le_trans(b2.fitness, b1.fitness, b0.fitness);
            }
        }
        self.population.next_iteration();
        self.log_next_iteration();
    }
}


impl<
    G: crate::Goal<Chromosomes>,
    K: crate::tools::stopchecker::StopChecker<Chromosomes>,
    C: Creator<Chromosomes>,
    P: Pairing,
    X: Cross<Chromosomes>,
    M: Mutation<Chromosomes>,
    S: Selection,
    B: PreBirth,
    L: crate::tools::logging::Logger<Chromosomes>,
> GeneticOptimizer<G, K, C, P, X, M, S, B, L> {
    /// Drive the current population through further generations until the
    /// stop checker fires, and report the best individual found. The tracked
    /// best score never worsens from one generation to the next as long as
    /// every configured selection preserves the best alive individual and the
    /// run starts from a live population with a finite best score.
    pub fn next_iterations(&mut self) -> (r: Option<Solution<Chromosomes>>)
        requires
            old(self).population.well_formed(),
        ensures
            final(self).population.well_formed(),
            final(self).population.iteration >= old(self).population.iteration,
            r is Some <==> final(self).population.best_individual is Some,
            final(self).population.best_individual matches Some(b) ==> (r matches Some(sol)
                && sol.1 == b.fitness && sol.0@ == b.chromosomes@),
            (old(self).selections_preserve_min() && old(self).population.all_alive()
                && old(self).population.best_individual is Some
                && is_finite_bits(old(self).population.best_individual->Some_0.fitness))
                ==> (final(self).population.best_individual is Some
                && is_finite_bits(final(self).population.best_individual->Some_0.fitness)
                && fit_le(
                final(self).population.best_individual->Some_0.fitness,
                old(self).population.best_individual->Some_0.fitness,
            )),
    {
        let ghost cond = old(self).selections_preserve_min() && old(self).population.all_alive()
            && old(self).population.best_individual is Some && is_finite_bits(
            old(self).population.best_individual->Some_0.fitness,
        );
        let ghost b0fit = if old(self).population.best_individual is Some {
            old(self).population.best_individual->Some_0.fitness
        } else {
            0u64
        };
        self.log_resume();
        let st = self.population.run_state();
        let mut stop = self.stop_checker.can_stop(&st);
        let mut fuel: u64 = 0xFFFF_FFFF_FFFF_FFFF;
        proof {
            crate::bits::lemma_fit_total(b0fit, b0fit);
        }
        while !stop && fuel > 0
            invariant
                self.population.well_formed(),
                self.population.iteration >= old(self).population.iteration,
                cond == (old(self).selections_preserve_min() && old(self).population.all_alive()
                    && old(self).population.best_individual is Some && is_finite_bits(
                    old(self).population.best_individual->Some_0.fitness,
                )),
                cond ==> b0fit == old(self).population.best_individual->Some_0.fitness,
                cond ==> (self.selections_preserve_min() && self.population.all_alive()
                    && self.population.best_individual is Some && is_finite_bits(
                    self.population.best_individual->Some_0.fitness,
                ) && fit_le(self.population.best_individual->Some_0.fitness, b0fit)),
            decreases fuel,
        {
            let ghost pre = self.population;
            self.run_generation();
            proof {
                if cond {
                    let bp = pre.best_individual->Some_0;
                    let bc = self.population.best_individual->Some_0;
                    crate::bits::lemma_fit_le_trans(bc.fitness, bp.fitness, b0fit);
                    assert(is_finite_bits(bc.fitness));
                }
            }
            let st2 = self.population.run_state();
            stop = self.stop_checker.can_stop(&st2);
            fuel = fuel - 1;
        }
        self.log_finish();
        match self.population.get_best() {
            None => None,
            Some(b) => Some((clone_chromosomes(b.get_chromosomes()), b.get_fitness())),
        }
    }

    /// Start a fresh run: reset the population, create and evaluate the
    /// initial individuals, and iterate until the stop checker fires.
    pub fn find_min(&mut self) -> (r: Option<Solution<Chromosomes>>)
        ensures
            final(self).population.well_formed(),
            r is Some <==> final(self).population.best_individual is Some,
            final(self).population.best_individual matches Some(b) ==> (r matches Some(sol)
                && sol.1 == b.fitness && sol.0@ == b.chromosomes@),
    {
        self.population.reset();
        let mut start_chromo_list = self.creator.create();
        while start_chromo_list.len() > 0
            invariant
                self.population.well_formed(),
            decreases start_chromo_list@.len(),
        {
            let chromo = start_chromo_list.remove(0);
            let fitness = self.goal.get(&chromo);
            self.population.push(chromo, fitness);
        }
        self.log_start();
        self.next_iterations()
    }
}

impl<
    G: crate::Goal<Chromosomes>,
    K: crate::tools::stopchecker::StopChecker<Chromosomes>,
    C: Creator<Chromosomes>,
    P: Pairing,
    X: Cross<Chromosomes>,
    M: Mutation<Chromosomes>,
    S: Selection,
    B: PreBirth,
    L: crate::tools::logging::Logger<Chromosomes>,
> crate::Optimizer<Chromosomes> for GeneticOptimizer<G, K, C, P, X, M, S, B, L> {
    fn find_min(&mut self) -> Option<Solution<Chromosomes>> {
        GeneticOptimizer::find_min(self)
    }
}

impl<
    G: crate::Goal<Chromosomes>,
    K: crate::tools::stopchecker::StopChecker<Chromosomes>,
    C: Creator<Chromosomes>,
    P: Pairing,
    X: Cross<Chromosomes>,
    M: Mutation<Chromosomes>,
    S: Selection,
    B: PreBirth,
    L: crate::tools::logging::Logger<Chromosomes>,
> crate::IterativeOptimizer<Chromosomes> for GeneticOptimizer<G, K, C, P, X, M, S, B, L> {
    /// The facade retracks the best and worst first, so that resumption is
    /// sound whatever state the population was left in.
    fn next_iterations(&mut self) -> Option<Solution<Chromosomes>> {
        self.population.update_best_worst_individuals();
        GeneticOptimizer::next_iterations(self)
    }
}

} // verus!
