//! Selection algorithms: they mark individuals dead and never remove them,
//! so that several selections can run one after another each generation.

use vstd::prelude::*;
use crate::bits::{bits_finite, fit_better, fit_le, is_finite_bits};
use crate::genetic::pre_birth::chromo_in_intervals;
use crate::Gene;
use crate::genetic::{
    count_alive, has_finite_alive, le_all_alive, lemma_count_alive_update_dead,
    lemma_exists_min_alive, lemma_min_preserved_refl, liveness_only, Individual, Population,
    Selection,
};

verus! {

/// Kill every individual whose fitness is not finite (a NaN or an infinity).
pub struct KillFitnessNaN;

impl KillFitnessNaN {
    /// Constructor.
    pub fn new() -> KillFitnessNaN {
        KillFitnessNaN
    }
}

impl Selection for KillFitnessNaN {
    /// Killing only non-finite scores never loses a finite best.
    open spec fn preserves_min(&self) -> bool {
        true
    }

    fn kill(&mut self, population: &mut Population)
        ensures
            forall|i: int|
                0 <= i < final(population).individuals@.len() ==> (#[trigger] final(population).individuals@[i]).alive == (old(population).individuals@[i].alive
                    && is_finite_bits(old(population).individuals@[i].fitness)),
    {
        let n = population.len();
        let mut k: usize = 0;
        while k < n
            invariant
                k <= n,
                n == population.individuals@.len() == old(population).individuals@.len(),
                population.best_individual == old(population).best_individual,
                population.worst_individual == old(population).worst_individual,
                population.iteration == old(population).iteration,
                forall|i: int|
                    0 <= i < n ==> (#[trigger] population.individuals@[i]).chromosomes == old(population).individuals@[i].chromosomes && population.individuals@[i].fitness == old(population).individuals@[i].fitness,
                forall|i: int|
                    0 <= i < k ==> (#[trigger] population.individuals@[i]).alive == (old(population).individuals@[i].alive && is_finite_bits(
                        old(population).individuals@[i].fitness,
                    )),
                forall|i: int|
                    k <= i < n ==> (#[trigger] population.individuals@[i]).alive == old(population).individuals@[i].alive,
            decreases n - k,
        {
            let f = population.get(k).get_fitness();
            if !bits_finite(f) {
                population.set_dead(k);
            }
            k = k + 1;
        }
        proof {
            let s0 = old(population).individuals@;
            let s1 = final(population).individuals@;
            if has_finite_alive(s0) {
                let w = choose|i: int|
                    0 <= i < s0.len() && (#[trigger] s0[i]).alive && is_finite_bits(s0[i].fitness);
                assert(s1[w].alive);
                lemma_exists_min_alive(s1);
                let m = choose|i: int|
                    0 <= i < s1.len() && (#[trigger] s1[i]).alive && le_all_alive(s1[i].fitness, s1);
                assert forall|j: int| 0 <= j < s0.len() && (#[trigger] s0[j]).alive implies fit_le(
                    s1[m].fitness,
                    s0[j].fitness,
                ) by {
                    if is_finite_bits(s0[j].fitness) {
                        assert(s1[j].alive);
                        assert(fit_le(s1[m].fitness, s1[j].fitness));
                    } else {
                        assert(is_finite_bits(s1[m].fitness));
                    }
                }
                assert(le_all_alive(s1[m].fitness, s0));
            }
        }
    }
}

/// Cap the number of alive individuals: when more than `max_count` are alive,
/// mark exactly the surplus dead, chosen among the worst-scoring alive ones.
pub struct LimitPopulation {
    pub max_count: usize,
}

impl LimitPopulation {
    /// Constructor.
    pub fn new(max_count: usize) -> (r: LimitPopulation)
        ensures
            r.max_count == max_count,
    {
        LimitPopulation { max_count }
    }

    /// Change the cap.
    pub fn set_limit(&mut self, max_count: usize)
        ensures
            final(self).max_count == max_count,
    {
        self.max_count = max_count;
    }
}

impl Selection for LimitPopulation {
    /// With a cap of at least one, the best alive individual survives.
    open spec fn preserves_min(&self) -> bool {
        self.max_count >= 1
    }

    fn kill(&mut self, population: &mut Population)
        ensures
            count_alive(final(population).individuals@) == if count_alive(
                old(population).individuals@,
            ) <= old(self).max_count {
                count_alive(old(population).individuals@)
            } else {
                old(self).max_count as int
            },
    {
        proof {
            crate::genetic::lemma_count_alive_le_len(population.individuals@);
        }
        let alive_count = population.len_alive();
        if alive_count > self.max_count {
            kill_worst(population, alive_count - self.max_count);
            proof {
                let s0 = old(population).individuals@;
                let s1 = final(population).individuals@;
                if self.max_count >= 1 && has_finite_alive(s0) {
                    assert(count_alive(s1) == self.max_count as int);
                    crate::genetic::lemma_count_alive_le_len(s1);
                    lemma_count_alive_pos_witness(s1);
                    lemma_exists_min_alive(s1);
                    let m = choose|i: int|
                        0 <= i < s1.len() && (#[trigger] s1[i]).alive && le_all_alive(
                            s1[i].fitness,
                            s1,
                        );
                    assert forall|j: int|
                        0 <= j < s0.len() && (#[trigger] s0[j]).alive implies fit_le(
                        s1[m].fitness,
                        s0[j].fitness,
                    ) by {
                        if s1[j].alive {
                            assert(fit_le(s1[m].fitness, s1[j].fitness));
                        } else {
                            assert(fit_le(s1[m].fitness, s0[j].fitness));
                        }
                    }
                    assert(le_all_alive(s1[m].fitness, s0));
                }
            }
        } else {
            proof {
                lemma_min_preserved_refl(population.individuals@);
            }
        }
    }
}


/// One of the ready-made selections, as a single type, so that selections of
/// different kinds can be composed in one list.
pub enum AnySelection {
    KillFitnessNaN(KillFitnessNaN),
    LimitPopulation(LimitPopulation),
}

impl Selection for AnySelection {
    open spec fn preserves_min(&self) -> bool {
        match self {
            AnySelection::KillFitnessNaN(s) => s.preserves_min(),
            AnySelection::LimitPopulation(s) => s.preserves_min(),
        }
    }

    fn kill(&mut self, population: &mut Population) {
        match self {
            AnySelection::KillFitnessNaN(s) => s.kill(population),
            AnySelection::LimitPopulation(s) => s.kill(population),
        }
    }
}


/// Kill every individual whose chromosomes fall outside the configured
/// feasible intervals; individuals of the wrong dimension count as
/// infeasible. Since the best individual itself may be infeasible, this
/// selection promises no survivor.
pub struct CheckChromoInterval {
    /// The allowed interval of every gene, as float bit patterns.
    pub intervals: Vec<(Gene, Gene)>,
}

impl CheckChromoInterval {
    /// Constructor: one `(lowest, highest)` interval per gene.
    pub fn new(intervals: Vec<(Gene, Gene)>) -> (r: CheckChromoInterval)
        ensures
            r.intervals == intervals,
    {
        CheckChromoInterval { intervals }
    }

    /// Whether the chromosomes lie inside the configured intervals.
    fn check_chromo(&self, chromosomes: &crate::Chromosomes) -> (r: bool)
        ensures
            r == chromo_in_intervals(chromosomes@, self.intervals@),
    {
        let n = chromosomes.len();
        if n != self.intervals.len() {
            return false;
        }
        let mut k: usize = 0;
        while k < n
            invariant
                k <= n,
                n == chromosomes@.len() == self.intervals@.len(),
                forall|i: int|
                    0 <= i < k ==> is_finite_bits(#[trigger] chromosomes@[i]) && crate::bits::ieee_le(
                        self.intervals@[i].0,
                        chromosomes@[i],
                    ) && crate::bits::ieee_le(chromosomes@[i], self.intervals@[i].1),
            decreases n - k,
        {
            let c = chromosomes[k];
            let lo = self.intervals[k].0;
            let hi = self.intervals[k].1;
            if !bits_finite(c) || !crate::bits::le_ieee(lo, c) || !crate::bits::le_ieee(c, hi) {
                return false;
            }
            k = k + 1;
        }
        true
    }
}

impl Selection for CheckChromoInterval {
    /// An infeasible best is killed like any other infeasible individual.
    open spec fn preserves_min(&self) -> bool {
        false
    }

    fn kill(&mut self, population: &mut Population)
        ensures
            forall|i: int|
                0 <= i < final(population).individuals@.len() ==> (#[trigger] final(population).individuals@[i]).alive == (old(population).individuals@[i].alive
                    && chromo_in_intervals(
                    old(population).individuals@[i].chromosomes@,
                    old(self).intervals@,
                )),
    {
        let n = population.len();
        let mut k: usize = 0;
        while k < n
            invariant
                k <= n,
                *self == *old(self),
                n == population.individuals@.len() == old(population).individuals@.len(),
                population.best_individual == old(population).best_individual,
                population.worst_individual == old(population).worst_individual,
                population.iteration == old(population).iteration,
                forall|i: int|
                    0 <= i < n ==> (#[trigger] population.individuals@[i]).chromosomes == old(population).individuals@[i].chromosomes && population.individuals@[i].fitness == old(population).individuals@[i].fitness,
                forall|i: int|
                    0 <= i < k ==> (#[trigger] population.individuals@[i]).alive == (old(population).individuals@[i].alive && chromo_in_intervals(
                        old(population).individuals@[i].chromosomes@,
                        self.intervals@,
                    )),
                forall|i: int|
                    k <= i < n ==> (#[trigger] population.individuals@[i]).alive == old(population).individuals@[i].alive,
            decreases n - k,
        {
            let feasible = self.check_chromo(population.get(k).get_chromosomes());
            if !feasible {
                population.set_dead(k);
            }
            k = k + 1;
        }
    }
}

/// A positive alive count has an alive witness.
proof fn lemma_count_alive_pos_witness(s: Seq<Individual>)
    requires
        count_alive(s) > 0,
    ensures
        exists|i: int| 0 <= i < s.len() && (#[trigger] s[i]).alive,
    decreases s.len(),
{
    if s.last().alive {
        assert(s[s.len() - 1].alive);
    } else {
        lemma_count_alive_pos_witness(s.drop_last());
        let i = choose|i: int| 0 <= i < s.len() - 1 && (#[trigger] s.drop_last()[i]).alive;
        assert(s[i].alive);
    }
}

/// Mark the `count` worst-scoring alive individuals dead. A running
/// elimination set of size `count` is kept while scanning: a candidate worse
/// than the best member of the set replaces that member, so the set always
/// holds the worst seen so far and everything outside it scores no worse
/// than anything inside.
pub fn kill_worst(population: &mut Population, count: usize)
    requires
        1 <= count,
        count <= count_alive(old(population).individuals@),
    ensures
        liveness_only(old(population).individuals@, final(population).individuals@),
        final(population).best_individual == old(population).best_individual,
        final(population).worst_individual == old(population).worst_individual,
        final(population).iteration == old(population).iteration,
        count_alive(final(population).individuals@) == count_alive(old(population).individuals@)
            - count,
        forall|i: int, j: int|
            0 <= i < final(population).individuals@.len() && 0 <= j < final(population).individuals@.len() && (#[trigger] final(population).individuals@[i]).alive && old(population).individuals@[j].alive && !(#[trigger] final(population).individuals@[j]).alive
                ==> fit_le(
                final(population).individuals@[i].fitness,
                old(population).individuals@[j].fitness,
            ),
{
    let ghost s0 = population.individuals@;
    let n = population.len();
    proof {
        crate::genetic::lemma_count_alive_le_len(s0);
    }
    // Scan for the `count` worst alive individuals.
    let mut kill_list: Vec<usize> = Vec::new();
    let mut best_index: usize = 0;
    let mut k: usize = 0;
    while k < n
        invariant
            k <= n,
            n == population.individuals@.len(),
            *population == *old(population),
            s0 == population.individuals@,
            count_alive(s0.take(k as int)) >= kill_list@.len(),
            kill_list@.len() == if count_alive(s0.take(k as int)) <= count {
                count_alive(s0.take(k as int))
            } else {
                count as int
            },
            kill_list@.len() <= count,
            forall|a: int| 0 <= a < kill_list@.len() ==> #[trigger] kill_list@[a] < k,
            forall|a: int| 0 <= a < kill_list@.len() ==> s0[#[trigger] kill_list@[a] as int].alive,
            forall|a: int, b: int|
                0 <= a < b < kill_list@.len() ==> #[trigger] kill_list@[a] != #[trigger] kill_list@[b],
            1 <= count <= count_alive(s0),
            kill_list@.len() > 0 ==> best_index < kill_list@.len(),
            kill_list@.len() > 0 ==> forall|a: int|
                0 <= a < kill_list@.len() ==> fit_le(
                    s0[kill_list@[best_index as int] as int].fitness,
                    s0[#[trigger] kill_list@[a] as int].fitness,
                ),
            kill_list@.len() < count ==> forall|j: int|
                0 <= j < k && (#[trigger] s0[j]).alive ==> kill_list@.contains(j as usize),
            kill_list@.len() > 0 ==> forall|j: int|
                0 <= j < k && (#[trigger] s0[j]).alive && !kill_list@.contains(j as usize)
                    ==> fit_le(s0[j].fitness, s0[kill_list@[best_index as int] as int].fitness),
        decreases n - k,
    {
        proof {
            assert(s0.take(k + 1int).drop_last() =~= s0.take(k as int));
            assert(s0.take(k + 1int).last() == s0[k as int]);
        }
        let alive_k = population.get(k).is_alive();
        if alive_k {
            let fk = population.get(k).get_fitness();
            if kill_list.len() < count {
                let ghost old_list = kill_list@;
                let ghost old_bi = best_index as int;
                kill_list.push(k);
                if kill_list.len() == 1 {
                    best_index = 0;
                    proof {
                        crate::bits::lemma_fit_total(fk, fk);
                    }
                } else {
                    let fb = population.get(kill_list[best_index]).get_fitness();
                    if fit_better(fk, fb) {
                        best_index = kill_list.len() - 1;
                        proof {
                            let bf = fk;
                            assert forall|a: int| 0 <= a < kill_list@.len() implies fit_le(
                                bf,
                                s0[#[trigger] kill_list@[a] as int].fitness,
                            ) by {
                                crate::bits::lemma_fit_total(bf, bf);
                                if a < old_list.len() {
                                    assert(kill_list@[a] == old_list[a]);
                                    crate::bits::lemma_fit_le_trans(
                                        bf,
                                        fb,
                                        s0[old_list[a] as int].fitness,
                                    );
                                }
                            }
                        }
                    } else {
                        proof {
                            let bf = s0[kill_list@[best_index as int] as int].fitness;
                            crate::bits::lemma_fit_total(fk, fb);
                            assert forall|a: int| 0 <= a < kill_list@.len() implies fit_le(
                                bf,
                                s0[#[trigger] kill_list@[a] as int].fitness,
                            ) by {
                                if a < old_list.len() {
                                    assert(kill_list@[a] == old_list[a]);
                                }
                            }
                        }
                    }
                }
                proof {
                    // Everything alive and seen is still inside the set
                    // while it is not yet full; once it fills right now, the
                    // outside condition is vacuous.
                    assert forall|j: int|
                        0 <= j < k + 1 && (#[trigger] s0[j]).alive && !kill_list@.contains(
                            j as usize,
                        ) implies fit_le(
                        s0[j].fitness,
                        s0[kill_list@[best_index as int] as int].fitness,
                    ) by {
                        if j < k {
                            assert(old_list.contains(j as usize));
                            let a = choose|a: int|
                                0 <= a < old_list.len() && #[trigger] old_list[a] == j as usize;
                            assert(kill_list@[a] == j as usize);
                            assert(false);
                        } else {
                            assert(kill_list@[kill_list@.len() - 1] == k as usize);
                            assert(false);
                        }
                    }
                    assert forall|j: int|
                        kill_list@.len() < count && 0 <= j < k + 1 && (#[trigger] s0[j]).alive
                        implies kill_list@.contains(j as usize) by {
                        if j < k {
                            assert(old_list.contains(j as usize));
                            let a = choose|a: int|
                                0 <= a < old_list.len() && #[trigger] old_list[a] == j as usize;
                            assert(kill_list@[a] == j as usize);
                        } else {
                            assert(kill_list@[kill_list@.len() - 1] == k as usize);
                        }
                    }
                }
            } else {
                let fb = population.get(kill_list[best_index]).get_fitness();
                if fit_better(fb, fk) {
                    let ghost old_list = kill_list@;
                    let ghost old_bi = best_index as int;
                    let ghost old_min = s0[old_list[best_index as int] as int].fitness;
                    let ghost replaced = old_list[best_index as int];
                    kill_list.set(best_index, k);
                    // Rescan the elimination set for its new best member.
                    let mut m: usize = 1;
                    let mut bi: usize = 0;
                    proof {
                        crate::bits::lemma_fit_total(
                            s0[kill_list@[0] as int].fitness,
                            s0[kill_list@[0] as int].fitness,
                        );
                    }
                    while m < kill_list.len()
                        invariant
                            *population == *old(population),
                            n == population.individuals@.len() == s0.len(),
                            s0 == population.individuals@,
                            m <= kill_list@.len(),
                            bi < m,
                            forall|a: int|
                                0 <= a < kill_list@.len() ==> #[trigger] kill_list@[a] < n,
                            forall|a: int|
                                0 <= a < m ==> fit_le(
                                    s0[kill_list@[bi as int] as int].fitness,
                                    s0[#[trigger] kill_list@[a] as int].fitness,
                                ),
                        decreases kill_list@.len() - m,
                    {
                        let fm = population.get(kill_list[m]).get_fitness();
                        let fbi = population.get(kill_list[bi]).get_fitness();
                        if fit_better(fm, fbi) {
                            proof {
                                assert forall|a: int| 0 <= a < m + 1 implies fit_le(
                                    fm,
                                    s0[#[trigger] kill_list@[a] as int].fitness,
                                ) by {
                                    crate::bits::lemma_fit_total(fm, fm);
                                    if a < m {
                                        crate::bits::lemma_fit_le_trans(
                                            fm,
                                            fbi,
                                            s0[kill_list@[a] as int].fitness,
                                        );
                                    }
                                }
                            }
                            bi = m;
                        } else {
                            proof {
                                crate::bits::lemma_fit_total(fm, fbi);
                            }
                        }
                        m = m + 1;
                    }
                    best_index = bi;
                    proof {
                        let new_min = s0[kill_list@[best_index as int] as int].fitness;
                        // The new minimum of the set is no better than the
                        // old one: every member is either an old member or
                        // the strictly worse newcomer.
                        assert(fit_le(old_min, new_min)) by {
                            if best_index as int == old_bi {
                                assert(kill_list@[best_index as int] == k as usize);
                            } else {
                                assert(kill_list@[best_index as int]
                                    == old_list[best_index as int]);
                            }
                        }
                        assert forall|j: int|
                            0 <= j < k + 1 && (#[trigger] s0[j]).alive && !kill_list@.contains(
                                j as usize,
                            ) implies fit_le(s0[j].fitness, new_min) by {
                            if j == k {
                                assert(kill_list@[old_bi] == k as usize);
                                assert(kill_list@.contains(k as usize));
                                assert(false);
                            } else if j == replaced {
                                crate::bits::lemma_fit_le_trans(s0[j].fitness, old_min, new_min);
                            } else {
                                if old_list.contains(j as usize) {
                                    let a = choose|a: int|
                                        0 <= a < old_list.len() && #[trigger] old_list[a]
                                            == j as usize;
                                    assert(kill_list@[a] == j as usize);
                                    assert(false);
                                }
                                crate::bits::lemma_fit_le_trans(s0[j].fitness, old_min, new_min);
                            }
                        }
                        assert forall|a: int, b: int| 0 <= a < b < kill_list@.len() implies (
                        #[trigger] kill_list@[a]) != (#[trigger] kill_list@[b]) by {
                            if a == old_bi {
                                assert(kill_list@[a] == k as usize);
                                assert(kill_list@[b] == old_list[b] && old_list[b] < k);
                            } else if b == old_bi {
                                assert(kill_list@[b] == k as usize);
                                assert(kill_list@[a] == old_list[a] && old_list[a] < k);
                            } else {
                                assert(kill_list@[a] == old_list[a]);
                                assert(kill_list@[b] == old_list[b]);
                            }
                        }
                    }
                } else {
                    proof {
                        crate::bits::lemma_fit_total(fk, fb);
                        assert(fit_le(
                            s0[k as int].fitness,
                            s0[kill_list@[best_index as int] as int].fitness,
                        ));
                    }
                }
            }
        }
        k = k + 1;
    }
    proof {
        assert(s0.take(n as int) =~= s0);
    }
    // Kill the selected individuals.
    let nk = kill_list.len();
    let mut t: usize = 0;
    while t < nk
        invariant
            t <= nk,
            nk == kill_list@.len(),
            n == population.individuals@.len() == s0.len(),
            population.best_individual == old(population).best_individual,
            population.worst_individual == old(population).worst_individual,
            population.iteration == old(population).iteration,
            forall|a: int| 0 <= a < nk ==> #[trigger] kill_list@[a] < n,
            forall|a: int| 0 <= a < nk ==> s0[#[trigger] kill_list@[a] as int].alive,
            forall|a: int, b: int|
                0 <= a < b < nk ==> #[trigger] kill_list@[a] != #[trigger] kill_list@[b],
            forall|i: int|
                0 <= i < n ==> (#[trigger] population.individuals@[i]).chromosomes
                    == s0[i].chromosomes && population.individuals@[i].fitness == s0[i].fitness,
            forall|i: int|
                0 <= i < n ==> (#[trigger] population.individuals@[i]).alive == (s0[i].alive
                    && !kill_list@.take(t as int).contains(i as usize)),
            count_alive(population.individuals@) == count_alive(s0) - t,
        decreases nk - t,
    {
        let idx = kill_list[t];
        proof {
            assert(!kill_list@.take(t as int).contains(idx));
            assert(population.individuals@[idx as int].alive);
            lemma_count_alive_update_dead(
                population.individuals@,
                idx as int,
                (Individual {
                    chromosomes: population.individuals@[idx as int].chromosomes,
                    fitness: population.individuals@[idx as int].fitness,
                    alive: false,
                }),
            );
        }
        population.set_dead(idx);
        proof {
            assert forall|i: int| 0 <= i < n implies (#[trigger] population.individuals@[i]).alive
                == (s0[i].alive && !kill_list@.take(t + 1int).contains(i as usize)) by {
                assert(kill_list@.take(t + 1int).drop_last() =~= kill_list@.take(t as int));
                if i == idx {
                    assert(kill_list@.take(t + 1int)[t as int] == idx);
                    assert(kill_list@.take(t + 1int).contains(idx));
                }
                if kill_list@.take(t + 1int).contains(i as usize) {
                    let a = choose|a: int|
                        0 <= a < t + 1 && #[trigger] kill_list@.take(t + 1int)[a] == i as usize;
                    if a < t {
                        assert(kill_list@.take(t as int)[a] == i as usize);
                        assert(kill_list@.take(t as int).contains(i as usize));
                    }
                } else {
                    assert(!kill_list@.take(t as int).contains(i as usize)) by {
                        if kill_list@.take(t as int).contains(i as usize) {
                            let a = choose|a: int|
                                0 <= a < t && #[trigger] kill_list@.take(t as int)[a] == i as usize;
                            assert(kill_list@.take(t + 1int)[a] == i as usize);
                        }
                    }
                }
            }
        }
        t = t + 1;
    }
    proof {
        let s1 = final(population).individuals@;
        assert(kill_list@.take(nk as int) =~= kill_list@);
        // Exactly the elimination set was killed, so the alive counts agree.
        assert(count_alive(s1) == count_alive(s0) - count);
        // Everything still alive scores no worse than anything killed.
        assert forall|i: int, j: int|
            0 <= i < s1.len() && 0 <= j < s1.len() && (#[trigger] s1[i]).alive && s0[j].alive && !(
            #[trigger] s1[j]).alive implies fit_le(s1[i].fitness, s0[j].fitness) by {
            assert(kill_list@.contains(j as usize));
            let a = choose|a: int| 0 <= a < nk && #[trigger] kill_list@[a] == j as usize;
            assert(!kill_list@.contains(i as usize));
            assert(fit_le(s0[i].fitness, s0[kill_list@[best_index as int] as int].fitness));
            crate::bits::lemma_fit_le_trans(
                s0[i].fitness,
                s0[kill_list@[best_index as int] as int].fitness,
                s0[j].fitness,
            );
        }
    }
}


/// Removing the dead keeps exactly the alive individuals: the filtered length
/// is the alive count.
pub proof fn lemma_filter_alive_len(s: Seq<Individual>)
    ensures
        s.filter(|i: Individual| i.alive).len() == count_alive(s),
    decreases s.len(),
{
    reveal_with_fuel(Seq::<_>::filter, 2);
    if s.len() > 0 {
        lemma_filter_alive_len(s.drop_last());
    }
}

/// The population size bound law: when a cap selection has marked the surplus
/// dead, so that at most `max_count` individuals are alive, removing the dead
/// leaves at most `max_count` individuals, whatever else only flipped
/// liveness flags in between.
pub proof fn lemma_population_size_bound(
    s1: Seq<Individual>,
    s2: Seq<Individual>,
    max_count: usize,
)
    requires
        count_alive(s1) <= max_count,
        s2 == s1.filter(|i: Individual| i.alive),
    ensures
        s2.len() <= max_count,
{
    lemma_filter_alive_len(s1);
}

} // verus!
