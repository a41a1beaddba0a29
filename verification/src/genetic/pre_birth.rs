//! Pre-birth filters: they adjust the list of freshly mutated chromosomes
//! before the children are born, so the population never materializes an
//! infeasible individual while such a filter is active.

use vstd::prelude::*;
use crate::bits::{bits_finite, ieee_le, is_finite_bits, le_ieee};
use crate::{Chromosomes, Gene};
use crate::genetic::{Population, PreBirth};

verus! {

/// Whether every gene is finite and lies inside its configured interval.
/// Chromosomes whose length does not match the interval list count as
/// infeasible.
pub open spec fn chromo_in_intervals(c: Seq<Gene>, intervals: Seq<(Gene, Gene)>) -> bool {
    &&& c.len() == intervals.len()
    &&& forall|i: int|
        0 <= i < c.len() ==> is_finite_bits(#[trigger] c[i]) && ieee_le(intervals[i].0, c[i])
            && ieee_le(c[i], intervals[i].1)
}

/// Discard any child whose genes fall outside the configured feasible
/// interval of its dimension.
pub struct CheckChromoInterval {
    /// The allowed interval of every gene, as float bit patterns.
    pub intervals: Vec<(Gene, Gene)>,
}

impl CheckChromoInterval {
    /// Constructor: one `(lowest, highest)` interval per gene.
    pub fn new(intervals: Vec<(Gene, Gene)>) -> (r: CheckChromoInterval)
        ensures
            r.intervals == intervals,
    {
        CheckChromoInterval { intervals }
    }

    /// Whether the chromosomes lie inside the configured intervals.
    pub fn check_chromo(&self, chromosomes: &Chromosomes) -> (r: bool)
        ensures
            r == chromo_in_intervals(chromosomes@, self.intervals@),
    {
        let n = chromosomes.len();
        if n != self.intervals.len() {
            return false;
        }
        let mut k: usize = 0;
        while k < n
            invariant
                k <= n,
                n == chromosomes@.len() == self.intervals@.len(),
                forall|i: int|
                    0 <= i < k ==> is_finite_bits(#[trigger] chromosomes@[i]) && ieee_le(
                        self.intervals@[i].0,
                        chromosomes@[i],
                    ) && ieee_le(chromosomes@[i], self.intervals@[i].1),
            decreases n - k,
        {
            let c = chromosomes[k];
            let lo = self.intervals[k].0;
            let hi = self.intervals[k].1;
            if !bits_finite(c) || !le_ieee(lo, c) || !le_ieee(c, hi) {
                return false;
            }
            k = k + 1;
        }
        true
    }
}

impl PreBirth for CheckChromoInterval {
    fn pre_birth(&mut self, population: &Population, new_chromosomes: &mut Vec<Chromosomes>)
        ensures
            final(new_chromosomes)@ == old(new_chromosomes)@.filter(
                |c: Chromosomes| chromo_in_intervals(c@, old(self).intervals@),
            ),
            *final(self) == *old(self),
    {
        let ghost orig = new_chromosomes@;
        let ghost pred = |c: Chromosomes| chromo_in_intervals(c@, self.intervals@);
        let n = new_chromosomes.len();
        let mut kept: Vec<Chromosomes> = Vec::new();
        let mut k: usize = 0;
        proof {
            assert(orig.take(0int).filter(pred) =~= Seq::<Chromosomes>::empty());
        }
        while k < n
            invariant
                k <= n,
                *self == *old(self),
                n == orig.len(),
                new_chromosomes@ == orig.skip(k as int),
                (pred == (|c: Chromosomes| chromo_in_intervals(c@, self.intervals@))),
                kept@ == orig.take(k as int).filter(pred),
            decreases n - k,
        {
            let c = new_chromosomes.remove(0);
            proof {
                assert(new_chromosomes@ =~= orig.skip(k + 1int));
                assert(c == orig[k as int]);
                assert(orig.take(k + 1int).drop_last() =~= orig.take(k as int));
                assert(orig.take(k + 1int).last() == orig[k as int]);
            }
            if self.check_chromo(&c) {
                kept.push(c);
            }
            proof {
                assert(orig.take(k + 1int) =~= orig.take(k as int) + seq![orig[k as int]]);
                Seq::<Chromosomes>::filter_distributes_over_add(
                    orig.take(k as int),
                    seq![orig[k as int]],
                    pred,
                );
                reveal_with_fuel(Seq::<_>::filter, 3);
                let single = seq![orig[k as int]];
                assert(single.drop_last() =~= Seq::<Chromosomes>::empty());
                if pred(orig[k as int]) {
                    assert(single.filter(pred) =~= seq![orig[k as int]]);
                } else {
                    assert(single.filter(pred) =~= Seq::<Chromosomes>::empty());
                }
                assert(kept@ =~= orig.take(k as int).filter(pred) + single.filter(pred));
                assert(kept@ == orig.take(k + 1int).filter(pred));
            }
            k = k + 1;
        }
        proof {
            assert(orig.take(n as int) =~= orig);
        }
        new_chromosomes.append(&mut kept);
        proof {
            assert(new_chromosomes@ =~= orig.filter(pred));
        }
    }
}

} // verus!
