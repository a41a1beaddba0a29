//! Pairing algorithms: they select the groups of parents for recombination.

use vstd::prelude::*;
use crate::bits::fit_better;
use crate::genetic::{Pairing, Population};
use crate::rng::random_below;

verus! {

/// Pairing that draws random pairs of parents, uniformly with replacement;
/// one pair for every two individuals of the population.
pub struct RandomPairing;

impl RandomPairing {
    /// Constructor.
    pub fn new() -> RandomPairing {
        RandomPairing
    }
}

impl Pairing for RandomPairing {
    fn get_pairs(&mut self, population: &Population) -> (pairs: Vec<Vec<usize>>)
        ensures
            pairs@.len() == population.individuals@.len() / 2,
            forall|p: int| 0 <= p < pairs@.len() ==> (#[trigger] pairs@[p])@.len() == 2,
    {
        let n = population.len();
        let count = n / 2;
        let mut pairs: Vec<Vec<usize>> = Vec::new();
        let mut k: usize = 0;
        while k < count
            invariant
                n == population.individuals@.len(),
                n > 0,
                k <= count,
                count == n / 2,
                pairs@.len() == k,
                forall|p: int| 0 <= p < pairs@.len() ==> (#[trigger] pairs@[p])@.len() == 2,
                forall|p: int, q: int|
                    0 <= p < pairs@.len() && 0 <= q < pairs@[p]@.len() ==> #[trigger] pairs@[p]@[q]
                        < n,
            decreases count - k,
        {
            let first = random_below(n);
            let second = random_below(n);
            let mut pair: Vec<usize> = Vec::new();
            pair.push(first);
            pair.push(second);
            pairs.push(pair);
            k = k + 1;
        }
        pairs
    }
}

/// Tournament pairing: every parent is the winner of a run of random duels.
/// For each of `families_count` families it draws `partners_count` winners; a
/// winner starts as a random individual and then survives `rounds_count`
/// rounds, each against a fresh random challenger, keeping whichever of the
/// two has the better score. More rounds mean more selection pressure; a
/// single round degenerates to keeping the better of two random picks.
pub struct Tournament {
    pub families_count: usize,
    pub partners_count: usize,
    pub rounds_count: usize,
}

impl Tournament {
    /// Constructor.
    ///
    /// `families_count` - how many families to select for crossing.
    pub fn new(families_count: usize) -> (r: Tournament)
        ensures
            r.families_count == families_count,
            r.partners_count == 2,
            r.rounds_count == 1,
    {
        Tournament { families_count, partners_count: 2, rounds_count: 1 }
    }

    /// Set the partners count for every family. The default is two.
    pub fn partners_count(self, count: usize) -> (r: Tournament)
        ensures
            r.families_count == self.families_count,
            r.partners_count == count,
            r.rounds_count == self.rounds_count,
    {
        Tournament { partners_count: count, ..self }
    }

    /// Set how many challengers a winner must beat. The default is one.
    pub fn rounds_count(self, count: usize) -> (r: Tournament)
        ensures
            r.families_count == self.families_count,
            r.partners_count == self.partners_count,
            r.rounds_count == count,
    {
        Tournament { rounds_count: count, ..self }
    }
}

impl Pairing for Tournament {
    fn get_pairs(&mut self, population: &Population) -> (pairs: Vec<Vec<usize>>)
        ensures
            pairs@.len() == old(self).families_count,
            forall|p: int|
                0 <= p < pairs@.len() ==> (#[trigger] pairs@[p])@.len() == old(self).partners_count,
            *final(self) == *old(self),
    {
        let n = population.len();
        let mut pairs: Vec<Vec<usize>> = Vec::new();
        let mut fam: usize = 0;
        while fam < self.families_count
            invariant
                n == population.individuals@.len(),
                n > 0,
                fam <= self.families_count,
                *self == *old(self),
                pairs@.len() == fam,
                forall|p: int|
                    0 <= p < pairs@.len() ==> (#[trigger] pairs@[p])@.len() == self.partners_count,
                forall|p: int, q: int|
                    0 <= p < pairs@.len() && 0 <= q < pairs@[p]@.len() ==> #[trigger] pairs@[p]@[q]
                        < n,
            decreases self.families_count - fam,
        {
            let mut family: Vec<usize> = Vec::new();
            let mut partner: usize = 0;
            while partner < self.partners_count
                invariant
                    n == population.individuals@.len(),
                    n > 0,
                    partner <= self.partners_count,
                    *self == *old(self),
                    family@.len() == partner,
                    forall|q: int| 0 <= q < family@.len() ==> #[trigger] family@[q] < n,
                decreases self.partners_count - partner,
            {
                let mut best_ind_index = random_below(n);
                let mut round: usize = 0;
                while round < self.rounds_count
                    invariant
                        n == population.individuals@.len(),
                        n > 0,
                        *self == *old(self),
                        best_ind_index < n,
                    decreases self.rounds_count - round,
                {
                    let challenger = random_below(n);
                    let fc = population.get(challenger).get_fitness();
                    let fb = population.get(best_ind_index).get_fitness();
                    if fit_better(fc, fb) {
                        best_ind_index = challenger;
                    }
                    round = round + 1;
                }
                family.push(best_ind_index);
                partner = partner + 1;
            }
            pairs.push(family);
            fam = fam + 1;
        }
        pairs
    }
}

} // verus!
