//! Mutation algorithms: they perturb the bit representation of genes, not
//! their arithmetic value, so a single mutation can produce an extreme point.

use vstd::prelude::*;
use crate::{Chromosomes, Gene};
use crate::exact::{draw_hits, draw_hits_spec};
use crate::genetic::Mutation;
use crate::rng::{random_below, random_u64};

verus! {

/// Flip a fixed number of uniformly chosen bits of a single gene.
pub struct BitwiseMutation {
    /// How many bit positions are flipped per mutation.
    pub change_gene_count: usize,
}

impl BitwiseMutation {
    /// Constructor: `change_gene_count` bits will be flipped per mutation.
    pub fn new(change_gene_count: usize) -> (r: BitwiseMutation)
        ensures
            r.change_gene_count == change_gene_count,
    {
        BitwiseMutation { change_gene_count }
    }
}

impl Mutation<Gene> for BitwiseMutation {
    fn mutation(&mut self, gene: &Gene) -> (r: Gene)
        ensures
            old(self).change_gene_count == 0 ==> r == gene,
            *final(self) == *old(self),
    {
        let mut bit_value: u64 = *gene;
        let mut k: usize = 0;
        while k < self.change_gene_count
            invariant
                *self == *old(self),
                k <= self.change_gene_count,
                self.change_gene_count == 0 ==> bit_value == gene,
            decreases self.change_gene_count - k,
        {
            let pos = random_below(64);
            let mask = 1u64 << (pos as u64);
            bit_value = bit_value ^ mask;
            k = k + 1;
        }
        bit_value
    }
}

/// Mutate a whole chromosome vector: each gene independently passes through
/// the single-gene mutation with the configured percentage probability, and
/// is copied through unchanged otherwise.
pub struct VecMutation<M> {
    /// The probability, in percent, that one gene mutates, as the bit pattern
    /// of a 64-bit float in the range zero to one hundred.
    pub probability: u64,
    pub single_mutation: M,
}

impl<M: Mutation<Gene>> VecMutation<M> {
    /// Constructor: `probability` is the percentage, as a float bit pattern,
    /// with which each gene mutates; `single_mutation` mutates one gene.
    pub fn new(probability: u64, single_mutation: M) -> (r: VecMutation<M>)
        ensures
            r.probability == probability,
            r.single_mutation == single_mutation,
    {
        VecMutation { probability, single_mutation }
    }
}

impl<M: Mutation<Gene>> Mutation<Chromosomes> for VecMutation<M> {
    fn mutation(&mut self, chromosomes: &Chromosomes) -> (r: Chromosomes)
        ensures
            r@.len() == chromosomes@.len(),
            final(self).probability == old(self).probability,
            // A draw of zero percent never hits: the vector passes unchanged.
            old(self).probability == 0 ==> r@ == chromosomes@,
    {
        let n = chromosomes.len();
        let mut result: Chromosomes = Vec::new();
        let mut k: usize = 0;
        while k < n
            invariant
                k <= n,
                n == chromosomes@.len(),
                result@.len() == k,
                self.probability == old(self).probability,
                self.probability == 0 ==> result@ == chromosomes@.take(k as int),
            decreases n - k,
        {
            let draw = random_u64();
            let gene = chromosomes[k];
            if draw_hits(draw, self.probability) {
                proof {
                    if self.probability == 0 {
                        assert(0u64 & 0x7FF0_0000_0000_0000u64 == 0u64) by (bit_vector);
                        assert(0u64 & 0x000F_FFFF_FFFF_FFFFu64 == 0u64) by (bit_vector);
                        assert(0u64 & 0x8000_0000_0000_0000u64 != 0x8000_0000_0000_0000u64)
                            by (bit_vector);
                        assert((0u64 & 0x7FF0_0000_0000_0000u64) >> 52u64 == 0u64) by (bit_vector);
                        assert(crate::exact::exp_field(0u64) == 0u64);
                        assert(crate::exact::mant_bits(0u64) == 0u64);
                        assert(crate::exact::mag2(0u64) == 0 * vstd::arithmetic::power2::pow2(0));
                        assert(crate::exact::mag2(0u64) == 0);
                        assert(100 * (draw as int) * vstd::arithmetic::power2::pow2(1010) >= 0)
                            by (nonlinear_arith);
                        assert(!draw_hits_spec(draw, 0u64));
                        assert(false);
                    }
                }
                let m = self.single_mutation.mutation(&gene);
                result.push(m);
            } else {
                result.push(gene);
            }
            proof {
                if self.probability == 0 {
                    assert(result@ =~= chromosomes@.take(k + 1int));
                }
            }
            k = k + 1;
        }
        proof {
            assert(chromosomes@.take(n as int) =~= chromosomes@);
        }
        result
    }
}

} // verus!
