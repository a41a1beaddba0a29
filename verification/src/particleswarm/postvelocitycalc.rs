//! Velocity corrections applied after the velocity calculator and before the
//! particle moves.

use vstd::prelude::*;
use crate::Gene;
use crate::bits::{abs_bits, ieee_le, le_ieee, with_sign_of, MAG_MASK};
use crate::particleswarm::Velocity;

verus! {

/// The trait that may adjust a freshly computed velocity.
pub trait PostVelocityCalc {
    /// Must return the corrected velocity.
    fn correct_velocity(&mut self, velocity: Velocity) -> Velocity;
}

/// What restricting one velocity component to a magnitude bound yields: the
/// component itself while its magnitude stays within the bound, else the
/// bound's magnitude carrying the component's sign.
pub open spec fn restricted(v: Gene, bound: Gene) -> Gene {
    if ieee_le(v & MAG_MASK, bound) {
        v
    } else {
        (bound & MAG_MASK) | (v & 0x8000_0000_0000_0000u64)
    }
}

/// Restrict the magnitude of every velocity component to a per-dimension
/// bound. Extra components beyond the configured bounds are left alone.
pub struct MaxVelocityDimensions {
    /// The largest allowed magnitude per dimension, as float bit patterns.
    pub max_velocity: Vec<Gene>,
}

impl MaxVelocityDimensions {
    /// Constructor.
    pub fn new(max_velocity: Vec<Gene>) -> (r: MaxVelocityDimensions)
        ensures
            r.max_velocity == max_velocity,
    {
        MaxVelocityDimensions { max_velocity }
    }
}

impl PostVelocityCalc for MaxVelocityDimensions {
    fn correct_velocity(&mut self, velocity: Velocity) -> (r: Velocity)
        ensures
            *final(self) == *old(self),
            r@.len() == velocity@.len(),
            forall|i: int|
                0 <= i < velocity@.len() ==> #[trigger] r@[i] == if i < old(
                    self,
                ).max_velocity@.len() {
                    restricted(velocity@[i], old(self).max_velocity@[i])
                } else {
                    velocity@[i]
                },
    {
        let n = velocity.len();
        let bound = if self.max_velocity.len() < n {
            self.max_velocity.len()
        } else {
            n
        };
        let mut result: Velocity = Vec::new();
        let mut k: usize = 0;
        while k < n
            invariant
                *self == *old(self),
                k <= n,
                n == velocity@.len(),
                bound <= n,
                bound <= self.max_velocity@.len(),
                n <= self.max_velocity@.len() ==> bound == n,
                self.max_velocity@.len() < n ==> bound == self.max_velocity@.len(),
                result@.len() == k,
                forall|i: int|
                    0 <= i < k ==> #[trigger] result@[i] == if i < self.max_velocity@.len() {
                        restricted(velocity@[i], self.max_velocity@[i])
                    } else {
                        velocity@[i]
                    },
            decreases n - k,
        {
            let v = velocity[k];
            if k < bound {
                let vmax = self.max_velocity[k];
                let vabs = abs_bits(v);
                if le_ieee(vabs, vmax) {
                    result.push(v);
                } else {
                    result.push(with_sign_of(vmax, v));
                }
            } else {
                result.push(v);
            }
            k = k + 1;
        }
        result
    }
}

} // verus!
