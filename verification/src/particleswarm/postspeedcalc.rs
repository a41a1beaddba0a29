//! Speed corrections: the same capability as the velocity corrections, under
//! the speed-based names that parts of the interface carry.

use vstd::prelude::*;
use crate::Gene;
use crate::bits::{abs_bits, le_ieee, with_sign_of};
use crate::particleswarm::postvelocitycalc::restricted;
use crate::particleswarm::Velocity;

verus! {

/// The trait that may adjust a freshly computed speed.
pub trait PostSpeedCalc {
    /// Must return the corrected speed.
    fn correct_speed(&mut self, speed: Velocity) -> Velocity;
}

/// Restrict the magnitude of every speed component to a per-dimension bound.
/// Extra components beyond the configured bounds are left alone.
pub struct MaxSpeedDimensions {
    /// The largest allowed magnitude per dimension, as float bit patterns.
    pub max_speed: Vec<Gene>,
}

impl MaxSpeedDimensions {
    /// Constructor.
    pub fn new(max_speed: Vec<Gene>) -> (r: MaxSpeedDimensions)
        ensures
            r.max_speed == max_speed,
    {
        MaxSpeedDimensions { max_speed }
    }
}

impl PostSpeedCalc for MaxSpeedDimensions {
    fn correct_speed(&mut self, speed: Velocity) -> (r: Velocity)
        ensures
            *final(self) == *old(self),
            r@.len() == speed@.len(),
            forall|i: int|
                0 <= i < speed@.len() ==> #[trigger] r@[i] == if i < old(self).max_speed@.len() {
                    restricted(speed@[i], old(self).max_speed@[i])
                } else {
                    speed@[i]
                },
    {
        let n = speed.len();
        let bound = if self.max_speed.len() < n {
            self.max_speed.len()
        } else {
            n
        };
        let mut result: Velocity = Vec::new();
        let mut k: usize = 0;
        while k < n
            invariant
                *self == *old(self),
                k <= n,
                n == speed@.len(),
                bound <= n,
                bound <= self.max_speed@.len(),
                n <= self.max_speed@.len() ==> bound == n,
                self.max_speed@.len() < n ==> bound == self.max_speed@.len(),
                result@.len() == k,
                forall|i: int|
                    0 <= i < k ==> #[trigger] result@[i] == if i < self.max_speed@.len() {
                        restricted(speed@[i], self.max_speed@[i])
                    } else {
                        speed@[i]
                    },
            decreases n - k,
        {
            let v = speed[k];
            if k < bound {
                let vmax = self.max_speed[k];
                let vabs = abs_bits(v);
                if le_ieee(vabs, vmax) {
                    result.push(v);
                } else {
                    result.push(with_sign_of(vmax, v));
                }
            } else {
                result.push(v);
            }
            k = k + 1;
        }
        result
    }
}

} // verus!
