//! Position corrections applied after a particle moves and before the goal
//! function is evaluated at the new point.

use vstd::prelude::*;
use crate::bits::{bits_finite, ieee_le, is_finite_bits, le_ieee};
use crate::{Chromosomes, Gene};

verus! {

/// The trait that may adjust a particle's coordinates after a move.
pub trait PostMove {
    /// May modify the coordinates before the goal function is evaluated.
    fn post_move(&mut self, coordinates: &mut Chromosomes);
}

/// Clamp every coordinate into its configured interval: a coordinate that is
/// not finite or lies below the interval becomes the lower bound, one above
/// the interval becomes the upper bound. Extra dimensions beyond the
/// configured intervals are left alone.
pub struct MoveToBoundary {
    /// The allowed interval of every dimension, as float bit patterns.
    pub intervals: Vec<(Gene, Gene)>,
}

impl MoveToBoundary {
    /// Constructor: one `(lowest, highest)` interval per dimension.
    pub fn new(intervals: Vec<(Gene, Gene)>) -> (r: MoveToBoundary)
        ensures
            r.intervals == intervals,
    {
        MoveToBoundary { intervals }
    }
}

/// What clamping one coordinate into an interval yields.
pub open spec fn clamped(c: Gene, lo: Gene, hi: Gene) -> Gene {
    let base = if !is_finite_bits(c) {
        lo
    } else {
        c
    };
    let low_done = if !ieee_le(lo, base) {
        lo
    } else {
        base
    };
    if !ieee_le(low_done, hi) {
        hi
    } else {
        low_done
    }
}

impl PostMove for MoveToBoundary {
    fn post_move(&mut self, coordinates: &mut Chromosomes)
        ensures
            *final(self) == *old(self),
            final(coordinates)@.len() == old(coordinates)@.len(),
            forall|i: int|
                0 <= i < old(coordinates)@.len() ==> #[trigger] final(coordinates)@[i]
                    == if i < old(self).intervals@.len() {
                    clamped(
                        old(coordinates)@[i],
                        old(self).intervals@[i].0,
                        old(self).intervals@[i].1,
                    )
                } else {
                    old(coordinates)@[i]
                },
    {
        let n = coordinates.len();
        let bound = if self.intervals.len() < n {
            self.intervals.len()
        } else {
            n
        };
        let mut k: usize = 0;
        while k < bound
            invariant
                *self == *old(self),
                k <= bound,
                bound <= n == coordinates@.len() == old(coordinates)@.len(),
                bound <= self.intervals@.len(),
                forall|i: int|
                    0 <= i < k ==> #[trigger] coordinates@[i] == clamped(
                        old(coordinates)@[i],
                        self.intervals@[i].0,
                        self.intervals@[i].1,
                    ),
                forall|i: int| k <= i < n ==> #[trigger] coordinates@[i] == old(coordinates)@[i],
            decreases bound - k,
        {
            let lo = self.intervals[k].0;
            let hi = self.intervals[k].1;
            let mut c = coordinates[k];
            if !bits_finite(c) {
                c = lo;
            }
            if !le_ieee(lo, c) {
                c = lo;
            }
            if !le_ieee(c, hi) {
                c = hi;
            }
            coordinates.set(k, c);
            k = k + 1;
        }
    }
}

} // verus!
