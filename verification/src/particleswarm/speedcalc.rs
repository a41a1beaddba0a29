//! The speed calculation interface: the same capability as the velocity
//! calculation, under the speed-based names that parts of the interface
//! carry.

use vstd::prelude::*;
use crate::particleswarm::{Particle, Swarm, Velocity};

verus! {

/// The trait that computes a new speed for a particle.
pub trait SpeedCalculator {
    fn calc_new_speed(&mut self, swarm: &Swarm, particle: &Particle) -> Velocity
        requires
            swarm.best_particle is Some,
    ;
}

/// The trait that yields the inertia coefficient for an iteration, as a float
/// bit pattern.
pub trait Inertia {
    fn get(&mut self, iteration: usize) -> u64;
}

/// An inertia coefficient that does not depend on the iteration.
pub struct ConstInertia {
    pub w: u64,
}

impl ConstInertia {
    /// Constructor: the coefficient, as a float bit pattern.
    pub fn new(w: u64) -> (r: ConstInertia)
        ensures
            r.w == w,
    {
        ConstInertia { w }
    }
}

impl Inertia for ConstInertia {
    fn get(&mut self, iteration: usize) -> (r: u64)
        ensures
            r == old(self).w,
            *final(self) == *old(self),
    {
        self.w
    }
}

} // verus!
