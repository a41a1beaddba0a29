//! The velocity calculation interface and its inertia coefficients. The
//! concrete update formulas are real-number arithmetic and live with the
//! embedding; the engine consumes them through the trait.

use vstd::prelude::*;
use crate::particleswarm::{Particle, Swarm, Velocity};

verus! {

/// The trait that computes a new velocity for a particle, from the particle's
/// own history and the swarm's global best and worst.
pub trait VelocityCalculator {
    fn calc_new_velocity(&mut self, swarm: &Swarm, particle: &Particle) -> Velocity
        requires
            swarm.best_particle is Some,
    ;
}

/// The trait that yields the inertia coefficient for an iteration, as a float
/// bit pattern.
pub trait Inertia {
    fn get(&mut self, iteration: usize) -> u64;
}

/// An inertia coefficient that does not depend on the iteration.
pub struct ConstInertia {
    pub w: u64,
}

impl ConstInertia {
    /// Constructor: the coefficient, as a float bit pattern.
    pub fn new(w: u64) -> (r: ConstInertia)
        ensures
            r.w == w,
    {
        ConstInertia { w }
    }
}

impl Inertia for ConstInertia {
    fn get(&mut self, iteration: usize) -> (r: u64)
        ensures
            r == old(self).w,
            *final(self) == *old(self),
    {
        self.w
    }
}

} // verus!
