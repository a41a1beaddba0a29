//! Initializers for the starting coordinates and velocities of a swarm.

use vstd::prelude::*;
use crate::Chromosomes;
use crate::particleswarm::Velocity;

verus! {

/// The trait that creates the starting points of a new swarm's particles.
pub trait CoordinatesInitializer {
    /// Must return one coordinate vector per new particle.
    fn get_coordinates(&mut self) -> Vec<Chromosomes>;
}

/// The trait that creates the starting velocities of a new swarm's particles.
pub trait VelocityInitializer {
    /// Must return one velocity vector per new particle.
    fn get_velocity(&mut self) -> Vec<Velocity>;
}

/// Start every particle at rest: all velocities zero.
pub struct ZeroVelocityInitializer {
    pub dimension: usize,
    pub particles_count: usize,
}

impl ZeroVelocityInitializer {
    /// Zero velocities for `particles_count` particles of the given
    /// dimension.
    pub fn new(dimension: usize, particles_count: usize) -> (r: ZeroVelocityInitializer)
        ensures
            r.dimension == dimension,
            r.particles_count == particles_count,
    {
        ZeroVelocityInitializer { dimension, particles_count }
    }
}

impl VelocityInitializer for ZeroVelocityInitializer {
    fn get_velocity(&mut self) -> (r: Vec<Velocity>)
        ensures
            r@.len() == old(self).particles_count,
            forall|i: int|
                0 <= i < r@.len() ==> (#[trigger] r@[i])@.len() == old(self).dimension,
            forall|i: int, j: int|
                0 <= i < r@.len() && 0 <= j < r@[i]@.len() ==> #[trigger] r@[i]@[j] == 0u64,
    {
        let mut velocities: Vec<Velocity> = Vec::new();
        let mut k: usize = 0;
        while k < self.particles_count
            invariant
                *self == *old(self),
                k <= self.particles_count,
                velocities@.len() == k,
                forall|i: int|
                    0 <= i < k ==> (#[trigger] velocities@[i])@.len() == self.dimension,
                forall|i: int, j: int|
                    0 <= i < k && 0 <= j < velocities@[i]@.len() ==> #[trigger] velocities@[i]@[j]
                        == 0u64,
            decreases self.particles_count - k,
        {
            let mut v: Velocity = Vec::new();
            let mut d: usize = 0;
            while d < self.dimension
                invariant
                    *self == *old(self),
                    d <= self.dimension,
                    v@.len() == d,
                    forall|j: int| 0 <= j < d ==> #[trigger] v@[j] == 0u64,
                decreases self.dimension - d,
            {
                v.push(0);
                d = d + 1;
            }
            velocities.push(v);
            k = k + 1;
        }
        velocities
    }
}

} // verus!
