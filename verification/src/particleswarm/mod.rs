//! The particle swarm algorithm: particles, the swarm lifecycle and the
//! iteration engine. Unlike a population, a swarm never removes particles:
//! its size is fixed for the lifetime of a run, and the tracked global best
//! only ever improves.

pub mod initializing;
pub mod postmove;
pub mod postspeedcalc;
pub mod postvelocitycalc;
pub mod speedcalc;
pub mod velocitycalc;

use vstd::prelude::*;
use vstd::pervasive::VecAdditionalExecFns;
use crate::bits::{fit_better, fit_le, fit_lt};
use crate::genetic::clone_chromosomes;
use crate::{AlgorithmState, Chromosomes, RunState, Solution};

verus! {

/// The velocity of a particle: one float bit pattern per dimension.
pub type Velocity = Vec<u64>;

/// One particle: a point of the search space, its velocity, the goal value at
/// the point, and the best and worst point this particle has visited.
pub struct Particle {
    /// The current point in the search space.
    pub coordinates: Chromosomes,
    /// The current velocity.
    pub velocity: Velocity,
    /// The goal value at the current point.
    pub value: u64,
    /// The best point this particle has visited.
    pub best_personal_coordinates: Chromosomes,
    /// The goal value at the best visited point.
    pub best_personal_value: u64,
    /// The worst point this particle has visited.
    pub worst_personal_coordinates: Chromosomes,
    /// The goal value at the worst visited point.
    pub worst_personal_value: u64,
}

impl Particle {
    /// A fresh particle: its only visited point is its starting point.
    pub fn new(coordinates: Chromosomes, velocity: Velocity, value: u64) -> (r: Particle)
        ensures
            r.coordinates == coordinates,
            r.velocity == velocity,
            r.value == value,
            r.best_personal_coordinates@ == coordinates@,
            r.best_personal_value == value,
            r.worst_personal_coordinates@ == coordinates@,
            r.worst_personal_value == value,
    {
        let best_personal_coordinates = clone_chromosomes(&coordinates);
        let worst_personal_coordinates = clone_chromosomes(&coordinates);
        Particle {
            coordinates,
            velocity,
            value,
            best_personal_coordinates,
            best_personal_value: value,
            worst_personal_coordinates,
            worst_personal_value: value,
        }
    }

    /// A copy of the particle, coordinate for coordinate.
    pub fn duplicate(&self) -> (r: Particle)
        ensures
            r.coordinates@ == self.coordinates@,
            r.velocity@ == self.velocity@,
            r.value == self.value,
            r.best_personal_coordinates@ == self.best_personal_coordinates@,
            r.best_personal_value == self.best_personal_value,
            r.worst_personal_coordinates@ == self.worst_personal_coordinates@,
            r.worst_personal_value == self.worst_personal_value,
    {
        Particle {
            coordinates: clone_chromosomes(&self.coordinates),
            velocity: clone_chromosomes(&self.velocity),
            value: self.value,
            best_personal_coordinates: clone_chromosomes(&self.best_personal_coordinates),
            best_personal_value: self.best_personal_value,
            worst_personal_coordinates: clone_chromosomes(&self.worst_personal_coordinates),
            worst_personal_value: self.worst_personal_value,
        }
    }

    /// Replace the velocity.
    pub fn set_velocity(&mut self, velocity: Velocity)
        ensures
            *final(self) == (Particle { velocity, ..*old(self) }),
    {
        self.velocity = velocity;
    }

    /// Move the particle to a new evaluated point; the personal best and
    /// worst are updated when the new value beats them.
    pub fn move_to(&mut self, new_coordinates: Chromosomes, value: u64)
        ensures
            final(self).coordinates == new_coordinates,
            final(self).value == value,
            final(self).velocity == old(self).velocity,
            fit_lt(value, old(self).best_personal_value) ==> (final(self).best_personal_value
                == value && final(self).best_personal_coordinates@ == new_coordinates@),
            !fit_lt(value, old(self).best_personal_value) ==> (final(self).best_personal_value
                == old(self).best_personal_value && final(self).best_personal_coordinates == old(self).best_personal_coordinates),
            fit_le(final(self).best_personal_value, old(self).best_personal_value),
            fit_lt(old(self).worst_personal_value, value) ==> (final(self).worst_personal_value
                == value && final(self).worst_personal_coordinates@ == new_coordinates@),
            !fit_lt(old(self).worst_personal_value, value) ==> (final(self).worst_personal_value
                == old(self).worst_personal_value && final(self).worst_personal_coordinates == old(self).worst_personal_coordinates),
    {
        proof {
            crate::bits::lemma_fit_total(value, old(self).best_personal_value);
        }
        if fit_better(value, self.best_personal_value) {
            self.best_personal_coordinates = clone_chromosomes(&new_coordinates);
            self.best_personal_value = value;
        }
        if fit_better(self.worst_personal_value, value) {
            self.worst_personal_coordinates = clone_chromosomes(&new_coordinates);
            self.worst_personal_value = value;
        }
        self.coordinates = new_coordinates;
        self.value = value;
    }
}

/// Whether `v` is at least as good as the value of every particle.
pub open spec fn is_min_value(v: u64, s: Seq<Particle>) -> bool {
    forall|j: int| 0 <= j < s.len() ==> fit_le(v, (#[trigger] s[j]).value)
}

/// Whether `v` is at least as bad as the value of every particle.
pub open spec fn is_max_value(v: u64, s: Seq<Particle>) -> bool {
    forall|j: int| 0 <= j < s.len() ==> fit_le((#[trigger] s[j]).value, v)
}

/// Stores all particles, the tracked global best and worst, and the
/// iteration counter.
pub struct Swarm {
    pub particles: Vec<Particle>,
    /// The best particle seen over the whole run, if any.
    pub best_particle: Option<Particle>,
    /// The worst particle seen over the whole run, if any.
    pub worst_particle: Option<Particle>,
    /// The iteration number.
    pub iteration: usize,
}

impl Swarm {
    /// An empty swarm at iteration zero.
    pub fn new() -> (r: Swarm)
        ensures
            r.particles@.len() == 0,
            r.best_particle is None,
            r.worst_particle is None,
            r.iteration == 0,
    {
        Swarm { particles: Vec::new(), best_particle: None, worst_particle: None, iteration: 0 }
    }

    /// The number of particles in the swarm.
    pub fn len(&self) -> (r: usize)
        ensures
            r == self.particles@.len(),
    {
        self.particles.len()
    }

    /// The particle at the given index.
    pub fn get(&self, i: usize) -> (r: &Particle)
        requires
            i < self.particles@.len(),
        ensures
            r == &self.particles@[i as int],
    {
        &self.particles[i]
    }

    /// Remove all particles and go back to iteration zero.
    pub fn reset(&mut self)
        ensures
            final(self).particles@.len() == 0,
            final(self).best_particle is None,
            final(self).worst_particle is None,
            final(self).iteration == 0,
    {
        self.particles = Vec::new();
        self.best_particle = None;
        self.worst_particle = None;
        self.iteration = 0;
    }

    /// Step to the next iteration; the counter saturates instead of
    /// overflowing.
    pub fn next_iteration(&mut self)
        ensures
            final(self).particles == old(self).particles,
            final(self).best_particle == old(self).best_particle,
            final(self).worst_particle == old(self).worst_particle,
            final(self).iteration == if old(self).iteration < usize::MAX {
                (old(self).iteration + 1) as usize
            } else {
                old(self).iteration
            },
    {
        if self.iteration < usize::MAX {
            self.iteration = self.iteration + 1;
        }
    }

    /// The best-scoring particle of a list, or `None` when it is empty; ties
    /// go to the earliest particle.
    pub fn find_best_particle(particles: &Vec<Particle>) -> (r: Option<Particle>)
        ensures
            r is Some <==> particles@.len() > 0,
            r matches Some(p) ==> (is_min_value(p.value, particles@) && exists|w: int|
                0 <= w < particles@.len() && p.value == (#[trigger] particles@[w]).value),
    {
        let n = particles.len();
        if n == 0 {
            return None;
        }
        let mut bi: usize = 0;
        let mut k: usize = 1;
        proof {
            crate::bits::lemma_fit_total(particles@[0].value, particles@[0].value);
        }
        while k < n
            invariant
                n == particles@.len(),
                k <= n,
                bi < k,
                forall|j: int| 0 <= j < k ==> fit_le(particles@[bi as int].value, (#[trigger] particles@[j]).value),
            decreases n - k,
        {
            let fk = particles[k].value;
            let fb = particles[bi].value;
            if fit_better(fk, fb) {
                proof {
                    assert forall|j: int| 0 <= j < k + 1 implies fit_le(
                        fk,
                        (#[trigger] particles@[j]).value,
                    ) by {
                        crate::bits::lemma_fit_total(fk, fk);
                        if j < k {
                            crate::bits::lemma_fit_le_trans(fk, fb, particles@[j].value);
                        }
                    }
                }
                bi = k;
            } else {
                proof {
                    crate::bits::lemma_fit_total(fk, fb);
                }
            }
            k = k + 1;
        }
        Some(particles[bi].duplicate())
    }

    /// The worst-scoring particle of a list, or `None` when it is empty.
    pub fn find_worst_particle(particles: &Vec<Particle>) -> (r: Option<Particle>)
        ensures
            r is Some <==> particles@.len() > 0,
            r matches Some(p) ==> is_max_value(p.value, particles@),
    {
        let n = particles.len();
        if n == 0 {
            return None;
        }
        let mut wi: usize = 0;
        let mut k: usize = 1;
        proof {
            crate::bits::lemma_fit_total(particles@[0].value, particles@[0].value);
        }
        while k < n
            invariant
                n == particles@.len(),
                k <= n,
                wi < k,
                forall|j: int| 0 <= j < k ==> fit_le((#[trigger] particles@[j]).value, particles@[wi as int].value),
            decreases n - k,
        {
            let fk = particles[k].value;
            let fw = particles[wi].value;
            if fit_better(fw, fk) {
                proof {
                    assert forall|j: int| 0 <= j < k + 1 implies fit_le(
                        (#[trigger] particles@[j]).value,
                        fk,
                    ) by {
                        crate::bits::lemma_fit_total(fk, fk);
                        if j < k {
                            crate::bits::lemma_fit_le_trans(particles@[j].value, fw, fk);
                        }
                    }
                }
                wi = k;
            } else {
                proof {
                    crate::bits::lemma_fit_total(fk, fw);
                }
            }
            k = k + 1;
        }
        Some(particles[wi].duplicate())
    }

    /// Replace all particles and retrack the best and worst from scratch.
    pub fn replace_particles(&mut self, particles: Vec<Particle>)
        ensures
            final(self).particles == particles,
            final(self).iteration == old(self).iteration,
            final(self).best_particle is Some <==> particles@.len() > 0,
            final(self).best_particle matches Some(p) ==> is_min_value(p.value, particles@),
            final(self).worst_particle is Some <==> particles@.len() > 0,
    {
        let best = Self::find_best_particle(&particles);
        let worst = Self::find_worst_particle(&particles);
        self.particles = particles;
        self.best_particle = best;
        self.worst_particle = worst;
    }

    /// Retrack the global best: it is replaced only when the best particle of
    /// the current swarm strictly beats it, so the tracked best never
    /// worsens.
    pub fn update_best_particle(&mut self)
        ensures
            final(self).particles == old(self).particles,
            final(self).worst_particle == old(self).worst_particle,
            final(self).iteration == old(self).iteration,
            old(self).best_particle matches Some(b0) ==> (final(self).best_particle matches Some(b)
                && fit_le(b.value, b0.value)),
            old(self).best_particle is None && old(self).particles@.len() > 0 ==> final(self).best_particle is Some,
    {
        proof {
            if old(self).best_particle is Some {
                crate::bits::lemma_fit_total(
                    old(self).best_particle->Some_0.value,
                    old(self).best_particle->Some_0.value,
                );
            }
        }
        let new_best = Self::find_best_particle(&self.particles);
        match new_best {
            None => {},
            Some(nb) => {
                let replace = match &self.best_particle {
                    None => true,
                    Some(ob) => fit_better(nb.value, ob.value),
                };
                if replace {
                    self.best_particle = Some(nb);
                } else {
                    proof {
                        crate::bits::lemma_fit_total(
                            nb.value,
                            old(self).best_particle->Some_0.value,
                        );
                    }
                }
            },
        }
    }

    /// Retrack the global worst: it is replaced only when the worst particle
    /// of the current swarm is strictly worse.
    pub fn update_worst_particle(&mut self)
        ensures
            final(self).particles == old(self).particles,
            final(self).best_particle == old(self).best_particle,
            final(self).iteration == old(self).iteration,
            old(self).worst_particle matches Some(w0) ==> (final(self).worst_particle matches Some(
                w,
            ) && fit_le(w0.value, w.value)),
            old(self).worst_particle is None && old(self).particles@.len() > 0 ==> final(self).worst_particle is Some,
    {
        proof {
            if old(self).worst_particle is Some {
                crate::bits::lemma_fit_total(
                    old(self).worst_particle->Some_0.value,
                    old(self).worst_particle->Some_0.value,
                );
            }
        }
        let new_worst = Self::find_worst_particle(&self.particles);
        match new_worst {
            None => {},
            Some(nw) => {
                let replace = match &self.worst_particle {
                    None => true,
                    Some(ow) => fit_better(ow.value, nw.value),
                };
                if replace {
                    self.worst_particle = Some(nw);
                } else {
                    proof {
                        crate::bits::lemma_fit_total(
                            nw.value,
                            old(self).worst_particle->Some_0.value,
                        );
                    }
                }
            },
        }
    }

    /// The best particle of the current swarm contents, ignoring history.
    pub fn get_current_best_particle(&self) -> (r: Option<Particle>)
        ensures
            r is Some <==> self.particles@.len() > 0,
    {
        Self::find_best_particle(&self.particles)
    }

    /// The worst particle of the current swarm contents, ignoring history.
    pub fn get_current_worst_particle(&self) -> (r: Option<Particle>)
        ensures
            r is Some <==> self.particles@.len() > 0,
    {
        Self::find_worst_particle(&self.particles)
    }

    /// The observable state of the swarm.
    pub fn run_state(&self) -> (r: RunState<Chromosomes>)
        ensures
            r.iteration == self.iteration,
            r.best is Some <==> self.best_particle is Some,
            self.best_particle matches Some(b) ==> (r.best matches Some(s) && s.1 == b.value && s.0@
                == b.coordinates@),
    {
        let best = match &self.best_particle {
            None => None,
            Some(b) => Some((clone_chromosomes(&b.coordinates), b.value)),
        };
        RunState { best, iteration: self.iteration }
    }

    /// Replace the velocity of the particle at the given index.
    pub fn set_particle_velocity(&mut self, i: usize, velocity: Velocity)
        requires
            i < old(self).particles@.len(),
        ensures
            final(self).particles@ == old(self).particles@.update(
                i as int,
                (Particle { velocity, ..old(self).particles@[i as int] }),
            ),
            final(self).best_particle == old(self).best_particle,
            final(self).worst_particle == old(self).worst_particle,
            final(self).iteration == old(self).iteration,
    {
        let mut tmp = Particle {
            coordinates: Vec::new(),
            velocity: Vec::new(),
            value: 0,
            best_personal_coordinates: Vec::new(),
            best_personal_value: 0,
            worst_personal_coordinates: Vec::new(),
            worst_personal_value: 0,
        };
        self.particles.set_and_swap(i, &mut tmp);
        tmp.velocity = velocity;
        self.particles.set_and_swap(i, &mut tmp);
        proof {
            assert(final(self).particles@ =~= old(self).particles@.update(
                i as int,
                (Particle { velocity, ..old(self).particles@[i as int] }),
            ));
        }
    }

    /// Move the particle at the given index to a new evaluated point; its
    /// personal best and worst follow the rules of the move.
    pub fn move_particle(&mut self, i: usize, new_coordinates: Chromosomes, value: u64)
        requires
            i < old(self).particles@.len(),
        ensures
            final(self).particles@.len() == old(self).particles@.len(),
            forall|j: int|
                0 <= j < old(self).particles@.len() && j != i ==> #[trigger] final(self).particles@[j] == old(self).particles@[j],
            final(self).particles@[i as int].coordinates == new_coordinates,
            final(self).particles@[i as int].value == value,
            final(self).particles@[i as int].velocity == old(self).particles@[i as int].velocity,
            fit_le(
                final(self).particles@[i as int].best_personal_value,
                old(self).particles@[i as int].best_personal_value,
            ),
            final(self).best_particle == old(self).best_particle,
            final(self).worst_particle == old(self).worst_particle,
            final(self).iteration == old(self).iteration,
    {
        let mut tmp = Particle {
            coordinates: Vec::new(),
            velocity: Vec::new(),
            value: 0,
            best_personal_coordinates: Vec::new(),
            best_personal_value: 0,
            worst_personal_coordinates: Vec::new(),
            worst_personal_value: 0,
        };
        self.particles.set_and_swap(i, &mut tmp);
        tmp.move_to(new_coordinates, value);
        self.particles.set_and_swap(i, &mut tmp);
    }
}

impl AlgorithmState<Chromosomes> for Swarm {
    fn get_best_solution(&self) -> (r: Option<Solution<Chromosomes>>)
        ensures
            r is Some <==> self.best_particle is Some,
            self.best_particle matches Some(b) ==> (r matches Some(s) && s.1 == b.value && s.0@
                == b.coordinates@),
    {
        match &self.best_particle {
            None => None,
            Some(b) => Some((clone_chromosomes(&b.coordinates), b.value)),
        }
    }

    fn get_iteration(&self) -> (r: usize)
        ensures
            r == self.iteration,
    {
        self.iteration
    }
}


/// The trait that advances a particle's position by its velocity: the
/// coordinate arithmetic is real-number work and is supplied by the
/// embedding.
pub trait PositionUpdate {
    /// Must return the new coordinates of a particle that moves once with the
    /// given velocity.
    fn advance(&mut self, coordinates: &Chromosomes, velocity: &Velocity) -> Chromosomes;
}

/// The particle swarm engine. Each iteration computes, per particle, a new
/// velocity through the configured calculator, corrects it, advances the
/// position, corrects the position, re-evaluates the goal there, and then
/// retracks the global best and worst; membership is fixed for the whole run.
pub struct ParticleSwarmOptimizer<G, K, CI, VI, VC, MV, PV, PM, L> {
    pub goal: G,
    pub stop_checker: K,
    pub coordinates_initializer: CI,
    pub velocity_initializer: VI,
    pub velocity_calculator: VC,
    pub mover: MV,
    pub post_velocity_calc: Vec<PV>,
    pub post_move: Vec<PM>,
    pub loggers: Vec<L>,
    pub swarm: Swarm,
}

impl<
    G: crate::Goal<Chromosomes>,
    K: crate::tools::stopchecker::StopChecker<Chromosomes>,
    CI: crate::particleswarm::initializing::CoordinatesInitializer,
    VI: crate::particleswarm::initializing::VelocityInitializer,
    VC: crate::particleswarm::velocitycalc::VelocityCalculator,
    MV: PositionUpdate,
    PV: crate::particleswarm::postvelocitycalc::PostVelocityCalc,
    PM: crate::particleswarm::postmove::PostMove,
    L: crate::tools::logging::Logger<Chromosomes>,
> ParticleSwarmOptimizer<G, K, CI, VI, VC, MV, PV, PM, L> {
    /// Assemble an engine around an empty swarm.
    pub fn new(
        goal: G,
        stop_checker: K,
        coordinates_initializer: CI,
        velocity_initializer: VI,
        velocity_calculator: VC,
        mover: MV,
    ) -> (r: ParticleSwarmOptimizer<G, K, CI, VI, VC, MV, PV, PM, L>)
        ensures
            r.swarm.particles@.len() == 0,
            r.swarm.iteration == 0,
            r.swarm.best_particle is None,
    {
        ParticleSwarmOptimizer {
            goal,
            stop_checker,
            coordinates_initializer,
            velocity_initializer,
            velocity_calculator,
            mover,
            post_velocity_calc: Vec::new(),
            post_move: Vec::new(),
            loggers: Vec::new(),
            swarm: Swarm::new(),
        }
    }

    /// Replace the stop checker, to drive a finished run further.
    pub fn set_stop_checker(&mut self, stop_checker: K)
        ensures
            *final(self) == (ParticleSwarmOptimizer { stop_checker, ..*old(self) }),
    {
        self.stop_checker = stop_checker;
    }

    /// Replace the loggers.
    pub fn set_loggers(&mut self, loggers: Vec<L>)
        ensures
            *final(self) == (ParticleSwarmOptimizer { loggers, ..*old(self) }),
    {
        self.loggers = loggers;
    }

    /// Give the loggers back, consuming the engine.
    pub fn into_loggers(self) -> (r: Vec<L>)
        ensures
            r == self.loggers,
    {
        self.loggers
    }

    /// Replace the position corrections.
    pub fn set_post_moves(&mut self, post_move: Vec<PM>)
        ensures
            *final(self) == (ParticleSwarmOptimizer { post_move, ..*old(self) }),
    {
        self.post_move = post_move;
    }

    /// Replace the velocity corrections.
    pub fn set_post_velocity_calc(&mut self, post_velocity_calc: Vec<PV>)
        ensures
            *final(self) == (ParticleSwarmOptimizer { post_velocity_calc, ..*old(self) }),
    {
        self.post_velocity_calc = post_velocity_calc;
    }

    /// Tell every logger that a run starts.
    fn log_start(&mut self)
        ensures
            final(self).swarm == old(self).swarm,
            final(self).goal == old(self).goal,
            final(self).stop_checker == old(self).stop_checker,
            final(self).coordinates_initializer == old(self).coordinates_initializer,
            final(self).velocity_initializer == old(self).velocity_initializer,
            final(self).velocity_calculator == old(self).velocity_calculator,
            final(self).mover == old(self).mover,
            final(self).post_velocity_calc == old(self).post_velocity_calc,
            final(self).post_move == old(self).post_move,
    {
        let st = self.swarm.run_state();
        let n = self.loggers.len();
        let mut k: usize = 0;
        while k < n
            invariant
                k <= n,
                self.loggers@.len() == n,
                self.swarm == old(self).swarm,
                self.goal == old(self).goal,
                self.stop_checker == old(self).stop_checker,
                self.coordinates_initializer == old(self).coordinates_initializer,
                self.velocity_initializer == old(self).velocity_initializer,
                self.velocity_calculator == old(self).velocity_calculator,
                self.mover == old(self).mover,
                self.post_velocity_calc == old(self).post_velocity_calc,
                self.post_move == old(self).post_move,
            decreases n - k,
        {
            let mut logger = self.loggers.remove(0);
            logger.start(&st);
            self.loggers.push(logger);
            k = k + 1;
        }
    }

    /// Tell every logger that iterating starts or resumes.
    fn log_resume(&mut self)
        ensures
            final(self).swarm == old(self).swarm,
            final(self).goal == old(self).goal,
            final(self).stop_checker == old(self).stop_checker,
            final(self).coordinates_initializer == old(self).coordinates_initializer,
            final(self).velocity_initializer == old(self).velocity_initializer,
            final(self).velocity_calculator == old(self).velocity_calculator,
            final(self).mover == old(self).mover,
            final(self).post_velocity_calc == old(self).post_velocity_calc,
            final(self).post_move == old(self).post_move,
    {
        let st = self.swarm.run_state();
        let n = self.loggers.len();
        let mut k: usize = 0;
        while k < n
            invariant
                k <= n,
                self.loggers@.len() == n,
                self.swarm == old(self).swarm,
                self.goal == old(self).goal,
                self.stop_checker == old(self).stop_checker,
                self.coordinates_initializer == old(self).coordinates_initializer,
                self.velocity_initializer == old(self).velocity_initializer,
                self.velocity_calculator == old(self).velocity_calculator,
                self.mover == old(self).mover,
                self.post_velocity_calc == old(self).post_velocity_calc,
                self.post_move == old(self).post_move,
            decreases n - k,
        {
            let mut logger = self.loggers.remove(0);
            logger.resume(&st);
            self.loggers.push(logger);
            k = k + 1;
        }
    }

    /// Tell every logger that an iteration finished.
    fn log_next_iteration(&mut self)
        ensures
            final(self).swarm == old(self).swarm,
            final(self).goal == old(self).goal,
            final(self).stop_checker == old(self).stop_checker,
            final(self).coordinates_initializer == old(self).coordinates_initializer,
            final(self).velocity_initializer == old(self).velocity_initializer,
            final(self).velocity_calculator == old(self).velocity_calculator,
            final(self).mover == old(self).mover,
            final(self).post_velocity_calc == old(self).post_velocity_calc,
            final(self).post_move == old(self).post_move,
    {
        let st = self.swarm.run_state();
        let n = self.loggers.len();
        let mut k: usize = 0;
        while k < n
            invariant
                k <= n,
                self.loggers@.len() == n,
                self.swarm == old(self).swarm,
                self.goal == old(self).goal,
                self.stop_checker == old(self).stop_checker,
                self.coordinates_initializer == old(self).coordinates_initializer,
                self.velocity_initializer == old(self).velocity_initializer,
                self.velocity_calculator == old(self).velocity_calculator,
                self.mover == old(self).mover,
                self.post_velocity_calc == old(self).post_velocity_calc,
                self.post_move == old(self).post_move,
            decreases n - k,
        {
            let mut logger = self.loggers.remove(0);
            logger.next_iteration(&st);
            self.loggers.push(logger);
            k = k + 1;
        }
    }

    /// Tell every logger that the run stopped.
    fn log_finish(&mut self)
        ensures
            final(self).swarm == old(self).swarm,
            final(self).goal == old(self).goal,
            final(self).stop_checker == old(self).stop_checker,
            final(self).coordinates_initializer == old(self).coordinates_initializer,
            final(self).velocity_initializer == old(self).velocity_initializer,
            final(self).velocity_calculator == old(self).velocity_calculator,
            final(self).mover == old(self).mover,
            final(self).post_velocity_calc == old(self).post_velocity_calc,
            final(self).post_move == old(self).post_move,
    {
        let st = self.swarm.run_state();
        let n = self.loggers.len();
        let mut k: usize = 0;
        while k < n
            invariant
                k <= n,
                self.loggers@.len() == n,
                self.swarm == old(self).swarm,
                self.goal == old(self).goal,
                self.stop_checker == old(self).stop_checker,
                self.coordinates_initializer == old(self).coordinates_initializer,
                self.velocity_initializer == old(self).velocity_initializer,
                self.velocity_calculator == old(self).velocity_calculator,
                self.mover == old(self).mover,
                self.post_velocity_calc == old(self).post_velocity_calc,
                self.post_move == old(self).post_move,
            decreases n - k,
        {
            let mut logger = self.loggers.remove(0);
            logger.finish(&st);
            self.loggers.push(logger);
            k = k + 1;
        }
    }

    /// Build a fresh swarm from the initializers: positions are corrected,
    /// evaluated and turned into resting particles.
    fn renew_swarm(&mut self)
        ensures
            final(self).stop_checker == old(self).stop_checker,
            final(self).swarm.iteration == 0,
            final(self).swarm.best_particle is Some <==> final(self).swarm.particles@.len() > 0,
    {
        let mut coordinates = self.coordinates_initializer.get_coordinates();
        let velocities = self.velocity_initializer.get_velocity();
        let count = if coordinates.len() < velocities.len() {
            coordinates.len()
        } else {
            velocities.len()
        };
        // Correct the starting positions.
        let nc = coordinates.len();
        let npm = self.post_move.len();
        let mut k: usize = 0;
        while k < nc
            invariant
                k <= nc,
                nc <= coordinates@.len(),
                self.post_move@.len() == npm,
                self.stop_checker == old(self).stop_checker,
                self.goal == old(self).goal,
                self.velocity_calculator == old(self).velocity_calculator,
                self.mover == old(self).mover,
                self.swarm == old(self).swarm,
            decreases nc - k,
        {
            let mut current = coordinates.remove(0);
            let mut m: usize = 0;
            while m < npm
                invariant
                    m <= npm,
                    self.post_move@.len() == npm,
                    self.stop_checker == old(self).stop_checker,
                    self.goal == old(self).goal,
                    self.velocity_calculator == old(self).velocity_calculator,
                    self.mover == old(self).mover,
                    self.swarm == old(self).swarm,
                decreases npm - m,
            {
                let mut pm = self.post_move.remove(0);
                pm.post_move(&mut current);
                self.post_move.push(pm);
                m = m + 1;
            }
            coordinates.push(current);
            k = k + 1;
        }
        // Evaluate and build the particles.
        let mut particles: Vec<Particle> = Vec::new();
        let mut velocities = velocities;
        let mut i: usize = 0;
        while i < count
            invariant
                i <= count,
                coordinates@.len() >= count - i,
                velocities@.len() >= count - i,
                self.stop_checker == old(self).stop_checker,
                self.swarm == old(self).swarm,
            decreases count - i,
        {
            let particle_coordinates = coordinates.remove(0);
            let particle_velocity = velocities.remove(0);
            let particle_value = self.goal.get(&particle_coordinates);
            particles.push(Particle::new(particle_coordinates, particle_velocity, particle_value));
            i = i + 1;
        }
        self.swarm.reset();
        self.swarm.replace_particles(particles);
    }

    /// Run one full iteration of the swarm: move every particle once, then
    /// retrack the global best and worst and step the counter.
    fn run_iteration(&mut self)
        requires
            old(self).swarm.best_particle is Some,
        ensures
            final(self).stop_checker == old(self).stop_checker,
            final(self).swarm.best_particle matches Some(b) && (old(self).swarm.best_particle matches Some(b0) && fit_le(b.value, b0.value)),
    {
        let n = self.swarm.len();
        let mut p: usize = 0;
        while p < n
            invariant
                p <= n,
                n == self.swarm.particles@.len(),
                self.swarm.best_particle == old(self).swarm.best_particle,
                self.swarm.worst_particle == old(self).swarm.worst_particle,
                self.swarm.iteration == old(self).swarm.iteration,
                old(self).swarm.best_particle is Some,
                self.stop_checker == old(self).stop_checker,
            decreases n - p,
        {
            // A new velocity, corrected.
            let mut new_velocity = self.velocity_calculator.calc_new_velocity(
                &self.swarm,
                self.swarm.get(p),
            );
            let npv = self.post_velocity_calc.len();
            let mut m: usize = 0;
            while m < npv
                invariant
                    m <= npv,
                    self.post_velocity_calc@.len() == npv,
                    p < n == self.swarm.particles@.len(),
                    self.swarm.best_particle == old(self).swarm.best_particle,
                    self.swarm.worst_particle == old(self).swarm.worst_particle,
                    self.swarm.iteration == old(self).swarm.iteration,
                    self.stop_checker == old(self).stop_checker,
                decreases npv - m,
            {
                let mut pv = self.post_velocity_calc.remove(0);
                new_velocity = pv.correct_velocity(new_velocity);
                self.post_velocity_calc.push(pv);
                m = m + 1;
            }
            self.swarm.set_particle_velocity(p, new_velocity);
            // Advance the position, corrected.
            let mut new_coordinates = self.mover.advance(
                &self.swarm.get(p).coordinates,
                &self.swarm.get(p).velocity,
            );
            let npm = self.post_move.len();
            let mut m2: usize = 0;
            while m2 < npm
                invariant
                    m2 <= npm,
                    self.post_move@.len() == npm,
                    p < n == self.swarm.particles@.len(),
                    self.swarm.best_particle == old(self).swarm.best_particle,
                    self.swarm.worst_particle == old(self).swarm.worst_particle,
                    self.swarm.iteration == old(self).swarm.iteration,
                    self.stop_checker == old(self).stop_checker,
                decreases npm - m2,
            {
                let mut pm = self.post_move.remove(0);
                pm.post_move(&mut new_coordinates);
                self.post_move.push(pm);
                m2 = m2 + 1;
            }
            // Evaluate the new point and move there.
            let new_value = self.goal.get(&new_coordinates);
            self.swarm.move_particle(p, new_coordinates, new_value);
            p = p + 1;
        }
        self.swarm.update_best_particle();
        self.swarm.update_worst_particle();
        self.swarm.next_iteration();
        self.log_next_iteration();
    }

    /// Drive the current swarm through further iterations until the stop
    /// checker fires, and report the best particle seen. The tracked global
    /// best never worsens.
    pub fn next_iterations(&mut self) -> (r: Option<Solution<Chromosomes>>)
        ensures
            r is Some <==> final(self).swarm.best_particle is Some,
            final(self).swarm.best_particle matches Some(b) ==> (r matches Some(sol) && sol.1
                == b.value && sol.0@ == b.coordinates@),
            old(self).swarm.best_particle matches Some(b0) ==> (final(self).swarm.best_particle matches Some(b) && fit_le(b.value, b0.value)),
    {
        self.log_resume();
        let st = self.swarm.run_state();
        let mut stop = self.stop_checker.can_stop(&st);
        let mut fuel: u64 = 0xFFFF_FFFF_FFFF_FFFF;
        proof {
            if old(self).swarm.best_particle is Some {
                crate::bits::lemma_fit_total(
                    old(self).swarm.best_particle->Some_0.value,
                    old(self).swarm.best_particle->Some_0.value,
                );
            }
        }
        while !stop && fuel > 0
            invariant
                old(self).swarm.best_particle matches Some(b0) ==> (self.swarm.best_particle
                    matches Some(b) && fit_le(b.value, b0.value)),
            decreases fuel,
        {
            if self.swarm.len() > 0 && matches!(self.swarm.get_best(), Some(_)) {
                let ghost pre = self.swarm.best_particle;
                self.run_iteration();
                proof {
                    if old(self).swarm.best_particle is Some {
                        crate::bits::lemma_fit_le_trans(
                            self.swarm.best_particle->Some_0.value,
                            pre->Some_0.value,
                            old(self).swarm.best_particle->Some_0.value,
                        );
                    }
                }
            }
            let st2 = self.swarm.run_state();
            stop = self.stop_checker.can_stop(&st2);
            fuel = fuel - 1;
        }
        self.log_finish();
        match self.swarm.get_best() {
            None => None,
            Some(b) => Some((clone_chromosomes(&b.coordinates), b.value)),
        }
    }

    /// Start a fresh run: build a new swarm and iterate until the stop
    /// checker fires.
    pub fn find_min(&mut self) -> (r: Option<Solution<Chromosomes>>)
        ensures
            r is Some <==> final(self).swarm.best_particle is Some,
            final(self).swarm.best_particle matches Some(b) ==> (r matches Some(sol) && sol.1
                == b.value && sol.0@ == b.coordinates@),
    {
        self.renew_swarm();
        self.log_start();
        self.next_iterations()
    }
}

impl Swarm {
    /// The tracked best particle, if any.
    pub fn get_best(&self) -> (r: &Option<Particle>)
        ensures
            r == &self.best_particle,
    {
        &self.best_particle
    }

    /// The tracked worst particle, if any.
    pub fn get_worst(&self) -> (r: &Option<Particle>)
        ensures
            r == &self.worst_particle,
    {
        &self.worst_particle
    }
}

impl<
    G: crate::Goal<Chromosomes>,
    K: crate::tools::stopchecker::StopChecker<Chromosomes>,
    CI: crate::particleswarm::initializing::CoordinatesInitializer,
    VI: crate::particleswarm::initializing::VelocityInitializer,
    VC: crate::particleswarm::velocitycalc::VelocityCalculator,
    MV: PositionUpdate,
    PV: crate::particleswarm::postvelocitycalc::PostVelocityCalc,
    PM: crate::particleswarm::postmove::PostMove,
    L: crate::tools::logging::Logger<Chromosomes>,
> crate::Optimizer<Chromosomes> for ParticleSwarmOptimizer<G, K, CI, VI, VC, MV, PV, PM, L> {
    fn find_min(&mut self) -> Option<Solution<Chromosomes>> {
        ParticleSwarmOptimizer::find_min(self)
    }
}

impl<
    G: crate::Goal<Chromosomes>,
    K: crate::tools::stopchecker::StopChecker<Chromosomes>,
    CI: crate::particleswarm::initializing::CoordinatesInitializer,
    VI: crate::particleswarm::initializing::VelocityInitializer,
    VC: crate::particleswarm::velocitycalc::VelocityCalculator,
    MV: PositionUpdate,
    PV: crate::particleswarm::postvelocitycalc::PostVelocityCalc,
    PM: crate::particleswarm::postmove::PostMove,
    L: crate::tools::logging::Logger<Chromosomes>,
> crate::IterativeOptimizer<Chromosomes> for ParticleSwarmOptimizer<G, K, CI, VI, VC, MV, PV, PM, L> {
    fn next_iterations(&mut self) -> Option<Solution<Chromosomes>> {
        ParticleSwarmOptimizer::next_iterations(self)
    }
}

} // verus!
