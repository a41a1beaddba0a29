//! An end-to-end run of the particle swarm engine on a shifted paraboloid.

use rand::Rng;

use optlib::particleswarm::initializing::{CoordinatesInitializer, ZeroVelocityInitializer};
use optlib::particleswarm::postmove::MoveToBoundary;
use optlib::particleswarm::postvelocitycalc::MaxVelocityDimensions;
use optlib::particleswarm::velocitycalc::VelocityCalculator;
use optlib::particleswarm::{Particle, ParticleSwarmOptimizer, PositionUpdate, Swarm, Velocity};
use optlib::tools::logging::NullLogger;
use optlib::tools::stopchecker::{
    AnyStopChecker, CompositeAny, GoalNotChange, MaxIterations, Threshold,
};
use optlib::{Chromosomes, Goal};

fn b(x: f64) -> u64 {
    x.to_bits()
}

/// The shifted paraboloid: its minimum of zero sits at `(1, 2, ..., n)`.
struct Paraboloid;

impl Goal<Chromosomes> for Paraboloid {
    fn get(&mut self, x: &Chromosomes) -> u64 {
        let mut result = 0.0_f64;
        for (n, bits) in x.iter().enumerate() {
            let v = f64::from_bits(*bits);
            result += (v - (n as f64 + 1.0)) * (v - (n as f64 + 1.0));
        }
        result.to_bits()
    }
}

/// Starts every particle at a uniformly random point of the box.
struct RandomCoordinatesInitializer {
    intervals: Vec<(f64, f64)>,
    particles_count: usize,
}

impl CoordinatesInitializer for RandomCoordinatesInitializer {
    fn get_coordinates(&mut self) -> Vec<Chromosomes> {
        let mut rng = rand::thread_rng();
        (0..self.particles_count)
            .map(|_| {
                self.intervals
                    .iter()
                    .map(|&(lo, hi)| rng.gen_range(lo..=hi).to_bits())
                    .collect()
            })
            .collect()
    }
}

/// The canonical velocity update: a constriction factor over the personal and
/// global attraction terms, with fresh random weights per dimension.
struct CanonicalVelocityCalculator {
    phi_personal: f64,
    phi_global: f64,
    xi: f64,
}

impl CanonicalVelocityCalculator {
    fn new(phi_personal: f64, phi_global: f64, alpha: f64) -> Self {
        assert!(phi_personal + phi_global > 4.0);
        assert!(alpha > 0.0 && alpha < 1.0);
        let phi = phi_personal + phi_global;
        Self { phi_personal, phi_global, xi: 2.0 * alpha / (phi - 2.0) }
    }
}

impl VelocityCalculator for CanonicalVelocityCalculator {
    fn calc_new_velocity(&mut self, swarm: &Swarm, particle: &Particle) -> Velocity {
        let mut rng = rand::thread_rng();
        let global_best = swarm.get_best().as_ref().unwrap();
        let dimension = particle.coordinates.len();
        (0..dimension)
            .map(|i| {
                let x = f64::from_bits(particle.coordinates[i]);
                let v = f64::from_bits(particle.velocity[i]);
                let p = f64::from_bits(particle.best_personal_coordinates[i]);
                let g = f64::from_bits(global_best.coordinates[i]);
                let r_personal: f64 = rng.gen_range(0.0..=1.0);
                let r_global: f64 = rng.gen_range(0.0..=1.0);
                let item = self.xi
                    * (v + self.phi_personal * r_personal * (p - x)
                        + self.phi_global * r_global * (g - x));
                item.to_bits()
            })
            .collect()
    }
}

/// Coordinate arithmetic for the verified engine: one step of plain vector
/// addition.
struct VectorMover;

impl PositionUpdate for VectorMover {
    fn advance(&mut self, coordinates: &Chromosomes, velocity: &Velocity) -> Chromosomes {
        coordinates
            .iter()
            .zip(velocity.iter())
            .map(|(c, v)| (f64::from_bits(*c) + f64::from_bits(*v)).to_bits())
            .collect()
    }
}

#[test]
fn test_particleswarm_paraboloid() {
    let minval = -100.0;
    let maxval = 100.0;
    let particles_count = 150;
    let dimension = 5;
    let intervals_f: Vec<(f64, f64)> = vec![(minval, maxval); dimension];
    let intervals_b: Vec<(u64, u64)> = intervals_f.iter().map(|&(l, h)| (b(l), b(h))).collect();
    let phi_personal = 2.0;
    let phi_global = 6.0;
    let k = 0.2;

    let mut succeeded = false;
    for _ in 0..3 {
        let goal = Paraboloid;
        let coord_initializer = RandomCoordinatesInitializer {
            intervals: intervals_f.clone(),
            particles_count,
        };
        let velocity_initializer = ZeroVelocityInitializer::new(dimension, particles_count);
        let velocity_calculator = CanonicalVelocityCalculator::new(phi_personal, phi_global, k);

        let stop_checker = CompositeAny::new(vec![
            AnyStopChecker::Threshold(Threshold::new(b(1e-6))),
            AnyStopChecker::GoalNotChange(GoalNotChange::new(150, b(1e-7))),
            AnyStopChecker::MaxIterations(MaxIterations::new(3000)),
        ]);

        let mut optimizer: ParticleSwarmOptimizer<
            _,
            _,
            _,
            _,
            _,
            _,
            MaxVelocityDimensions,
            MoveToBoundary,
            NullLogger,
        > = ParticleSwarmOptimizer::new(
            goal,
            stop_checker,
            coord_initializer,
            velocity_initializer,
            velocity_calculator,
            VectorMover,
        );
        optimizer.set_post_moves(vec![MoveToBoundary::new(intervals_b.clone())]);

        match optimizer.find_min() {
            None => {},
            Some((solution, goal_value)) => {
                let good_goal = f64::from_bits(goal_value).abs() < 0.1;
                let good_point = (0..dimension).all(|i| {
                    (f64::from_bits(solution[i]) - (i as f64 + 1.0)).abs() < 0.3
                });
                if good_goal && good_point {
                    succeeded = true;
                    break;
                }
            },
        }
    }
    assert!(succeeded);
}
