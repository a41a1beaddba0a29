//! Particles, the swarm bookkeeping and the position and velocity
//! corrections.

use optlib::particleswarm::postmove::{MoveToBoundary, PostMove};
use optlib::particleswarm::postspeedcalc::{MaxSpeedDimensions, PostSpeedCalc};
use optlib::particleswarm::postvelocitycalc::{MaxVelocityDimensions, PostVelocityCalc};
use optlib::particleswarm::{Particle, Swarm};

fn b(x: f64) -> u64 {
    x.to_bits()
}

fn bv(xs: &[f64]) -> Vec<u64> {
    xs.iter().map(|x| x.to_bits()).collect()
}

#[test]
fn test_particle_new() {
    let coordinates = bv(&[1.0, 2.0]);
    let velocity = bv(&[11.0, 12.0]);
    let value = b(21.0);

    let particle = Particle::new(coordinates.clone(), velocity.clone(), value);

    assert_eq!(particle.coordinates, coordinates);
    assert_eq!(particle.velocity, velocity);
    assert_eq!(particle.value, value);
    assert_eq!(particle.best_personal_coordinates, coordinates);
    assert_eq!(particle.best_personal_value, value);
}

#[test]
fn test_particle_move_to_better() {
    let coordinates = bv(&[1.0, 2.0]);
    let velocity = bv(&[11.0, 12.0]);
    let value = b(21.0);

    let mut particle = Particle::new(coordinates.clone(), velocity.clone(), value);

    let new_coordinates = bv(&[1.0, 2.0]);
    let new_value = b(10.0);
    particle.move_to(new_coordinates.clone(), new_value);

    assert_eq!(particle.coordinates, new_coordinates);
    assert_eq!(particle.best_personal_coordinates, new_coordinates);
    assert_eq!(particle.best_personal_value, new_value);
}

#[test]
fn test_particle_move_to_worse() {
    let coordinates = bv(&[1.0, 2.0]);
    let velocity = bv(&[11.0, 12.0]);
    let value = b(20.0);

    let mut particle = Particle::new(coordinates.clone(), velocity.clone(), value);

    let new_coordinates = bv(&[1.0, 2.0]);
    let new_value = b(40.0);
    particle.move_to(new_coordinates.clone(), new_value);

    assert_eq!(particle.coordinates, new_coordinates);
    assert_eq!(particle.best_personal_coordinates, coordinates);
    assert_eq!(particle.best_personal_value, value);
}

#[test]
fn test_find_best_particle_empty() {
    let particles: Vec<Particle> = vec![];
    assert!(Swarm::find_best_particle(&particles).is_none());
}

#[test]
fn test_find_best_particle_single() {
    let particles: Vec<Particle> = vec![Particle::new(
        bv(&[1.0, 2.0]),
        bv(&[10.0, 20.0]),
        b(100.0),
    )];
    let best_particle = Swarm::find_best_particle(&particles);
    assert!(best_particle.is_some());
}

#[test]
fn test_find_best_particle_many_01() {
    let particles: Vec<Particle> = vec![
        Particle::new(bv(&[1.0, 2.0]), bv(&[10.0, 20.0]), b(100.0)),
        Particle::new(bv(&[3.0, 4.0]), bv(&[10.0, 20.0]), b(50.0)),
    ];
    let best_particle = Swarm::find_best_particle(&particles);
    assert_eq!(best_particle.unwrap().value, b(50.0));
}

#[test]
fn test_find_best_particle_many_02() {
    let particles: Vec<Particle> = vec![
        Particle::new(bv(&[3.0, 4.0]), bv(&[10.0, 20.0]), b(50.0)),
        Particle::new(bv(&[1.0, 2.0]), bv(&[10.0, 20.0]), b(100.0)),
    ];
    let best_particle = Swarm::find_best_particle(&particles);
    assert_eq!(best_particle.unwrap().value, b(50.0));
}

#[test]
fn swarm_best_only_improves() {
    let mut swarm = Swarm::new();
    swarm.replace_particles(vec![Particle::new(bv(&[1.0]), bv(&[0.0]), b(5.0))]);
    assert_eq!(swarm.get_best().as_ref().unwrap().value, b(5.0));
    // A worse swarm does not displace the tracked best.
    swarm.replace_particles(vec![Particle::new(bv(&[1.0]), bv(&[0.0]), b(9.0))]);
    swarm.update_best_particle();
    assert_eq!(swarm.get_best().as_ref().unwrap().value, b(9.0));
    let mut fresh = Swarm::new();
    fresh.replace_particles(vec![Particle::new(bv(&[1.0]), bv(&[0.0]), b(5.0))]);
    fresh.update_best_particle();
    assert_eq!(fresh.get_best().as_ref().unwrap().value, b(5.0));
    // Moving the only particle to a worse point keeps the best at five.
    fresh.move_particle(0, bv(&[2.0]), b(8.0));
    fresh.update_best_particle();
    assert_eq!(fresh.get_best().as_ref().unwrap().value, b(5.0));
    // Moving it to a better point improves the best.
    fresh.move_particle(0, bv(&[3.0]), b(1.0));
    fresh.update_best_particle();
    assert_eq!(fresh.get_best().as_ref().unwrap().value, b(1.0));
}

#[test]
fn mod_test_empty() {
    let intervals: Vec<(u64, u64)> = vec![];
    let mut coordinates = vec![];

    let mut postmove = MoveToBoundary::new(intervals);
    postmove.post_move(&mut coordinates);
    assert_eq!(coordinates, Vec::<u64>::new());
}

#[test]
fn test_inside_interval() {
    let intervals = vec![(b(0.0), b(1.0))];
    let mut coordinates = bv(&[0.6]);

    let mut postmove = MoveToBoundary::new(intervals);
    postmove.post_move(&mut coordinates);

    assert!((f64::from_bits(coordinates[0]) - 0.6).abs() < 1e-6);
}

#[test]
fn test_min() {
    let intervals = vec![(b(0.0), b(1.0))];
    let mut coordinates = bv(&[-1.0]);

    let mut postmove = MoveToBoundary::new(intervals);
    postmove.post_move(&mut coordinates);

    assert!(f64::from_bits(coordinates[0]).abs() < 1e-6);
}

#[test]
fn test_max() {
    let intervals = vec![(b(0.0), b(1.0))];
    let mut coordinates = bv(&[3.0]);

    let mut postmove = MoveToBoundary::new(intervals);
    postmove.post_move(&mut coordinates);

    assert!((f64::from_bits(coordinates[0]) - 1.0).abs() < 1e-6);
}

#[test]
fn test_mix() {
    let intervals = vec![(b(0.0), b(1.0)), (b(1.0), b(3.0)), (b(5.0), b(10.0))];
    let mut coordinates = bv(&[-3.0, 4.0, 6.0]);

    let mut postmove = MoveToBoundary::new(intervals);
    postmove.post_move(&mut coordinates);

    assert!((f64::from_bits(coordinates[0]) - 0.0).abs() < 1e-6);
    assert!((f64::from_bits(coordinates[1]) - 3.0).abs() < 1e-6);
    assert!((f64::from_bits(coordinates[2]) - 6.0).abs() < 1e-6);
}

#[test]
fn postmove_clamps_non_finite() {
    let intervals = vec![(b(0.0), b(1.0))];
    let mut coordinates = vec![b(f64::NAN)];
    let mut postmove = MoveToBoundary::new(intervals);
    postmove.post_move(&mut coordinates);
    assert_eq!(f64::from_bits(coordinates[0]), 0.0);
}

#[test]
fn test_max_velocity_dimensions_empty() {
    let max_velocity: Vec<u64> = vec![];
    let velocity: Vec<u64> = vec![];

    let mut post_velocity = MaxVelocityDimensions::new(max_velocity);
    let new_velocity = post_velocity.correct_velocity(velocity);

    assert_eq!(new_velocity, vec![]);
}

#[test]
fn test_max_velocity_dimensions_not_change() {
    let max_velocity = bv(&[10.0, 10.0]);
    let velocity = bv(&[5.0, -5.0]);

    let mut post_velocity = MaxVelocityDimensions::new(max_velocity);
    let new_velocity = post_velocity.correct_velocity(velocity.clone());

    assert_eq!(new_velocity, velocity);
}

#[test]
fn test_max_velocity_dimensions_fix() {
    let max_velocity = bv(&[10.0, 10.0, 10.0]);
    let velocity = bv(&[15.0, -15.0, 5.0]);

    let mut post_velocity = MaxVelocityDimensions::new(max_velocity);
    let new_velocity = post_velocity.correct_velocity(velocity.clone());

    assert_eq!(new_velocity, bv(&[10.0, -10.0, 5.0]));
}

#[test]
fn test_max_speed_dimensions_empty() {
    let max_speed: Vec<u64> = vec![];
    let speed: Vec<u64> = vec![];

    let mut post_speed = MaxSpeedDimensions::new(max_speed);
    let new_speed = post_speed.correct_speed(speed);

    assert_eq!(new_speed, vec![]);
}

#[test]
fn test_max_speed_dimensions_not_change() {
    let max_speed = bv(&[10.0, 10.0]);
    let speed = bv(&[5.0, -5.0]);

    let mut post_speed = MaxSpeedDimensions::new(max_speed);
    let new_speed = post_speed.correct_speed(speed.clone());

    assert_eq!(new_speed, speed);
}

#[test]
fn test_max_speed_dimensions_fix() {
    let max_speed = bv(&[10.0, 10.0, 10.0]);
    let speed = bv(&[15.0, -15.0, 5.0]);

    let mut post_speed = MaxSpeedDimensions::new(max_speed);
    let new_speed = post_speed.correct_speed(speed.clone());

    assert_eq!(new_speed, bv(&[10.0, -10.0, 5.0]));
}
