//! Whole-tick behavior: the two-particle scenario, wall reflection,
//! containment over long runs, storage-order independence, and the empty,
//! single-particle and rejected-step edge cases.

use particle_sim::config::SimConfig;
use particle_sim::particle::Particle;
use particle_sim::system::ParticleSystem;
use particle_sim::vec2::Vec2;

/// 1.0 in fixed point.
const ONE: i128 = 1_000_000;

fn cfg(k_e: i128, k_g: i128, k_d: i128) -> SimConfig {
    SimConfig::new(k_e, k_g, k_d).unwrap()
}

fn particle(id: u64, x: i128, y: i128, charge: i128, mass: i128) -> Particle {
    Particle::new(id, x, y, charge, mass).unwrap()
}

#[test]
fn create_assigns_sequential_ids_and_validates() {
    let mut sys = ParticleSystem::new(SimConfig::default());
    assert_eq!(sys.create(400_000, 500_000, ONE, 500_000), Some(0));
    assert_eq!(sys.create(600_000, 500_000, ONE, 500_000), Some(1));
    // Out-of-range parameters are rejected and change nothing.
    assert_eq!(sys.create(-1, 500_000, 0, 500_000), None);
    assert_eq!(sys.create(0, 0, 2 * ONE, 500_000), None);
    assert_eq!(sys.create(0, 0, 0, 0), None);
    assert_eq!(sys.particles.len(), 2);
    assert_eq!(sys.particles[0].id, 0);
    assert_eq!(sys.particles[1].id, 1);
    // The next accepted one continues the id sequence.
    assert_eq!(sys.create(0, 0, 0, ONE), Some(2));
}

#[test]
fn two_equal_charges_move_apart_symmetrically() {
    // A at (0.4, 0.5), B at (0.6, 0.5), both charge +1.0 and mass 0.5,
    // K_e = 1.0, gravity and drag off, dt = 0.1. The pairwise force is
    // 1 * 1 * 0.2 / 0.04 = 5.0 pushing them apart, so each accelerates at
    // 10.0 away from the other and travels 0.05 in the first tick.
    let mut sys = ParticleSystem::new(cfg(ONE, 0, 0));
    assert_eq!(sys.create(400_000, 500_000, ONE, 500_000), Some(0));
    assert_eq!(sys.create(600_000, 500_000, ONE, 500_000), Some(1));
    sys.step(100_000);
    let a = sys.particles[0];
    let b = sys.particles[1];
    assert_eq!(a.position, Vec2 { x: 350_000, y: 500_000 });
    assert_eq!(b.position, Vec2 { x: 650_000, y: 500_000 });
    assert_eq!(a.velocity, Vec2 { x: -1_000_000, y: 0 });
    assert_eq!(b.velocity, Vec2 { x: 1_000_000, y: 0 });
    assert_eq!(a.acceleration, Vec2 { x: -10_000_000, y: 0 });
    assert_eq!(b.acceleration, Vec2 { x: 10_000_000, y: 0 });
    // Symmetric displacement, no force on the y axis.
    assert_eq!(400_000 - a.position.x, b.position.x - 600_000);
    assert_eq!(a.velocity.y, b.velocity.y);
}

#[test]
fn wall_reflection_clamps_position_and_flips_velocity() {
    // Moving left at 5.0 from x = 0.01 with drag 0.1 and dt = 0.1: the
    // particle crosses the wall, ends the tick exactly on it, and its x
    // velocity comes out positive (drag has taken 0.5 off the speed).
    let mut p = particle(0, 10_000, 500_000, 0, 500_000);
    p.velocity = Vec2 { x: -5_000_000, y: 0 };
    let mut sys = ParticleSystem { particles: vec![p], config: cfg(0, 0, 100_000) };
    sys.step(100_000);
    let q = sys.particles[0];
    assert_eq!(q.position.x, 0);
    assert_eq!(q.velocity.x, 4_500_000);
    assert!(q.velocity.x > 0);
    assert_eq!(q.position.y, 500_000);
    assert_eq!(q.velocity.y, 0);
}

#[test]
fn corner_reflection_flips_both_axes() {
    // Heading into the lower-left corner at (-5, -5) from (0.01, 0.01):
    // both axes are clamped and both velocity components flip in one tick.
    let mut p = particle(0, 10_000, 10_000, 0, 500_000);
    p.velocity = Vec2 { x: -5_000_000, y: -5_000_000 };
    let mut sys = ParticleSystem { particles: vec![p], config: cfg(0, 0, 100_000) };
    sys.step(100_000);
    let q = sys.particles[0];
    assert_eq!(q.position, Vec2 { x: 0, y: 0 });
    assert_eq!(q.velocity, Vec2 { x: 4_292_894, y: 4_292_894 });
    assert_eq!(q.acceleration, Vec2 { x: 7_071_066, y: 7_071_066 });
}

#[test]
fn particles_never_leave_the_unit_box() {
    // A handful of charged particles under full gravity and drag, stepped
    // many times: every position stays inside [0, 1] on both axes.
    let mut sys = ParticleSystem::new(SimConfig::default());
    sys.create(50_000, 950_000, ONE, 200_000).unwrap();
    sys.create(60_000, 940_000, ONE, 200_000).unwrap();
    sys.create(900_000, 100_000, -ONE, 900_000).unwrap();
    sys.create(500_000, 500_000, 500_000, 100_000).unwrap();
    for _ in 0..200 {
        sys.step(100_000);
        for p in &sys.particles {
            assert!(0 <= p.position.x && p.position.x <= ONE);
            assert!(0 <= p.position.y && p.position.y <= ONE);
        }
    }
}

#[test]
fn step_order_is_immaterial() {
    // The same three particles stored in two different orders step to the
    // same per-particle states, tick after tick.
    let a = particle(0, 200_000, 300_000, ONE, 500_000);
    let b = particle(1, 700_000, 600_000, -500_000, 300_000);
    let c = particle(2, 500_000, 800_000, 200_000, ONE);
    let conf = SimConfig::default();
    let mut sys1 = ParticleSystem { particles: vec![a, b, c], config: conf };
    let mut sys2 = ParticleSystem { particles: vec![c, a, b], config: conf };
    for _ in 0..5 {
        sys1.step(50_000);
        sys2.step(50_000);
        for p in &sys1.particles {
            let q = sys2.particles.iter().find(|q| q.id == p.id).unwrap();
            assert_eq!(p, q);
        }
    }
}

#[test]
fn empty_step_is_a_noop() {
    let mut sys = ParticleSystem::new(SimConfig::default());
    sys.step(100_000);
    assert_eq!(sys.particles.len(), 0);
    assert!(sys.try_step(100_000));
    assert_eq!(sys.particles.len(), 0);
}

#[test]
fn single_particle_feels_only_gravity_and_drag() {
    // One particle at rest, mass 0.5, K_g = 8.0: acceleration (0, -8),
    // velocity (0, -0.8) and a drop of 0.04 after one tick of 0.1.
    let mut sys = ParticleSystem::new(SimConfig::default());
    sys.create(500_000, 500_000, 500_000, 500_000).unwrap();
    sys.step(100_000);
    let p = sys.particles[0];
    assert_eq!(p.acceleration, Vec2 { x: 0, y: -8_000_000 });
    assert_eq!(p.velocity, Vec2 { x: 0, y: -800_000 });
    assert_eq!(p.position, Vec2 { x: 500_000, y: 460_000 });
}

#[test]
fn zero_time_step_leaves_motion_unchanged() {
    let mut sys = ParticleSystem::new(SimConfig::default());
    sys.create(500_000, 500_000, 500_000, 500_000).unwrap();
    sys.step(0);
    let p = sys.particles[0];
    assert_eq!(p.position, Vec2 { x: 500_000, y: 500_000 });
    assert_eq!(p.velocity, Vec2 { x: 0, y: 0 });
}

#[test]
fn try_step_rejects_bad_time_steps() {
    let mut sys = ParticleSystem::new(SimConfig::default());
    sys.create(500_000, 500_000, 500_000, 500_000).unwrap();
    let before = sys.particles[0];
    assert!(!sys.try_step(-1));
    assert_eq!(sys.particles[0], before);
    assert!(!sys.try_step(1_000_000_001));
    assert_eq!(sys.particles[0], before);
    assert!(sys.try_step(100_000));
    assert_ne!(sys.particles[0], before);
}

#[test]
fn drag_stalls_at_low_speed() {
    // At speed 0.001 the fixed-point drag term truncates to zero, so the
    // particle keeps its residual speed instead of decelerating — the
    // known low-velocity drag anomaly, preserved deliberately.
    let mut p = particle(0, 500_000, 500_000, 0, 500_000);
    p.velocity = Vec2 { x: 1_000, y: 0 };
    let mut sys = ParticleSystem { particles: vec![p], config: cfg(0, 0, 100_000) };
    sys.step(100_000);
    let q = sys.particles[0];
    assert_eq!(q.velocity, Vec2 { x: 1_000, y: 0 });
    assert_eq!(q.acceleration, Vec2 { x: 0, y: 0 });
    // At a brisk speed the same drag coefficient does decelerate.
    let mut fast = particle(1, 500_000, 500_000, 0, 500_000);
    fast.velocity = Vec2 { x: 5_000_000, y: 0 };
    let mut sys2 = ParticleSystem { particles: vec![fast], config: cfg(0, 0, 100_000) };
    sys2.step(100_000);
    assert!(sys2.particles[0].velocity.x < 5_000_000);
    assert!(sys2.particles[0].velocity.x > 0);
}

#[test]
fn apply_force_integrates_a_supplied_force() {
    // Pushing a unit-mass particle straight down with force 2.0 and no
    // drag for dt = 0.1: acceleration -2, velocity -0.2, drop 0.01.
    let mut p = particle(0, 500_000, 500_000, 0, ONE);
    p.apply_force(Vec2 { x: 0, y: -2_000_000 }, 100_000, &cfg(0, 0, 0));
    assert_eq!(p.acceleration, Vec2 { x: 0, y: -2_000_000 });
    assert_eq!(p.velocity, Vec2 { x: 0, y: -200_000 });
    assert_eq!(p.position, Vec2 { x: 500_000, y: 490_000 });
}
