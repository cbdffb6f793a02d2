//! Force-model behavior on concrete values: construction validation,
//! the Coulomb formula, symmetry, the overlap guard, identity-based
//! self-exclusion, and gravity.

use particle_sim::config::SimConfig;
use particle_sim::particle::Particle;
use particle_sim::vec2::Vec2;

/// 1.0 in fixed point.
const ONE: i128 = 1_000_000;

fn cfg(k_e: i128, k_g: i128, k_d: i128) -> SimConfig {
    SimConfig::new(k_e, k_g, k_d).unwrap()
}

fn particle(id: u64, x: i128, y: i128, charge: i128, mass: i128) -> Particle {
    Particle::new(id, x, y, charge, mass).unwrap()
}

#[test]
fn valid_accepts_documented_ranges() {
    assert!(Particle::valid(0, 0, -ONE, 1));
    assert!(Particle::valid(ONE, ONE, ONE, ONE));
    assert!(Particle::valid(400_000, 500_000, 0, 500_000));
}

#[test]
fn valid_rejects_out_of_range_parameters() {
    assert!(!Particle::valid(-1, 0, 0, ONE)); // x below the box
    assert!(!Particle::valid(ONE + 1, 0, 0, ONE)); // x above the box
    assert!(!Particle::valid(0, -1, 0, ONE)); // y below the box
    assert!(!Particle::valid(0, ONE + 1, 0, ONE)); // y above the box
    assert!(!Particle::valid(0, 0, ONE + 100_000, ONE)); // charge too large
    assert!(!Particle::valid(0, 0, -ONE - 1, ONE)); // charge too small
    assert!(!Particle::valid(0, 0, 0, 0)); // massless
    assert!(!Particle::valid(0, 0, 0, -500_000)); // negative mass
    assert!(!Particle::valid(0, 0, 0, ONE + 1)); // mass too large
}

#[test]
fn new_returns_none_for_each_invalid_parameter() {
    assert!(Particle::new(0, -1, 0, 0, ONE).is_none());
    assert!(Particle::new(0, 0, 2 * ONE, 0, ONE).is_none());
    assert!(Particle::new(0, 0, 0, ONE + 1, ONE).is_none());
    assert!(Particle::new(0, 0, 0, 0, 0).is_none());
    assert!(Particle::new(0, 0, 0, 0, ONE + 1).is_none());
}

#[test]
fn new_builds_a_particle_at_rest() {
    let p = particle(7, 400_000, 500_000, -250_000, 750_000);
    assert_eq!(p.id, 7);
    assert_eq!(p.position, Vec2 { x: 400_000, y: 500_000 });
    assert_eq!(p.velocity, Vec2 { x: 0, y: 0 });
    assert_eq!(p.acceleration, Vec2 { x: 0, y: 0 });
    assert_eq!(p.charge, -250_000);
    assert_eq!(p.mass, 750_000);
}

#[test]
fn electrostatic_force_matches_coulomb_formula() {
    // Unit charges 0.2 apart on the x axis, K_e = 1.5:
    // force = 1.5 * 1 * 1 * (-0.2) / 0.04 = -7.5 on the left particle.
    let c = cfg(1_500_000, 0, 0);
    let a = particle(0, 400_000, 500_000, ONE, 500_000);
    let b = particle(1, 600_000, 500_000, ONE, 500_000);
    let f = a.electrostatic_force(&b, &c);
    assert_eq!(f, Vec2 { x: -7_500_000, y: 0 });
}

#[test]
fn electrostatic_force_attracts_opposite_charges() {
    let c = cfg(ONE, 0, 0);
    let a = particle(0, 400_000, 500_000, ONE, 500_000);
    let b = particle(1, 600_000, 500_000, -ONE, 500_000);
    let f = a.electrostatic_force(&b, &c);
    // 1.0 * 1 * (-1) * (-0.2) / 0.04 = +5.0: toward b.
    assert_eq!(f, Vec2 { x: 5_000_000, y: 0 });
}

#[test]
fn electrostatic_force_is_antisymmetric() {
    let c = cfg(1_500_000, 0, 0);
    let a = particle(0, 430_000, 510_000, 800_000, 500_000);
    let b = particle(1, 610_000, 270_000, -600_000, 300_000);
    let fab = a.electrostatic_force(&b, &c);
    let fba = b.electrostatic_force(&a, &c);
    assert_eq!(fab.x, -fba.x);
    assert_eq!(fab.y, -fba.y);
    assert_ne!(fab, Vec2 { x: 0, y: 0 });
}

#[test]
fn electrostatic_force_is_zero_at_identical_positions() {
    let c = cfg(1_500_000, 0, 0);
    let a = particle(0, 500_000, 500_000, ONE, 500_000);
    let b = particle(1, 500_000, 500_000, ONE, 500_000);
    assert_eq!(a.electrostatic_force(&b, &c), Vec2 { x: 0, y: 0 });
    assert_eq!(b.electrostatic_force(&a, &c), Vec2 { x: 0, y: 0 });
}

#[test]
fn electrostatic_force_is_zero_just_under_the_overlap_guard() {
    // Separation 0.009 on one axis: squared distance 8.1e-5 < 1e-4.
    let c = cfg(1_500_000, 0, 0);
    let a = particle(0, 500_000, 500_000, ONE, 500_000);
    let b = particle(1, 509_000, 500_000, ONE, 500_000);
    assert_eq!(a.electrostatic_force(&b, &c), Vec2 { x: 0, y: 0 });
}

#[test]
fn electrostatic_force_acts_at_the_guard_threshold() {
    // Separation 0.01: squared distance exactly 1e-4, which is not under
    // the guard, so the force is the full 1 * 0.01 / 1e-4 = 100.
    let c = cfg(ONE, 0, 0);
    let a = particle(0, 500_000, 500_000, ONE, 500_000);
    let b = particle(1, 510_000, 500_000, ONE, 500_000);
    assert_eq!(a.electrostatic_force(&b, &c), Vec2 { x: -100_000_000, y: 0 });
}

#[test]
fn net_force_excludes_self_by_id_only() {
    let c = cfg(ONE, 0, 0);
    let p = particle(0, 500_000, 500_000, ONE, 500_000);
    // A stored copy of p (same id) plus one true peer 0.1 below.
    let below = particle(1, 500_000, 600_000, ONE, 500_000);
    let peers = vec![p, below];
    // Only `below` counts: force 1 * 1 * (-0.1) / 0.01 = -10 on the y axis.
    assert_eq!(p.net_electrostatic_force(&peers, &c), Vec2 { x: 0, y: -10_000_000 });

    // A same-position particle under a *different* id is a real peer; at
    // identical positions its contribution is the overlap-guard zero, so
    // the net force is unchanged, but a near-coincident different-id peer
    // at the guard threshold contributes in full.
    let same_pos_other_id = particle(2, 500_000, 500_000, ONE, 500_000);
    let peers2 = vec![p, below, same_pos_other_id];
    assert_eq!(p.net_electrostatic_force(&peers2, &c), Vec2 { x: 0, y: -10_000_000 });

    let near = particle(3, 510_000, 500_000, ONE, 500_000);
    let peers3 = vec![p, below, near];
    assert_eq!(
        p.net_electrostatic_force(&peers3, &c),
        Vec2 { x: -100_000_000, y: -10_000_000 }
    );
}

#[test]
fn net_force_on_sole_particle_is_zero() {
    let c = cfg(1_500_000, 8_000_000, 100_000);
    let p = particle(0, 250_000, 750_000, ONE, 500_000);
    let peers = vec![p];
    assert_eq!(p.net_electrostatic_force(&peers, &c), Vec2 { x: 0, y: 0 });
    assert_eq!(p.net_electrostatic_force(&Vec::new(), &c), Vec2 { x: 0, y: 0 });
}

#[test]
fn gravitational_force_is_proportional_to_mass() {
    // K_g = 8.0, mass 0.5: force (0, -4.0).
    let c = cfg(0, 8_000_000, 0);
    let p = particle(0, 500_000, 500_000, 0, 500_000);
    assert_eq!(p.gravitational_force(&c), Vec2 { x: 0, y: -4_000_000 });
    // Zero coefficient: no gravity.
    let c0 = cfg(0, 0, 0);
    assert_eq!(p.gravitational_force(&c0), Vec2 { x: 0, y: 0 });
}

#[test]
fn config_rejects_out_of_range_coefficients() {
    assert!(SimConfig::new(-1, 0, 0).is_none());
    assert!(SimConfig::new(0, 16_000_001, 0).is_none());
    assert!(SimConfig::new(0, 0, -100).is_none());
    assert!(SimConfig::new(16_000_000, 16_000_000, 16_000_000).is_some());
}

#[test]
fn default_config_carries_the_shipped_coefficients() {
    let c = SimConfig::default();
    assert_eq!(c.k_e, 1_500_000);
    assert_eq!(c.k_g, 8_000_000);
    assert_eq!(c.k_d, 100_000);
}
