//! The particle and its force model.
//!
//! A particle is a point mass carrying charge and velocity. Its state is
//! fixed-point (see [`crate::math::SCALE`]); the mathematical model of a
//! particle is [`ParticleModel`], whose fields are unbounded integers, and
//! every executable operation here is proved equal to a spec-level function
//! of the models.

use crate::config::{COEFF_MAX, DT_MAX, SimConfig};
use crate::math::{
    SCALE, SCALE_SQ, clamp_i128, clamp_spec, isqrt_spec, isqrt_u128, lemma_abs_mul_le,
    lemma_isqrt_le, lemma_tdiv_ratio_bound, tdiv, tdiv_i128,
};
use crate::vec2::{Vec2, Vec2Model};
use vstd::arithmetic::div_mod::{lemma_div_nonincreasing, lemma_div_pos_is_pos};
use vstd::prelude::*;

verus! {

/// Overlap guard: squared distances below this give a zero electrostatic
/// force. This is `1e-4` square units in fixed point; without the guard,
/// near-coincident particles would receive enormous forces and be ejected.
pub const EPS_LEN2: i128 = 100_000_000;

/// The representable range of a velocity component: one thousand million
/// units per unit time in fixed point. Integration saturates here — the
/// fixed-point counterpart of the non-finite values a floating-point
/// representation would run into.
pub const V_MAX: i128 = 1_000_000_000_000_000;

/// The representable range of an acceleration component, saturating in the
/// same way as [`V_MAX`].
pub const A_MAX: i128 = 1_000_000_000_000_000_000;

/// Bound on each component of one pairwise electrostatic force:
/// `COEFF_MAX * SCALE^3 / (SCALE * EPS_LEN2)`.
pub const PAIR_FORCE_MAX: i128 = 160_000_000_000;

/// Bound on each component of a force accepted by the integrator. The net
/// force over any collection of well-formed particles stays within it.
pub const FORCE_MAX: i128 = 10_000_000_000_000_000_000_000_000_000_000;

/// Bound on each component of the drag force on a representable velocity:
/// `COEFF_MAX * (2 * V_MAX) * V_MAX / SCALE_SQ`.
pub const DRAG_MAX: i128 = 32_000_000_000_000_000_000_000_000;

/// The contribution of peer `q` to the net electrostatic force on `p`:
/// peers are told apart by identity alone, and a particle never forces
/// itself, however similar the rest of its state.
pub open spec fn peer_contribution_spec(k_e: int, p: ParticleModel, q: ParticleModel) -> Vec2Model {
    if q.id == p.id {
        Vec2Model { x: 0, y: 0 }
    } else {
        electrostatic_force_spec(k_e, p, q)
    }
}

/// The net electrostatic force on `p` from one consistent snapshot of the
/// collection: the sum of pairwise forces over every peer whose id differs
/// from `p`'s.
pub open spec fn net_electrostatic_force_spec(
    k_e: int,
    p: ParticleModel,
    peers: Seq<ParticleModel>,
) -> Vec2Model
    decreases peers.len(),
{
    if peers.len() == 0 {
        Vec2Model { x: 0, y: 0 }
    } else {
        let rest = net_electrostatic_force_spec(k_e, p, peers.drop_last());
        let c = peer_contribution_spec(k_e, p, peers.last());
        Vec2Model { x: rest.x + c.x, y: rest.y + c.y }
    }
}

/// The models of a snapshot of the executable collection.
pub open spec fn models_of(s: Seq<Particle>) -> Seq<ParticleModel> {
    s.map_values(|p: Particle| p@)
}

/// A point particle: stable identity, kinematic state, charge and mass.
#[derive(Clone, Copy, Debug, PartialEq, Eq, Structural)]
pub struct Particle {
    /// Unique, stable identifier, assigned by the owning system.
    pub id: u64,
    /// Position, confined to `[0, SCALE]` on each axis between ticks.
    pub position: Vec2,
    /// Velocity; starts at zero.
    pub velocity: Vec2,
    /// Acceleration derived during the last tick, kept for observers.
    pub acceleration: Vec2,
    /// Charge in `[-SCALE, SCALE]`; the sign decides attraction/repulsion.
    pub charge: i128,
    /// Mass in `(0, SCALE]`; strictly positive, it divides the net force.
    pub mass: i128,
}

/// The mathematical value of a [`Particle`].
pub struct ParticleModel {
    pub id: int,
    pub position: Vec2Model,
    pub velocity: Vec2Model,
    pub acceleration: Vec2Model,
    pub charge: int,
    pub mass: int,
}

impl View for Particle {
    type V = ParticleModel;

    open spec fn view(&self) -> ParticleModel {
        ParticleModel {
            id: self.id as int,
            position: self.position@,
            velocity: self.velocity@,
            acceleration: self.acceleration@,
            charge: self.charge as int,
            mass: self.mass as int,
        }
    }
}

impl ParticleModel {
    /// The position lies in the unit box.
    pub open spec fn valid_position(self) -> bool {
        &&& 0 <= self.position.x <= SCALE
        &&& 0 <= self.position.y <= SCALE
    }

    /// The charge lies in `[-1, 1]` in real units.
    pub open spec fn valid_charge(self) -> bool {
        -SCALE <= self.charge <= SCALE
    }

    /// The mass lies in `(0, 1]` in real units.
    pub open spec fn valid_mass(self) -> bool {
        0 < self.mass <= SCALE
    }

    /// Both velocity components are representable.
    pub open spec fn valid_velocity(self) -> bool {
        &&& -V_MAX <= self.velocity.x <= V_MAX
        &&& -V_MAX <= self.velocity.y <= V_MAX
    }

    /// Both acceleration components are representable.
    pub open spec fn valid_acceleration(self) -> bool {
        &&& -A_MAX <= self.acceleration.x <= A_MAX
        &&& -A_MAX <= self.acceleration.y <= A_MAX
    }

    /// A well-formed particle state: every invariant of the data model.
    pub open spec fn wf(self) -> bool {
        &&& self.valid_position()
        &&& self.valid_charge()
        &&& self.valid_mass()
        &&& self.valid_velocity()
        &&& self.valid_acceleration()
    }
}

/// The electrostatic force exerted on `a` by `b`: zero under the overlap
/// guard, otherwise the Coulomb-like `K_e * q_a * q_b * r / |r|^2` with
/// `r = a.position - b.position`, carried out in fixed point with one
/// truncating division per component. Like charges repel (the force points
/// along `+r`, away from `b`); opposite charges attract.
pub open spec fn electrostatic_force_spec(k_e: int, a: ParticleModel, b: ParticleModel) -> Vec2Model {
    let dx = a.position.x - b.position.x;
    let dy = a.position.y - b.position.y;
    let l2 = dx * dx + dy * dy;
    if l2 < EPS_LEN2 {
        Vec2Model { x: 0, y: 0 }
    } else {
        Vec2Model {
            x: tdiv(k_e * a.charge * b.charge * dx, SCALE * l2),
            y: tdiv(k_e * a.charge * b.charge * dy, SCALE * l2),
        }
    }
}

/// Uniform gravity on a particle: `(0, -K_g * mass)` in fixed point.
pub open spec fn gravitational_force_spec(k_g: int, p: ParticleModel) -> Vec2Model {
    Vec2Model { x: 0, y: -tdiv(k_g * p.mass, SCALE as int) }
}

/// Quadratic drag: zero at rest, otherwise `K_d * |v|^2 * (-v / |v|)`,
/// i.e. `-K_d * |v| * v`, with `|v|` the integer square root of the squared
/// speed. (At rest there is no direction to oppose; in fixed point every
/// representable squared speed is an ordinary integer, so no non-finite
/// squared speed exists to guard against.)
pub open spec fn drag_force_spec(k_d: int, v: Vec2Model) -> Vec2Model {
    if v.x == 0 && v.y == 0 {
        Vec2Model { x: 0, y: 0 }
    } else {
        let mag = isqrt_spec(v.x * v.x + v.y * v.y);
        Vec2Model {
            x: tdiv(-(k_d * mag * v.x), SCALE_SQ as int),
            y: tdiv(-(k_d * mag * v.y), SCALE_SQ as int),
        }
    }
}

/// One wall check on one axis, applied right after the position update:
/// a position past a wall is clamped to the wall and the velocity
/// component on that axis flips sign (an elastic reflection).
pub open spec fn reflect_axis_spec(pos: int, vel: int) -> (int, int) {
    if pos < 0 {
        (0int, -vel)
    } else if pos > SCALE {
        (SCALE as int, -vel)
    } else {
        (pos, vel)
    }
}

/// The integrator: advance one particle by `dt` under `force`.
///
/// The update order is deliberate and must not be rearranged: acceleration
/// (with drag) is computed from the pre-update velocity, the position
/// change is the area under the linear velocity ramp
/// (`v*dt + a*dt^2/2`, using the pre-update velocity plus half the
/// velocity change), velocity is updated, and then each axis is reflected
/// at the walls independently. Acceleration and velocity saturate at their
/// representable ranges ([`A_MAX`], [`V_MAX`]).
pub open spec fn apply_force_spec(
    k_d: int,
    p: ParticleModel,
    force: Vec2Model,
    dt: int,
) -> ParticleModel {
    let drag = drag_force_spec(k_d, p.velocity);
    let ax = clamp_spec(tdiv((force.x + drag.x) * SCALE, p.mass), -(A_MAX as int), A_MAX as int);
    let ay = clamp_spec(tdiv((force.y + drag.y) * SCALE, p.mass), -(A_MAX as int), A_MAX as int);
    let dvx = tdiv(ax * dt, SCALE as int);
    let dvy = tdiv(ay * dt, SCALE as int);
    let vx = clamp_spec(p.velocity.x + dvx, -(V_MAX as int), V_MAX as int);
    let vy = clamp_spec(p.velocity.y + dvy, -(V_MAX as int), V_MAX as int);
    let px = p.position.x + tdiv(dt * p.velocity.x, SCALE as int) + tdiv(dt * dvx, 2 * SCALE);
    let py = p.position.y + tdiv(dt * p.velocity.y, SCALE as int) + tdiv(dt * dvy, 2 * SCALE);
    let rx = reflect_axis_spec(px, vx);
    let ry = reflect_axis_spec(py, vy);
    ParticleModel {
        id: p.id,
        position: Vec2Model { x: rx.0, y: ry.0 },
        velocity: Vec2Model { x: rx.1, y: ry.1 },
        acceleration: Vec2Model { x: ax, y: ay },
        charge: p.charge,
        mass: p.mass,
    }
}

/// Whatever the force and time step, the integrator puts the position back
/// in the unit box, keeps velocity and acceleration in their representable
/// ranges, and never touches identity, charge or mass.
pub proof fn lemma_apply_force_wf(k_d: int, p: ParticleModel, force: Vec2Model, dt: int)
    ensures
        ({
            let q = apply_force_spec(k_d, p, force, dt);
            &&& q.id == p.id
            &&& q.charge == p.charge
            &&& q.mass == p.mass
            &&& q.valid_position()
            &&& q.valid_velocity()
            &&& q.valid_acceleration()
        }),
{
}

/// Arithmetic bounds behind [`electrostatic_force_spec`]: with a
/// well-formed pair, every intermediate product fits comfortably in
/// `i128` and each force component is at most [`PAIR_FORCE_MAX`].
proof fn lemma_pair_force_bounds(k_e: int, a: ParticleModel, b: ParticleModel)
    requires
        0 <= k_e <= COEFF_MAX,
        a.valid_position(),
        a.valid_charge(),
        b.valid_position(),
        b.valid_charge(),
    ensures
        ({
            let dx = a.position.x - b.position.x;
            let dy = a.position.y - b.position.y;
            let l2 = dx * dx + dy * dy;
            &&& 0 <= dx * dx <= SCALE_SQ
            &&& 0 <= dy * dy <= SCALE_SQ
            &&& -SCALE_SQ <= a.charge * b.charge <= SCALE_SQ
            &&& -COEFF_MAX * SCALE <= k_e * a.charge <= COEFF_MAX * SCALE
            &&& -COEFF_MAX * SCALE_SQ <= k_e * a.charge * b.charge <= COEFF_MAX * SCALE_SQ
            &&& -COEFF_MAX * SCALE_SQ * SCALE <= k_e * a.charge * b.charge * dx <= COEFF_MAX
                * SCALE_SQ * SCALE
            &&& -COEFF_MAX * SCALE_SQ * SCALE <= k_e * a.charge * b.charge * dy <= COEFF_MAX
                * SCALE_SQ * SCALE
            &&& l2 >= EPS_LEN2 ==> SCALE * EPS_LEN2 <= SCALE * l2 <= 2 * SCALE * SCALE_SQ
            &&& -PAIR_FORCE_MAX <= electrostatic_force_spec(k_e, a, b).x <= PAIR_FORCE_MAX
            &&& -PAIR_FORCE_MAX <= electrostatic_force_spec(k_e, a, b).y <= PAIR_FORCE_MAX
        }),
{
    let dx = a.position.x - b.position.x;
    let dy = a.position.y - b.position.y;
    let l2 = dx * dx + dy * dy;
    assert(dx * dx >= 0 && dy * dy >= 0) by (nonlinear_arith);
    lemma_abs_mul_le(dx, dx, SCALE as int, SCALE as int);
    lemma_abs_mul_le(dy, dy, SCALE as int, SCALE as int);
    lemma_abs_mul_le(a.charge, b.charge, SCALE as int, SCALE as int);
    lemma_abs_mul_le(k_e, a.charge, COEFF_MAX as int, SCALE as int);
    lemma_abs_mul_le(k_e * a.charge, b.charge, COEFF_MAX * SCALE, SCALE as int);
    lemma_abs_mul_le(k_e * a.charge * b.charge, dx, COEFF_MAX * SCALE_SQ, SCALE as int);
    lemma_abs_mul_le(k_e * a.charge * b.charge, dy, COEFF_MAX * SCALE_SQ, SCALE as int);
    if l2 >= EPS_LEN2 {
        assert(SCALE * EPS_LEN2 <= SCALE * l2 <= 2 * SCALE * SCALE_SQ) by (nonlinear_arith)
            requires
                EPS_LEN2 <= l2 <= 2 * SCALE_SQ,
                SCALE == 1_000_000i128,
                SCALE_SQ == 1_000_000_000_000i128,
                EPS_LEN2 == 100_000_000i128,
        ;
        lemma_tdiv_ratio_bound(
            k_e * a.charge * b.charge * dx,
            SCALE * l2,
            COEFF_MAX * SCALE_SQ * SCALE,
            SCALE * EPS_LEN2,
        );
        lemma_tdiv_ratio_bound(
            k_e * a.charge * b.charge * dy,
            SCALE * l2,
            COEFF_MAX * SCALE_SQ * SCALE,
            SCALE * EPS_LEN2,
        );
        assert((COEFF_MAX * SCALE_SQ * SCALE) / (SCALE * EPS_LEN2) == PAIR_FORCE_MAX);
    }
}

/// Each peer contributes at most [`PAIR_FORCE_MAX`] per component, so the
/// net electrostatic force grows at most linearly with the number of peers.
pub proof fn lemma_net_force_bound(k_e: int, p: ParticleModel, peers: Seq<ParticleModel>)
    requires
        0 <= k_e <= COEFF_MAX,
        p.valid_position(),
        p.valid_charge(),
        forall|i: int|
            0 <= i < peers.len() ==> (#[trigger] peers[i]).valid_position()
                && peers[i].valid_charge(),
    ensures
        ({
            let f = net_electrostatic_force_spec(k_e, p, peers);
            &&& -(peers.len() as int) * PAIR_FORCE_MAX <= f.x <= (peers.len() as int)
                * PAIR_FORCE_MAX
            &&& -(peers.len() as int) * PAIR_FORCE_MAX <= f.y <= (peers.len() as int)
                * PAIR_FORCE_MAX
        }),
    decreases peers.len(),
{
    if peers.len() > 0 {
        lemma_net_force_bound(k_e, p, peers.drop_last());
        lemma_pair_force_bounds(k_e, p, peers.last());
    }
}

/// Removing one peer from the snapshot removes exactly its contribution
/// from the net electrostatic force.
proof fn lemma_net_force_remove(k_e: int, p: ParticleModel, peers: Seq<ParticleModel>, i: int)
    requires
        0 <= i < peers.len(),
    ensures
        ({
            let whole = net_electrostatic_force_spec(k_e, p, peers);
            let rest = net_electrostatic_force_spec(k_e, p, peers.remove(i));
            let c = peer_contribution_spec(k_e, p, peers[i]);
            whole.x == rest.x + c.x && whole.y == rest.y + c.y
        }),
    decreases peers.len(),
{
    if i == peers.len() - 1 {
        assert(peers.remove(i) =~= peers.drop_last());
    } else {
        let shorter = peers.drop_last();
        lemma_net_force_remove(k_e, p, shorter, i);
        assert(peers.remove(i).drop_last() =~= shorter.remove(i));
        assert(peers.remove(i).last() == peers.last());
    }
}

/// The net electrostatic force depends only on the multiset of peers in
/// the snapshot, never on the order the collection stores them in.
pub proof fn lemma_net_force_permutation(
    k_e: int,
    p: ParticleModel,
    s: Seq<ParticleModel>,
    t: Seq<ParticleModel>,
)
    requires
        s.to_multiset() == t.to_multiset(),
    ensures
        net_electrostatic_force_spec(k_e, p, s) == net_electrostatic_force_spec(k_e, p, t),
    decreases t.len(),
{
    broadcast use vstd::seq_lib::group_to_multiset_ensures;

    if t.len() == 0 {
        assert(s.len() == s.to_multiset().len());
    } else {
        let x = t.last();
        assert(t.to_multiset().count(x) > 0);
        assert(s.contains(x));
        let i = choose|i: int| 0 <= i < s.len() && s[i] == x;
        lemma_net_force_remove(k_e, p, s, i);
        assert(t.drop_last() =~= t.remove(t.len() - 1));
        assert(s.remove(i).to_multiset() == t.drop_last().to_multiset());
        lemma_net_force_permutation(k_e, p, s.remove(i), t.drop_last());
    }
}

impl Particle {
    /// The documented construction ranges: position inside the unit box,
    /// charge in `[-1, 1]`, mass in `(0, 1]` (all in fixed point).
    pub fn valid(pos_x: i128, pos_y: i128, charge: i128, mass: i128) -> (ok: bool)
        ensures
            ok == (0 <= pos_x <= SCALE && 0 <= pos_y <= SCALE && -SCALE <= charge <= SCALE && 0
                < mass <= SCALE),
    {
        0 <= pos_x && pos_x <= SCALE && 0 <= pos_y && pos_y <= SCALE && -SCALE <= charge && charge
            <= SCALE && 0 < mass && mass <= SCALE
    }

    /// Build a particle at rest. Construction is a validation boundary:
    /// the result is `Some` exactly when the parameters are in range, and
    /// the fresh particle is well-formed.
    pub fn new(id: u64, pos_x: i128, pos_y: i128, charge: i128, mass: i128) -> (r: Option<
        Particle,
    >)
        ensures
            r is Some <==> (0 <= pos_x <= SCALE && 0 <= pos_y <= SCALE && -SCALE <= charge <= SCALE
                && 0 < mass <= SCALE),
            r is Some ==> r->Some_0@ == (ParticleModel {
                id: id as int,
                position: Vec2Model { x: pos_x as int, y: pos_y as int },
                velocity: Vec2Model { x: 0, y: 0 },
                acceleration: Vec2Model { x: 0, y: 0 },
                charge: charge as int,
                mass: mass as int,
            }),
            r is Some ==> r->Some_0@.wf(),
    {
        if Self::valid(pos_x, pos_y, charge, mass) {
            Some(
                Particle {
                    id,
                    position: Vec2 { x: pos_x, y: pos_y },
                    velocity: Vec2::zero(),
                    acceleration: Vec2::zero(),
                    charge,
                    mass,
                },
            )
        } else {
            None
        }
    }

    /// The electrostatic force `other` exerts on `self`, proved against
    /// [`electrostatic_force_spec`] and bounded by [`PAIR_FORCE_MAX`].
    pub fn electrostatic_force(&self, other: &Particle, cfg: &SimConfig) -> (f: Vec2)
        requires
            self@.valid_position(),
            self@.valid_charge(),
            other@.valid_position(),
            other@.valid_charge(),
            cfg.wf(),
        ensures
            f@ == electrostatic_force_spec(cfg@.k_e, self@, other@),
            -PAIR_FORCE_MAX <= f.x <= PAIR_FORCE_MAX,
            -PAIR_FORCE_MAX <= f.y <= PAIR_FORCE_MAX,
    {
        proof {
            lemma_pair_force_bounds(cfg@.k_e, self@, other@);
        }
        let dx = self.position.x - other.position.x;
        let dy = self.position.y - other.position.y;
        let l2 = dx * dx + dy * dy;
        if l2 < EPS_LEN2 {
            Vec2 { x: 0, y: 0 }
        } else {
            let den = SCALE * l2;
            let kqq = cfg.k_e * self.charge * other.charge;
            let fx = tdiv_i128(kqq * dx, den);
            let fy = tdiv_i128(kqq * dy, den);
            Vec2 { x: fx, y: fy }
        }
    }

    /// The net electrostatic force on `self` from the snapshot `peers`,
    /// proved against [`net_electrostatic_force_spec`]: the sum of the
    /// pairwise forces from every peer whose id differs from `self`'s.
    /// `self` itself may or may not appear in `peers`; any entry carrying
    /// its id is skipped.
    pub fn net_electrostatic_force(&self, peers: &Vec<Particle>, cfg: &SimConfig) -> (f: Vec2)
        requires
            self@.valid_position(),
            self@.valid_charge(),
            forall|i: int|
                0 <= i < peers@.len() ==> (#[trigger] peers@[i])@.valid_position()
                    && peers@[i]@.valid_charge(),
            cfg.wf(),
        ensures
            f@ == net_electrostatic_force_spec(cfg@.k_e, self@, models_of(peers@)),
            -(peers@.len() as int) * PAIR_FORCE_MAX <= f.x <= (peers@.len() as int)
                * PAIR_FORCE_MAX,
            -(peers@.len() as int) * PAIR_FORCE_MAX <= f.y <= (peers@.len() as int)
                * PAIR_FORCE_MAX,
    {
        let ghost ms = models_of(peers@);
        let mut fx: i128 = 0;
        let mut fy: i128 = 0;
        let mut j: usize = 0;
        while j < peers.len()
            invariant
                0 <= j <= peers@.len(),
                ms == models_of(peers@),
                self@.valid_position(),
                self@.valid_charge(),
                forall|i: int|
                    0 <= i < peers@.len() ==> (#[trigger] peers@[i])@.valid_position()
                        && peers@[i]@.valid_charge(),
                cfg.wf(),
                (Vec2Model { x: fx as int, y: fy as int }) == net_electrostatic_force_spec(
                    cfg@.k_e,
                    self@,
                    ms.take(j as int),
                ),
                -(j as int) * PAIR_FORCE_MAX <= fx <= (j as int) * PAIR_FORCE_MAX,
                -(j as int) * PAIR_FORCE_MAX <= fy <= (j as int) * PAIR_FORCE_MAX,
            decreases peers@.len() - j,
        {
            let q = peers[j];
            let c = if q.id == self.id {
                Vec2 { x: 0, y: 0 }
            } else {
                self.electrostatic_force(&q, cfg)
            };
            proof {
                if q.id != self.id {
                    lemma_pair_force_bounds(cfg@.k_e, self@, q@);
                }
                assert(ms.take(j + 1).drop_last() =~= ms.take(j as int));
            }
            fx = fx + c.x;
            fy = fy + c.y;
            j = j + 1;
        }
        proof {
            assert(ms.take(peers@.len() as int) =~= ms);
        }
        Vec2 { x: fx, y: fy }
    }

    /// The uniform gravitational force on `self`, proved against
    /// [`gravitational_force_spec`]; it points down and its magnitude is
    /// at most `COEFF_MAX * SCALE / SCALE`.
    pub fn gravitational_force(&self, cfg: &SimConfig) -> (f: Vec2)
        requires
            self@.valid_mass(),
            cfg.wf(),
        ensures
            f@ == gravitational_force_spec(cfg@.k_g, self@),
            f.x == 0,
            -16_000_000_000_000 <= f.y <= 0,
    {
        proof {
            lemma_abs_mul_le(cfg@.k_g, self@.mass, COEFF_MAX as int, SCALE as int);
            assert(cfg@.k_g * self@.mass >= 0) by (nonlinear_arith)
                requires
                    cfg@.k_g >= 0,
                    self@.mass > 0,
            ;
            lemma_div_pos_is_pos(cfg@.k_g * self@.mass, SCALE as int);
            lemma_div_nonincreasing(cfg@.k_g * self@.mass, SCALE as int);
        }
        let num = cfg.k_g * self.mass;
        let mag = tdiv_i128(num, SCALE);
        Vec2 { x: 0, y: -mag }
    }

    /// Advance this particle by `dt` under `force`, per
    /// [`apply_force_spec`]: drag, acceleration, the semi-analytic
    /// velocity/position update, then elastic wall reflection.
    pub fn apply_force(&mut self, force: Vec2, dt: i128, cfg: &SimConfig)
        requires
            old(self)@.valid_position(),
            old(self)@.valid_velocity(),
            old(self)@.valid_mass(),
            cfg.wf(),
            -FORCE_MAX <= force.x <= FORCE_MAX,
            -FORCE_MAX <= force.y <= FORCE_MAX,
            0 <= dt <= DT_MAX,
        ensures
            final(self)@ == apply_force_spec(cfg@.k_d, old(self)@, force@, dt as int),
            final(self)@.valid_position(),
            final(self)@.valid_velocity(),
            final(self)@.valid_acceleration(),
            final(self).id == old(self).id,
            final(self).charge == old(self).charge,
            final(self).mass == old(self).mass,
    {
        let drag = drag_force(self.velocity, cfg);
        let sum_x = force.x + drag.x;
        let sum_y = force.y + drag.y;
        proof {
            lemma_abs_mul_le(sum_x as int, SCALE as int, FORCE_MAX + DRAG_MAX, SCALE as int);
            lemma_tdiv_ratio_bound(
                sum_x * SCALE,
                self@.mass,
                (FORCE_MAX + DRAG_MAX) * SCALE,
                1,
            );
            lemma_abs_mul_le(sum_y as int, SCALE as int, FORCE_MAX + DRAG_MAX, SCALE as int);
            lemma_tdiv_ratio_bound(
                sum_y * SCALE,
                self@.mass,
                (FORCE_MAX + DRAG_MAX) * SCALE,
                1,
            );
        }
        let ax = clamp_i128(tdiv_i128(sum_x * SCALE, self.mass), -A_MAX, A_MAX);
        let ay = clamp_i128(tdiv_i128(sum_y * SCALE, self.mass), -A_MAX, A_MAX);
        proof {
            lemma_abs_mul_le(ax as int, dt as int, A_MAX as int, DT_MAX as int);
            lemma_tdiv_ratio_bound(ax * dt, SCALE as int, A_MAX * DT_MAX, SCALE as int);
            lemma_abs_mul_le(ay as int, dt as int, A_MAX as int, DT_MAX as int);
            lemma_tdiv_ratio_bound(ay * dt, SCALE as int, A_MAX * DT_MAX, SCALE as int);
        }
        let dvx = tdiv_i128(ax * dt, SCALE);
        let dvy = tdiv_i128(ay * dt, SCALE);
        let vx = clamp_i128(self.velocity.x + dvx, -V_MAX, V_MAX);
        let vy = clamp_i128(self.velocity.y + dvy, -V_MAX, V_MAX);
        proof {
            lemma_abs_mul_le(dt as int, self@.velocity.x, DT_MAX as int, V_MAX as int);
            lemma_tdiv_ratio_bound(dt * self.velocity.x, SCALE as int, DT_MAX * V_MAX, SCALE as int);
            lemma_abs_mul_le(dt as int, dvx as int, DT_MAX as int, (A_MAX * DT_MAX) / (SCALE as int));
            lemma_tdiv_ratio_bound(
                dt * dvx,
                2 * SCALE,
                DT_MAX * ((A_MAX * DT_MAX) / (SCALE as int)),
                2 * SCALE,
            );
            lemma_abs_mul_le(dt as int, self@.velocity.y, DT_MAX as int, V_MAX as int);
            lemma_tdiv_ratio_bound(dt * self.velocity.y, SCALE as int, DT_MAX * V_MAX, SCALE as int);
            lemma_abs_mul_le(dt as int, dvy as int, DT_MAX as int, (A_MAX * DT_MAX) / (SCALE as int));
            lemma_tdiv_ratio_bound(
                dt * dvy,
                2 * SCALE,
                DT_MAX * ((A_MAX * DT_MAX) / (SCALE as int)),
                2 * SCALE,
            );
        }
        let px = self.position.x + tdiv_i128(dt * self.velocity.x, SCALE) + tdiv_i128(
            dt * dvx,
            2 * SCALE,
        );
        let py = self.position.y + tdiv_i128(dt * self.velocity.y, SCALE) + tdiv_i128(
            dt * dvy,
            2 * SCALE,
        );
        let (px2, vx2) = if px < 0 {
            (0i128, -vx)
        } else if px > SCALE {
            (SCALE, -vx)
        } else {
            (px, vx)
        };
        let (py2, vy2) = if py < 0 {
            (0i128, -vy)
        } else if py > SCALE {
            (SCALE, -vy)
        } else {
            (py, vy)
        };
        self.acceleration = Vec2 { x: ax, y: ay };
        self.velocity = Vec2 { x: vx2, y: vy2 };
        self.position = Vec2 { x: px2, y: py2 };
        proof {
            lemma_apply_force_wf(cfg@.k_d, old(self)@, force@, dt as int);
        }
    }
}

/// The drag force on a particle moving with velocity `v`, proved against
/// [`drag_force_spec`] and bounded by [`DRAG_MAX`].
fn drag_force(v: Vec2, cfg: &SimConfig) -> (d: Vec2)
    requires
        -V_MAX <= v.x <= V_MAX,
        -V_MAX <= v.y <= V_MAX,
        cfg.wf(),
    ensures
        d@ == drag_force_spec(cfg@.k_d, v@),
        -DRAG_MAX <= d.x <= DRAG_MAX,
        -DRAG_MAX <= d.y <= DRAG_MAX,
{
    if v.x == 0 && v.y == 0 {
        Vec2 { x: 0, y: 0 }
    } else {
        proof {
            assert(v@.x * v@.x >= 0 && v@.y * v@.y >= 0) by (nonlinear_arith);
            lemma_abs_mul_le(v@.x, v@.x, V_MAX as int, V_MAX as int);
            lemma_abs_mul_le(v@.y, v@.y, V_MAX as int, V_MAX as int);
        }
        let n2 = v.x * v.x + v.y * v.y;
        let mag_u = isqrt_u128(n2 as u128);
        proof {
            assert((2 * V_MAX) * (2 * V_MAX) >= 2 * (V_MAX * V_MAX)) by (nonlinear_arith)
                requires
                    V_MAX == 1_000_000_000_000_000i128,
            ;
            lemma_isqrt_le(n2 as int, mag_u as int, 2 * (V_MAX as int));
        }
        let mag = mag_u as i128;
        proof {
            lemma_abs_mul_le(cfg@.k_d, mag as int, COEFF_MAX as int, 2 * (V_MAX as int));
            lemma_abs_mul_le(
                cfg@.k_d * (mag as int),
                v@.x,
                COEFF_MAX * 2 * V_MAX,
                V_MAX as int,
            );
            lemma_abs_mul_le(
                cfg@.k_d * (mag as int),
                v@.y,
                COEFF_MAX * 2 * V_MAX,
                V_MAX as int,
            );
            lemma_tdiv_ratio_bound(
                -(cfg@.k_d * (mag as int) * v@.x),
                SCALE_SQ as int,
                COEFF_MAX * 2 * V_MAX * V_MAX,
                SCALE_SQ as int,
            );
            lemma_tdiv_ratio_bound(
                -(cfg@.k_d * (mag as int) * v@.y),
                SCALE_SQ as int,
                COEFF_MAX * 2 * V_MAX * V_MAX,
                SCALE_SQ as int,
            );
        }
        let dx = tdiv_i128(-(cfg.k_d * mag * v.x), SCALE_SQ);
        let dy = tdiv_i128(-(cfg.k_d * mag * v.y), SCALE_SQ);
        Vec2 { x: dx, y: dy }
    }
}

} // verus!
