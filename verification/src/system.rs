//! The particle system: a growable collection of particles advanced tick by
//! tick, with two-phase force computation so that a tick never depends on
//! the order the collection stores its particles in.

use crate::config::{ConfigModel, DT_MAX, SimConfig};
use crate::math::SCALE;
use crate::particle::{
    FORCE_MAX, PAIR_FORCE_MAX, Particle, ParticleModel, apply_force_spec,
    gravitational_force_spec, lemma_apply_force_wf, lemma_net_force_bound, models_of,
    net_electrostatic_force_spec,
};
use crate::vec2::{Vec2, Vec2Model};
use vstd::prelude::*;

verus! {

/// The force driving one particle through one tick: its net electrostatic
/// force from the snapshot of the collection, plus uniform gravity.
pub open spec fn net_force_spec(
    cfg: ConfigModel,
    p: ParticleModel,
    snapshot: Seq<ParticleModel>,
) -> Vec2Model {
    let e = net_electrostatic_force_spec(cfg.k_e, p, snapshot);
    let g = gravitational_force_spec(cfg.k_g, p);
    Vec2Model { x: e.x + g.x, y: e.y + g.y }
}

/// One particle's state after a tick: the force pre-computed from the
/// snapshot, fed through the integrator.
pub open spec fn particle_step_spec(
    cfg: ConfigModel,
    p: ParticleModel,
    snapshot: Seq<ParticleModel>,
    dt: int,
) -> ParticleModel {
    apply_force_spec(cfg.k_d, p, net_force_spec(cfg, p, snapshot), dt)
}

/// One tick of the whole system. Every particle is advanced using forces
/// read from the single snapshot `ps` — the state at the start of the tick —
/// never from partially updated state.
pub open spec fn step_spec(cfg: ConfigModel, ps: Seq<ParticleModel>, dt: int) -> Seq<ParticleModel> {
    ps.map(|i: int, p: ParticleModel| particle_step_spec(cfg, p, ps, dt))
}

/// The simulation core: an append-only collection of particles and the
/// force coefficients it runs under.
#[derive(Debug)]
pub struct ParticleSystem {
    pub particles: Vec<Particle>,
    pub config: SimConfig,
}

impl View for ParticleSystem {
    type V = Seq<ParticleModel>;

    open spec fn view(&self) -> Seq<ParticleModel> {
        models_of(self.particles@)
    }
}

impl ParticleSystem {
    /// A well-formed system: a valid configuration, every particle
    /// well-formed, and every id smaller than the collection length with
    /// no two ids equal (what a monotonic allocator over an append-only
    /// collection guarantees; a fresh id can always be drawn).
    pub open spec fn wf(self) -> bool {
        &&& self.config.wf()
        &&& forall|i: int|
            0 <= i < self@.len() ==> (#[trigger] self@[i]).wf() && 0 <= self@[i].id < self@.len()
        &&& forall|i: int, j: int| 0 <= i < j < self@.len() ==> self@[i].id != self@[j].id
    }

    /// An empty system running under `config`.
    pub fn new(config: SimConfig) -> (s: ParticleSystem)
        requires
            config.wf(),
        ensures
            s.wf(),
            s@.len() == 0,
            s.config == config,
    {
        ParticleSystem { particles: Vec::new(), config }
    }

    /// Create a particle and insert it with a fresh unique id. This is the
    /// validation boundary: the result is `Some(id)` exactly when the
    /// parameters are within the documented ranges, and otherwise the
    /// system is unchanged and the caller gets `None` back.
    pub fn create(&mut self, pos_x: i128, pos_y: i128, charge: i128, mass: i128) -> (r: Option<
        u64,
    >)
        requires
            old(self).wf(),
        ensures
            final(self).wf(),
            final(self).config == old(self).config,
            r is Some <==> (0 <= pos_x <= SCALE && 0 <= pos_y <= SCALE && -SCALE <= charge <= SCALE
                && 0 < mass <= SCALE),
            r is Some ==> r->Some_0 as int == old(self)@.len() && final(self)@ == old(self)@.push(
                ParticleModel {
                    id: old(self)@.len() as int,
                    position: Vec2Model { x: pos_x as int, y: pos_y as int },
                    velocity: Vec2Model { x: 0, y: 0 },
                    acceleration: Vec2Model { x: 0, y: 0 },
                    charge: charge as int,
                    mass: mass as int,
                },
            ),
            r is None ==> final(self)@ == old(self)@,
    {
        let id = self.particles.len() as u64;
        match Particle::new(id, pos_x, pos_y, charge, mass) {
            Some(p) => {
                self.particles.push(p);
                proof {
                    assert(models_of(old(self).particles@.push(p)) =~= models_of(
                        old(self).particles@,
                    ).push(p@));
                }
                Some(id)
            },
            None => None,
        }
    }

    /// One tick: advance the whole collection by `dt`, per [`step_spec`].
    ///
    /// Two phases, and the order matters: first every net force is computed
    /// from the state as it stood when the tick began, then every particle
    /// is integrated. Nothing is mutated until every force has been read.
    pub fn step(&mut self, dt: i128)
        requires
            old(self).wf(),
            0 <= dt <= DT_MAX,
        ensures
            final(self).wf(),
            final(self).config == old(self).config,
            final(self)@ == step_spec(old(self).config@, old(self)@, dt as int),
    {
        let ghost snap = self@;
        let ghost cfgm = self.config@;
        let n = self.particles.len();

        let mut forces: Vec<Vec2> = Vec::new();
        let mut i: usize = 0;
        while i < n
            invariant
                0 <= i <= n,
                n == self.particles@.len(),
                self@ == snap,
                self.config@ == cfgm,
                self.wf(),
                forces@.len() == i,
                forall|k: int|
                    0 <= k < i ==> (#[trigger] forces@[k])@ == net_force_spec(cfgm, snap[k], snap),
                forall|k: int|
                    0 <= k < i ==> -FORCE_MAX <= (#[trigger] forces@[k]).x <= FORCE_MAX && -FORCE_MAX
                        <= forces@[k].y <= FORCE_MAX,
            decreases n - i,
        {
            let p = self.particles[i];
            proof {
                assert(p@ == snap[i as int]);
                assert(forall|k: int|
                    0 <= k < self.particles@.len() ==> (#[trigger] self.particles@[k])@ == snap[k]);
            }
            let e = p.net_electrostatic_force(&self.particles, &self.config);
            let g = p.gravitational_force(&self.config);
            proof {
                assert((n as int) * PAIR_FORCE_MAX + 16_000_000_000_000 <= FORCE_MAX) by {
                    assert(n as int <= 0xffff_ffff_ffff_ffffu64);
                    assert((n as int) * PAIR_FORCE_MAX <= 0xffff_ffff_ffff_ffffu64
                        * PAIR_FORCE_MAX);
                }
            }
            let f = Vec2 { x: e.x + g.x, y: e.y + g.y };
            forces.push(f);
            i = i + 1;
        }

        let mut i: usize = 0;
        while i < n
            invariant
                0 <= i <= n,
                n == self.particles@.len(),
                snap.len() == n,
                0 <= dt <= DT_MAX,
                self.config@ == cfgm,
                self.config.wf(),
                forces@.len() == n,
                forall|k: int|
                    0 <= k < n ==> (#[trigger] forces@[k])@ == net_force_spec(cfgm, snap[k], snap),
                forall|k: int|
                    0 <= k < n ==> -FORCE_MAX <= (#[trigger] forces@[k]).x <= FORCE_MAX && -FORCE_MAX
                        <= forces@[k].y <= FORCE_MAX,
                forall|k: int| i <= k < n ==> (#[trigger] self.particles@[k])@ == snap[k],
                forall|k: int|
                    0 <= k < i ==> (#[trigger] self.particles@[k])@ == particle_step_spec(
                        cfgm,
                        snap[k],
                        snap,
                        dt as int,
                    ),
                forall|k: int| 0 <= k < n ==> (#[trigger] snap[k]).wf(),
            decreases n - i,
        {
            let mut p = self.particles[i];
            let f = forces[i];
            p.apply_force(f, dt, &self.config);
            self.particles[i] = p;
            i = i + 1;
        }

        proof {
            assert(self@ =~= step_spec(cfgm, snap, dt as int));
            assert forall|k: int| 0 <= k < self@.len() implies (#[trigger] self@[k]).wf() && 0
                <= self@[k].id < self@.len() by {
                lemma_apply_force_wf(
                    cfgm.k_d,
                    snap[k],
                    net_force_spec(cfgm, snap[k], snap),
                    dt as int,
                );
            }
            assert forall|k: int, l: int|
                0 <= k < l < self@.len() implies self@[k].id != self@[l].id by {
                lemma_apply_force_wf(
                    cfgm.k_d,
                    snap[k],
                    net_force_spec(cfgm, snap[k], snap),
                    dt as int,
                );
                lemma_apply_force_wf(
                    cfgm.k_d,
                    snap[l],
                    net_force_spec(cfgm, snap[l], snap),
                    dt as int,
                );
            }
        }
    }

    /// Advance by `dt` when it is an acceptable time step; a negative or
    /// oversized `dt` is rejected and leaves the system untouched.
    pub fn try_step(&mut self, dt: i128) -> (ok: bool)
        requires
            old(self).wf(),
        ensures
            final(self).wf(),
            final(self).config == old(self).config,
            ok <==> (0 <= dt <= DT_MAX),
            ok ==> final(self)@ == step_spec(old(self).config@, old(self)@, dt as int),
            !ok ==> final(self)@ == old(self)@,
    {
        if 0 <= dt && dt <= DT_MAX {
            self.step(dt);
            true
        } else {
            false
        }
    }
}

} // verus!
