//! The laws of the force model and of a tick, stated over the mathematical
//! models and proved for every input the data model allows.

use crate::config::ConfigModel;
use crate::math::{SCALE, lemma_tdiv_neg};
use crate::particle::{
    EPS_LEN2, ParticleModel, electrostatic_force_spec, gravitational_force_spec,
    lemma_apply_force_wf, lemma_net_force_permutation, net_electrostatic_force_spec,
};
use crate::system::{net_force_spec, particle_step_spec, step_spec};
use crate::vec2::Vec2Model;
use vstd::prelude::*;

verus! {

/// Self-exclusion. Peers count by identity alone: adding a particle to the
/// snapshot adds exactly its pairwise force when its id differs from `p`'s
/// — whatever the rest of its state, including a position equal to `p`'s —
/// and adds nothing at all when it carries `p`'s own id.
pub proof fn lemma_net_force_self_exclusion(
    k_e: int,
    p: ParticleModel,
    peers: Seq<ParticleModel>,
    q: ParticleModel,
)
    ensures
        q.id != p.id ==> net_electrostatic_force_spec(k_e, p, peers.push(q)) == (Vec2Model {
            x: net_electrostatic_force_spec(k_e, p, peers).x + electrostatic_force_spec(
                k_e,
                p,
                q,
            ).x,
            y: net_electrostatic_force_spec(k_e, p, peers).y + electrostatic_force_spec(
                k_e,
                p,
                q,
            ).y,
        }),
        q.id == p.id ==> net_electrostatic_force_spec(k_e, p, peers.push(q))
            == net_electrostatic_force_spec(k_e, p, peers),
{
    assert(peers.push(q).drop_last() =~= peers);
}

/// A particle never forces itself: over a snapshot in which every entry
/// carries `p`'s own id, the net electrostatic force vanishes.
pub proof fn lemma_net_force_ignores_own_id(k_e: int, p: ParticleModel, peers: Seq<ParticleModel>)
    requires
        forall|i: int| 0 <= i < peers.len() ==> (#[trigger] peers[i]).id == p.id,
    ensures
        net_electrostatic_force_spec(k_e, p, peers) == (Vec2Model { x: 0, y: 0 }),
    decreases peers.len(),
{
    if peers.len() > 0 {
        lemma_net_force_ignores_own_id(k_e, p, peers.drop_last());
    }
}

/// Symmetry: the electrostatic force `b` exerts on `a` is exactly opposite
/// to the force `a` exerts on `b` — at every separation, since under the
/// overlap guard both are zero.
pub proof fn lemma_electrostatic_symmetry(k_e: int, a: ParticleModel, b: ParticleModel)
    ensures
        electrostatic_force_spec(k_e, a, b).x == -electrostatic_force_spec(k_e, b, a).x,
        electrostatic_force_spec(k_e, a, b).y == -electrostatic_force_spec(k_e, b, a).y,
{
    let dx = a.position.x - b.position.x;
    let dy = a.position.y - b.position.y;
    let l2 = dx * dx + dy * dy;
    assert((-dx) * (-dx) == dx * dx && (-dy) * (-dy) == dy * dy) by (nonlinear_arith);
    if l2 >= EPS_LEN2 {
        assert(SCALE * l2 > 0) by (nonlinear_arith)
            requires
                l2 >= EPS_LEN2,
                SCALE == 1_000_000i128,
                EPS_LEN2 == 100_000_000i128,
        ;
        assert(k_e * b.charge * a.charge * (-dx) == -(k_e * a.charge * b.charge * dx))
            by (nonlinear_arith);
        assert(k_e * b.charge * a.charge * (-dy) == -(k_e * a.charge * b.charge * dy))
            by (nonlinear_arith);
        lemma_tdiv_neg(k_e * a.charge * b.charge * dx, SCALE * l2);
        lemma_tdiv_neg(k_e * a.charge * b.charge * dy, SCALE * l2);
    }
}

/// Overlap guard: two particles at the same position exert no
/// electrostatic force on each other, rather than a singular one.
pub proof fn lemma_overlap_guard(k_e: int, a: ParticleModel, b: ParticleModel)
    requires
        a.position == b.position,
    ensures
        electrostatic_force_spec(k_e, a, b) == (Vec2Model { x: 0, y: 0 }),
{
}

/// A whole run: the collection after a finite sequence of ticks.
pub open spec fn run_spec(
    cfg: ConfigModel,
    ps: Seq<ParticleModel>,
    dts: Seq<int>,
) -> Seq<ParticleModel>
    decreases dts.len(),
{
    if dts.len() == 0 {
        ps
    } else {
        run_spec(cfg, step_spec(cfg, ps, dts.first()), dts.drop_first())
    }
}

/// One tick keeps every particle well-formed — in particular inside the
/// unit box — and preserves the count and each particle's identity, charge
/// and mass.
pub proof fn lemma_step_preserves_wf(cfg: ConfigModel, ps: Seq<ParticleModel>, dt: int)
    requires
        forall|i: int| 0 <= i < ps.len() ==> (#[trigger] ps[i]).wf(),
    ensures
        step_spec(cfg, ps, dt).len() == ps.len(),
        forall|i: int|
            0 <= i < ps.len() ==> {
                let q = #[trigger] step_spec(cfg, ps, dt)[i];
                &&& q.wf()
                &&& q.valid_position()
                &&& q.id == ps[i].id
                &&& q.charge == ps[i].charge
                &&& q.mass == ps[i].mass
            },
{
    assert forall|i: int| 0 <= i < ps.len() implies {
        let q = #[trigger] step_spec(cfg, ps, dt)[i];
        &&& q.wf()
        &&& q.valid_position()
        &&& q.id == ps[i].id
        &&& q.charge == ps[i].charge
        &&& q.mass == ps[i].mass
    } by {
        lemma_apply_force_wf(cfg.k_d, ps[i], net_force_spec(cfg, ps[i], ps), dt);
    }
}

/// Containment: a collection of well-formed particles (inside the box)
/// stays well-formed — positions inside the box — after any finite
/// sequence of ticks.
pub proof fn lemma_run_stays_in_box(cfg: ConfigModel, ps: Seq<ParticleModel>, dts: Seq<int>)
    requires
        forall|i: int| 0 <= i < ps.len() ==> (#[trigger] ps[i]).wf(),
    ensures
        run_spec(cfg, ps, dts).len() == ps.len(),
        forall|i: int|
            0 <= i < ps.len() ==> (#[trigger] run_spec(cfg, ps, dts)[i]).wf() && run_spec(
                cfg,
                ps,
                dts,
            )[i].valid_position(),
    decreases dts.len(),
{
    if dts.len() > 0 {
        lemma_step_preserves_wf(cfg, ps, dts.first());
        lemma_run_stays_in_box(cfg, step_spec(cfg, ps, dts.first()), dts.drop_first());
    }
}

/// Order independence of a tick: if two collections hold the same
/// particles — the same multiset, in any storage order — then each
/// particle steps to the same next state in both, because the net force
/// depends only on the multiset of peers.
pub proof fn lemma_step_order_independent(
    cfg: ConfigModel,
    s: Seq<ParticleModel>,
    t: Seq<ParticleModel>,
    dt: int,
)
    requires
        s.to_multiset() == t.to_multiset(),
    ensures
        forall|i: int|
            0 <= i < t.len() ==> #[trigger] step_spec(cfg, t, dt)[i] == particle_step_spec(
                cfg,
                t[i],
                s,
                dt,
            ),
{
    assert forall|i: int|
        0 <= i < t.len() implies #[trigger] step_spec(cfg, t, dt)[i] == particle_step_spec(
        cfg,
        t[i],
        s,
        dt,
    ) by {
        lemma_net_force_permutation(cfg.k_e, t[i], t, s);
    }
}

/// A tick of an empty collection is a no-op.
pub proof fn lemma_step_empty_is_noop(cfg: ConfigModel, ps: Seq<ParticleModel>, dt: int)
    requires
        ps.len() == 0,
    ensures
        step_spec(cfg, ps, dt) == ps,
{
    assert(step_spec(cfg, ps, dt) =~= ps);
}

/// With exactly one particle in the collection, the electrostatic force on
/// it vanishes (it is its own only peer), so the tick is gravity and drag
/// alone.
pub proof fn lemma_single_particle_step(cfg: ConfigModel, ps: Seq<ParticleModel>, dt: int)
    requires
        ps.len() == 1,
    ensures
        net_electrostatic_force_spec(cfg.k_e, ps[0], ps) == (Vec2Model { x: 0, y: 0 }),
        net_force_spec(cfg, ps[0], ps) == gravitational_force_spec(cfg.k_g, ps[0]),
        step_spec(cfg, ps, dt)[0] == particle_step_spec(cfg, ps[0], ps, dt),
{
    lemma_net_force_ignores_own_id(cfg.k_e, ps[0], ps);
}

} // verus!
