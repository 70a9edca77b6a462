//! Bodies: simulated objects with position, velocity, shape, and per-step
//! force, impulse and friction accumulators.
//!
//! `Body::update` integrates one step of forward-Euler motion: the pending
//! impulses are converted into forces, friction is clamped so it can oppose
//! but never reverse the body's own momentum, and the accumulators are
//! cleared. Static bodies never move; Kinematic bodies move only by their
//! externally set velocity.

use vstd::prelude::*;
use crate::fix::{SCALE, imin, fix_min};
use crate::vec2::{Vec2, Vec2Model, vadd, vsub, vmul, vdiv, vnorm, vunit, vortho};
use crate::shape::{ShapeVariant, ShapeModel, shape_mass};

verus! {

/// Mathematical model of a detected contact.
pub ghost struct CollisionModel {
    pub point_a: Vec2Model,
    pub point_b: Vec2Model,
    pub normal_a: Vec2Model,
    pub normal_b: Vec2Model,
}

/// One detected contact between two bodies: a shared world-space contact
/// point and the unit normal on each side (each the negation of the other).
#[derive(Clone, Copy, Debug)]
pub struct Collision {
    pub point_a: Vec2,
    pub point_b: Vec2,
    pub normal_a: Vec2,
    pub normal_b: Vec2,
}

impl View for Collision {
    type V = CollisionModel;

    open spec fn view(&self) -> CollisionModel {
        CollisionModel {
            point_a: self.point_a@,
            point_b: self.point_b@,
            normal_a: self.normal_a@,
            normal_b: self.normal_b@,
        }
    }
}

/// Mobility class of a body.
#[derive(Clone, Copy, Debug, PartialEq, Eq, Structural)]
pub enum BodyType {
    /// Never moves; forces and impulses have no effect.
    Static,
    /// Moves only by its externally set velocity; forces have no effect.
    Kinematic,
    /// Fully simulated: affected by forces and impulses.
    Dynamic,
}

/// Mathematical model of a body definition.
pub ghost struct BodyDefModel {
    pub density: int,
    pub body_type: BodyType,
    pub restitution: int,
    pub friction: int,
}

/// Immutable configuration attached at body creation. Restitution is a
/// fixed-point fraction in `[0, SCALE]`; density and friction are
/// non-negative fixed-point scalars. Construction-time validation of these
/// ranges is the caller's responsibility.
#[derive(Clone, Copy, Debug)]
pub struct BodyDef {
    pub density: i64,
    pub body_type: BodyType,
    pub restitution: i64,
    pub friction: i64,
}

impl View for BodyDef {
    type V = BodyDefModel;

    open spec fn view(&self) -> BodyDefModel {
        BodyDefModel {
            density: self.density as int,
            body_type: self.body_type,
            restitution: self.restitution as int,
            friction: self.friction as int,
        }
    }
}

impl BodyDef {
    /// Default configuration: unit density, half restitution, friction of
    /// six tenths.
    pub fn new(body_type: BodyType) -> (r: BodyDef)
        ensures
            r@.density == SCALE as int,
            r@.body_type == body_type,
            r@.restitution == (SCALE as int) / 2,
            r@.friction == (SCALE as int) * 6 / 10,
    {
        BodyDef { density: SCALE, body_type, restitution: SCALE / 2, friction: SCALE * 6 / 10 }
    }
}

/// Mathematical model of a body.
#[verifier::ext_equal]
pub ghost struct BodyModel<T> {
    pub user_data: Option<T>,
    pub vel: Vec2Model,
    pub pos: Vec2Model,
    pub def: BodyDefModel,
    pub shape: ShapeModel,
    pub forces: Seq<Vec2Model>,
    pub impulses: Seq<Vec2Model>,
    pub friction: Seq<Vec2Model>,
    pub prev_net_force: Vec2Model,
}

/// The zero vector.
pub open spec fn zero_v() -> Vec2Model {
    Vec2Model { x: 0, y: 0 }
}

/// Sum of the first `n` vectors of `s`, in order.
pub open spec fn sum_vecs(s: Seq<Vec2Model>, n: int) -> Vec2Model
    decreases n,
{
    if n <= 0 {
        zero_v()
    } else {
        vadd(sum_vecs(s, n - 1), s[n - 1])
    }
}

/// `acc` plus the first `n` impulses of `s`, each converted to an
/// equivalent force over the step (`impulse / dt`).
pub open spec fn add_impulses_as_forces(
    acc: Vec2Model,
    s: Seq<Vec2Model>,
    n: int,
    dt: int,
) -> Vec2Model
    decreases n,
{
    if n <= 0 {
        acc
    } else {
        vadd(add_impulses_as_forces(acc, s, n - 1, dt), vdiv(s[n - 1], dt))
    }
}

/// Mass of a body: its shape's full extent at its density.
pub open spec fn body_mass<T>(b: BodyModel<T>) -> int {
    shape_mass(b.shape, b.def.density)
}

/// Momentum of a body: velocity times mass.
pub open spec fn body_momentum<T>(b: BodyModel<T>) -> Vec2Model {
    vmul(b.vel, body_mass(b))
}

/// Net force pending on a body: the applied forces summed, plus each
/// applied impulse converted to a force over the step.
pub open spec fn body_net_force<T>(b: BodyModel<T>, dt: int) -> Vec2Model {
    add_impulses_as_forces(
        sum_vecs(b.forces, b.forces.len() as int),
        b.impulses,
        b.impulses.len() as int,
        dt,
    )
}

/// The force a single pending friction impulse `f` subtracts from the net
/// force: directed along the unit of the momentum component orthogonal to
/// `f`, with magnitude clamped at the momentum `req` it could cancel, so
/// friction may oppose motion but never reverse it.
pub open spec fn friction_term(req: Vec2Model, f: Vec2Model, dt: int) -> Vec2Model {
    vmul(vunit(vortho(req, f)), imin(vnorm(vdiv(f, dt)), vnorm(req)))
}

/// `net` after subtracting the clamped friction terms of the first `n`
/// pending friction impulses.
pub open spec fn apply_friction_clamp(
    net: Vec2Model,
    req: Vec2Model,
    s: Seq<Vec2Model>,
    n: int,
    dt: int,
) -> Vec2Model
    decreases n,
{
    if n <= 0 {
        net
    } else {
        vsub(apply_friction_clamp(net, req, s, n - 1, dt), friction_term(req, s[n - 1], dt))
    }
}

/// The net force a dynamic body integrates: pending forces and impulses,
/// less the clamped friction terms.
pub open spec fn body_step_net<T>(b: BodyModel<T>, dt: int) -> Vec2Model {
    apply_friction_clamp(
        body_net_force(b, dt),
        body_momentum(b),
        b.friction,
        b.friction.len() as int,
        dt,
    )
}

/// One integration step of a body, per its mobility class: a Dynamic body
/// accelerates by `net / mass` and then moves; a Kinematic body only moves
/// by its set velocity; a Static body does not move. All accumulators are
/// cleared unconditionally.
pub open spec fn body_step<T>(b: BodyModel<T>, dt: int) -> BodyModel<T> {
    let net = body_step_net(b, dt);
    let vel1 = if b.def.body_type == BodyType::Dynamic {
        vadd(b.vel, vmul(vdiv(net, body_mass(b)), dt))
    } else {
        b.vel
    };
    let pnf1 = if b.def.body_type == BodyType::Dynamic {
        net
    } else {
        b.prev_net_force
    };
    let pos1 = if b.def.body_type != BodyType::Static {
        vadd(b.pos, vmul(vel1, dt))
    } else {
        b.pos
    };
    BodyModel {
        vel: vel1,
        pos: pos1,
        prev_net_force: pnf1,
        forces: Seq::empty(),
        impulses: Seq::empty(),
        friction: Seq::empty(),
        ..b
    }
}

/// The state after integrating a whole sequence of steps, in order.
pub open spec fn body_trajectory<T>(b: BodyModel<T>, dts: Seq<int>) -> BodyModel<T>
    decreases dts.len(),
{
    if dts.len() == 0 {
        b
    } else {
        body_trajectory(body_step(b, dts[0]), dts.subrange(1, dts.len() as int))
    }
}

/// Integration is deterministic: two bodies in equal states stepped through
/// the same sequence of time steps follow equal trajectories.
pub proof fn lemma_integration_deterministic<T>(b1: BodyModel<T>, b2: BodyModel<T>, dts: Seq<int>)
    requires
        b1 == b2,
    ensures
        body_trajectory(b1, dts) == body_trajectory(b2, dts),
{
}

/// A Static body's position and velocity are unchanged by a step, whatever
/// forces, impulses or friction are pending on it.
pub proof fn lemma_static_step_unmoved<T>(b: BodyModel<T>, dt: int)
    requires
        b.def.body_type == BodyType::Static,
    ensures
        body_step(b, dt).pos == b.pos,
        body_step(b, dt).vel == b.vel,
{
}

/// A Static body's position and velocity are unchanged by any number of
/// steps, whatever forces, impulses or friction are pending on it.
pub proof fn lemma_static_trajectory_unmoved<T>(b: BodyModel<T>, dts: Seq<int>)
    requires
        b.def.body_type == BodyType::Static,
    ensures
        body_trajectory(b, dts).pos == b.pos,
        body_trajectory(b, dts).vel == b.vel,
    decreases dts.len(),
{
    if dts.len() == 0 {
    } else {
        lemma_static_trajectory_unmoved(body_step(b, dts[0]), dts.subrange(1, dts.len() as int));
    }
}

/// A simulated object: position, velocity, configuration, shape, and the
/// per-step accumulators that `update` consumes.
pub struct Body<T> {
    /// Opaque correlation data for the owning application.
    pub user_data: Option<T>,
    /// Current velocity; prefer impulses over setting this directly.
    pub vel: Vec2,
    /// Current position of the shape's centre.
    pub pos: Vec2,
    /// Immutable configuration.
    pub def: BodyDef,
    shape: ShapeVariant,
    applied_forces: Vec<Vec2>,
    applied_impulses: Vec<Vec2>,
    applied_friction: Vec<Vec2>,
    prev_net_force: Vec2,
}

impl<T> View for Body<T> {
    type V = BodyModel<T>;

    closed spec fn view(&self) -> BodyModel<T> {
        BodyModel {
            user_data: self.user_data,
            vel: self.vel@,
            pos: self.pos@,
            def: self.def@,
            shape: self.shape@,
            forces: self.applied_forces@.map_values(|v: Vec2| v@),
            impulses: self.applied_impulses@.map_values(|v: Vec2| v@),
            friction: self.applied_friction@.map_values(|v: Vec2| v@),
            prev_net_force: self.prev_net_force@,
        }
    }
}

impl<T> Body<T> {
    /// A new body of the given shape and configuration: at the origin, at
    /// rest, with nothing pending.
    pub fn new(shape: ShapeVariant, def: BodyDef) -> (r: Body<T>)
        ensures
            r@.user_data is None,
            r@.vel == zero_v(),
            r@.pos == zero_v(),
            r@.def == def@,
            r@.shape == shape@,
            r@.forces == Seq::<Vec2Model>::empty(),
            r@.impulses == Seq::<Vec2Model>::empty(),
            r@.friction == Seq::<Vec2Model>::empty(),
            r@.prev_net_force == zero_v(),
    {
        let r = Body {
            user_data: None,
            def,
            shape,
            vel: Vec2::default(),
            pos: Vec2::default(),
            applied_forces: Vec::new(),
            applied_impulses: Vec::new(),
            applied_friction: Vec::new(),
            prev_net_force: Vec2::new(0, 0),
        };
        proof {
            assert(r@.forces =~= Seq::<Vec2Model>::empty());
            assert(r@.impulses =~= Seq::<Vec2Model>::empty());
            assert(r@.friction =~= Seq::<Vec2Model>::empty());
        }
        r
    }

    /// Current position.
    pub fn pos(&self) -> (r: Vec2)
        ensures
            r@ == self@.pos,
    {
        self.pos
    }

    /// Current velocity.
    pub fn vel(&self) -> (r: Vec2)
        ensures
            r@ == self@.vel,
    {
        self.vel
    }

    /// Move the body to a position directly.
    pub fn set_pos(&mut self, pos: Vec2)
        ensures
            final(self)@ == (BodyModel { pos: pos@, ..old(self)@ }),
    {
        self.pos = pos;
        proof {
            assert(final(self)@ =~= (BodyModel { pos: pos@, ..old(self)@ }));
        }
    }

    /// Set the body's velocity directly.
    pub fn set_vel(&mut self, vel: Vec2)
        ensures
            final(self)@ == (BodyModel { vel: vel@, ..old(self)@ }),
    {
        self.vel = vel;
        proof {
            assert(final(self)@ =~= (BodyModel { vel: vel@, ..old(self)@ }));
        }
    }

    /// The body's configuration.
    pub fn body_def(&self) -> (r: BodyDef)
        ensures
            r@ == self@.def,
    {
        self.def
    }

    /// Queue a force for the next `update`; multiple forces accumulate.
    pub fn apply_force(&mut self, force: Vec2)
        ensures
            final(self)@ == (BodyModel { forces: old(self)@.forces.push(force@), ..old(self)@ }),
    {
        self.applied_forces.push(force);
        proof {
            assert(final(self)@.forces =~= old(self)@.forces.push(force@));
            assert(final(self)@ =~= (BodyModel {
                forces: old(self)@.forces.push(force@),
                ..old(self)@
            }));
        }
    }

    /// Queue an impulse for the next `update`; multiple impulses accumulate.
    pub fn apply_impulse(&mut self, impulse: Vec2)
        ensures
            final(self)@ == (BodyModel {
                impulses: old(self)@.impulses.push(impulse@),
                ..old(self)@
            }),
    {
        self.applied_impulses.push(impulse);
        proof {
            assert(final(self)@.impulses =~= old(self)@.impulses.push(impulse@));
            assert(final(self)@ =~= (BodyModel {
                impulses: old(self)@.impulses.push(impulse@),
                ..old(self)@
            }));
        }
    }

    /// Queue a friction impulse for the next `update`; friction is clamped
    /// there so it can oppose the body's momentum but never reverse it.
    pub fn apply_friction(&mut self, friction: Vec2)
        ensures
            final(self)@ == (BodyModel {
                friction: old(self)@.friction.push(friction@),
                ..old(self)@
            }),
    {
        self.applied_friction.push(friction);
        proof {
            assert(final(self)@.friction =~= old(self)@.friction.push(friction@));
            assert(final(self)@ =~= (BodyModel {
                friction: old(self)@.friction.push(friction@),
                ..old(self)@
            }));
        }
    }

    /// Momentum: velocity times mass.
    pub fn momentum(&self) -> (r: Vec2)
        ensures
            r@ == body_momentum(self@),
    {
        self.vel.mul(self.mass())
    }

    /// The body's shape.
    pub fn borrow_shape(&self) -> (r: &ShapeVariant)
        ensures
            r@ == self@.shape,
    {
        &self.shape
    }

    /// Mass: the shape's full extent at the configured density.
    pub fn mass(&self) -> (r: i64)
        ensures
            r as int == body_mass(self@),
    {
        self.shape.mass(self.def.density)
    }

    /// The configured restitution.
    pub fn restitution(&self) -> (r: i64)
        ensures
            r as int == self@.def.restitution,
    {
        self.def.restitution
    }

    /// Whether the body is immovable by the resolver: anything not Dynamic.
    pub fn is_static(&self) -> (r: bool)
        ensures
            r == (self@.def.body_type != BodyType::Dynamic),
    {
        self.def.body_type != BodyType::Dynamic
    }

    /// The net force pending on this body: queued forces summed, plus each
    /// queued impulse converted to a force over the step.
    pub fn current_net_force(&self, dt: i64) -> (r: Vec2)
        ensures
            r@ == body_net_force(self@, dt as int),
    {
        let mut net = Vec2::new(0, 0);
        let n: usize = self.applied_forces.len();
        let mut i: usize = 0;
        while i < n
            invariant
                i <= n,
                n == self.applied_forces.len(),
                net@ == sum_vecs(self@.forces, i as int),
            decreases n - i,
        {
            net = net.add(self.applied_forces[i]);
            i = i + 1;
        }
        let m: usize = self.applied_impulses.len();
        let mut j: usize = 0;
        while j < m
            invariant
                j <= m,
                m == self.applied_impulses.len(),
                net@ == add_impulses_as_forces(
                    sum_vecs(self@.forces, self@.forces.len() as int),
                    self@.impulses,
                    j as int,
                    dt as int,
                ),
            decreases m - j,
        {
            net = net.add(self.applied_impulses[j].div(dt));
            j = j + 1;
        }
        net
    }

    /// The net force the last `update` integrated.
    pub fn prev_net_force(&self) -> (r: Vec2)
        ensures
            r@ == self@.prev_net_force,
    {
        self.prev_net_force
    }

    /// One integration step: a Dynamic body integrates its pending forces,
    /// impulses and clamped friction and then moves; a Kinematic body moves
    /// by its set velocity; a Static body does not move. All accumulators
    /// are cleared unconditionally.
    pub fn update(&mut self, dt: i64)
        requires
            dt > 0,
        ensures
            final(self)@ == body_step(old(self)@, dt as int),
    {
        if self.def.body_type == BodyType::Dynamic {
            let mass: i64 = self.mass();
            let mut net: Vec2 = self.current_net_force(dt);
            let required_impulse: Vec2 = self.momentum();
            let k: usize = self.applied_friction.len();
            let mut i: usize = 0;
            while i < k
                invariant
                    i <= k,
                    k == self.applied_friction.len(),
                    net@ == apply_friction_clamp(
                        body_net_force(self@, dt as int),
                        body_momentum(self@),
                        self@.friction,
                        i as int,
                        dt as int,
                    ),
                    required_impulse@ == body_momentum(self@),
                decreases k - i,
            {
                let f: Vec2 = self.applied_friction[i];
                let component_momentum: Vec2 = required_impulse.orthogonalise(f);
                let unit_component_momentum: Vec2 = component_momentum.unit();
                let resultant_norm: i64 = fix_min(f.div(dt).norm(), required_impulse.norm());
                net = net.sub(unit_component_momentum.mul(resultant_norm));
                i = i + 1;
            }
            let a: Vec2 = net.div(mass);
            self.vel = self.vel.add(a.mul(dt));
            self.prev_net_force = net;
        }
        if self.def.body_type != BodyType::Static {
            self.pos = self.pos.add(self.vel.mul(dt));
        }
        self.applied_forces.clear();
        self.applied_impulses.clear();
        self.applied_friction.clear();
        proof {
            assert(final(self)@.forces =~= Seq::<Vec2Model>::empty());
            assert(final(self)@.impulses =~= Seq::<Vec2Model>::empty());
            assert(final(self)@.friction =~= Seq::<Vec2Model>::empty());
            assert(final(self)@ =~= body_step(old(self)@, dt as int));
        }
    }
}

} // verus!
