//! The simulation space: owns the bodies and drives each tick.
//!
//! `update` runs one step: gravity application and integration for every
//! body, then an all-pairs narrow phase, then impulse resolution, friction
//! and positional correction for each detected contact. Resolution queues
//! impulses that take effect on the *next* step, keeping it decoupled from
//! the integration that already ran. Each resolved contact is reported as a
//! `CollisionEvent` record for the caller to drain and react to after the
//! step, instead of a re-entrant callback.
//!
//! Bodies live in a dense arena; a `BodyHandle` is an index into it. The
//! arena never shrinks, so handles stay valid for the life of the space.

use vstd::prelude::*;
use crate::fix::{SCALE, fadd, fhalf, fmul, fix_add, fix_half};
use crate::vec2::{Vec2, Vec2Model, vadd, vsub, vmul, vdiv, vnorm, vproj};
use crate::body::{
    Body, BodyModel, BodyType, Collision, CollisionModel, body_mass, body_momentum, zero_v,
    body_step,
};
use crate::shape::{shape_collides, shape_cast_ray};

verus! {

/// Relative speeds below this threshold (one unit per second) resolve with
/// zero restitution: nearly resting contacts do not bounce.
pub const VELOCITY_THRESHOLD: i64 = 1000;

/// A shared handle to a body in a space: an index into the space's arena.
/// Cloning the handle does not clone the body.
#[derive(Clone, Copy, Debug)]
pub struct BodyHandle {
    index: usize,
}

impl View for BodyHandle {
    type V = int;

    closed spec fn view(&self) -> int {
        self.index as int
    }
}

/// Mathematical model of a reported contact: the two body indices and the
/// contact geometry.
pub ghost struct CollisionEventModel {
    pub first: int,
    pub second: int,
    pub collision: CollisionModel,
}

/// One resolved contact of a step, reported to the caller after the
/// built-in resolution has queued its impulses.
#[derive(Clone, Copy)]
pub struct CollisionEvent {
    pub first: BodyHandle,
    pub second: BodyHandle,
    pub collision: Collision,
}

impl View for CollisionEvent {
    type V = CollisionEventModel;

    open spec fn view(&self) -> CollisionEventModel {
        CollisionEventModel {
            first: self.first@,
            second: self.second@,
            collision: self.collision@,
        }
    }
}

/// Mathematical model of a space.
#[verifier::ext_equal]
pub ghost struct SpaceModel<T> {
    pub gravity: Vec2Model,
    pub bodies: Seq<BodyModel<T>>,
}

/// The models of a sequence of bodies.
pub open spec fn models<T>(s: Seq<Body<T>>) -> Seq<BodyModel<T>> {
    s.map_values(|b: Body<T>| b@)
}

/// The models of a sequence of events.
pub open spec fn event_models(s: Seq<CollisionEvent>) -> Seq<CollisionEventModel> {
    s.map_values(|e: CollisionEvent| e@)
}

/// The impulse pair resolving one contact: each body's momentum change
/// along the contact normal toward the shared final velocity (deformation),
/// plus a restitution-proportional rebound (restoration). Static bodies
/// contribute no momentum; a relative speed below `VELOCITY_THRESHOLD`
/// forces restitution to zero.
pub open spec fn collision_impulses<T, U>(
    c: CollisionModel,
    b1: BodyModel<T>,
    b2: BodyModel<U>,
) -> (Vec2Model, Vec2Model) {
    let relative_speed = vnorm(vsub(b1.vel, b2.vel));
    let restitution = if relative_speed < VELOCITY_THRESHOLD as int {
        0
    } else {
        fhalf(fadd(b1.def.restitution, b2.def.restitution))
    };
    let static1 = b1.def.body_type != BodyType::Dynamic;
    let static2 = b2.def.body_type != BodyType::Dynamic;
    let momentum1 = if static1 {
        zero_v()
    } else {
        body_momentum(b1)
    };
    let momentum2 = if static2 {
        zero_v()
    } else {
        body_momentum(b2)
    };
    let total_momentum = if !static1 && !static2 {
        vadd(momentum1, momentum2)
    } else {
        zero_v()
    };
    let final_velocity = vdiv(total_momentum, fadd(body_mass(b1), body_mass(b2)));
    let deformation1 = vproj(vsub(vmul(final_velocity, body_mass(b1)), momentum1), c.normal_a);
    let deformation2 = vproj(vsub(vmul(final_velocity, body_mass(b2)), momentum2), c.normal_a);
    (
        vadd(deformation1, vmul(deformation1, restitution)),
        vadd(deformation2, vmul(deformation2, restitution)),
    )
}

/// The displacement of positional correction: a ray cast from the contact
/// point backward along the exaggerated inverted normal finds where the ray
/// entered the first body's shape; the normal scaled onto that penetration
/// is the push. No hit means no push.
pub open spec fn correction_displacement<T>(c: CollisionModel, b1: BodyModel<T>) -> Vec2Model {
    let hit = shape_cast_ray(b1.shape, b1.pos, c.point_a, vmul(c.normal_a, -5 * SCALE));
    match hit {
        Some(entry) => crate::vec2::vscale_to(c.normal_a, vsub(c.point_a, entry)),
        None => zero_v(),
    }
}

/// The corrected positions of a colliding pair: the displacement split
/// evenly when both bodies are movable, doubled onto the movable one when
/// exactly one is static, and no motion otherwise.
pub open spec fn corrected_positions<T, U>(
    c: CollisionModel,
    b1: BodyModel<T>,
    b2: BodyModel<U>,
) -> (Vec2Model, Vec2Model) {
    let d = correction_displacement(c, b1);
    let static1 = b1.def.body_type != BodyType::Dynamic;
    let static2 = b2.def.body_type != BodyType::Dynamic;
    if !static1 && !static2 {
        (vadd(b1.pos, d), vsub(b2.pos, d))
    } else {
        (
            if static2 && !static1 {
                vadd(b1.pos, vmul(d, 2 * SCALE))
            } else {
                b1.pos
            },
            if static1 && !static2 {
                vsub(b2.pos, vmul(d, 2 * SCALE))
            } else {
                b2.pos
            },
        )
    }
}

/// Full resolution of one contact: a pair of two static bodies is left
/// untouched; otherwise positions are corrected and each body is queued its
/// impulse and a friction impulse scaled by the averaged friction.
pub open spec fn solve_pair<T, U>(c: CollisionModel, b1: BodyModel<T>, b2: BodyModel<U>) -> (
    BodyModel<T>,
    BodyModel<U>,
) {
    let static1 = b1.def.body_type != BodyType::Dynamic;
    let static2 = b2.def.body_type != BodyType::Dynamic;
    if static1 && static2 {
        (b1, b2)
    } else {
        let imp = collision_impulses(c, b1, b2);
        let pos = corrected_positions(c, b1, b2);
        let friction = fhalf(fadd(b1.def.friction, b2.def.friction));
        (
            BodyModel {
                pos: pos.0,
                impulses: b1.impulses.push(imp.0),
                friction: b1.friction.push(vmul(imp.0, friction)),
                ..b1
            },
            BodyModel {
                pos: pos.1,
                impulses: b2.impulses.push(imp.1),
                friction: b2.friction.push(vmul(imp.1, friction)),
                ..b2
            },
        )
    }
}

/// The velocity both bodies of a contact are driven toward along the
/// normal: total momentum over total mass, in fixed-point arithmetic.
pub open spec fn shared_final_velocity(p1: int, p2: int, m1: int, m2: int) -> int {
    crate::fix::tdiv((p1 + p2) * (SCALE as int), m1 + m2)
}

/// No intermediate of the impulse computation saturates: the total
/// momentum, the shared final velocity, and each deformation impulse lie in
/// the representable range. `p1`, `p2` are the bodies' momenta along the
/// contact normal; `m1`, `m2` their masses.
pub open spec fn resolution_unsaturated(p1: int, p2: int, m1: int, m2: int) -> bool {
    let fv = shared_final_velocity(p1, p2, m1, m2);
    let t1 = crate::fix::tdiv(fv * m1, SCALE as int);
    let t2 = crate::fix::tdiv(fv * m2, SCALE as int);
    crate::fix::in_fix(p1 + p2) && crate::fix::in_fix(fv) && crate::fix::in_fix(t1)
        && crate::fix::in_fix(t2) && crate::fix::in_fix(t1 - p1) && crate::fix::in_fix(t2 - p2)
}

/// The two deformation impulses of a contact cancel up to rounding: their
/// sum is below one grain per unit of total mass, plus two grains. This is
/// the arithmetic core of momentum conservation.
pub proof fn lemma_deformation_sum_bound(p1: int, p2: int, m1: int, m2: int)
    requires
        m1 >= 0,
        m2 >= 0,
        0 < m1 + m2,
    ensures
        ({
            let fv = shared_final_velocity(p1, p2, m1, m2);
            let d1 = crate::fix::tdiv(fv * m1, SCALE as int) - p1;
            let d2 = crate::fix::tdiv(fv * m2, SCALE as int) - p2;
            (SCALE as int) * crate::fix::iabs(d1 + d2) < 2 * (SCALE as int) + (m1 + m2)
        }),
{
    let s = SCALE as int;
    let mm = m1 + m2;
    let p = p1 + p2;
    let fv = crate::fix::tdiv(p * s, mm);
    crate::fix::lemma_tdiv_rem(p * s, mm);
    let r3 = p * s - mm * fv;
    let t1 = crate::fix::tdiv(fv * m1, s);
    crate::fix::lemma_tdiv_rem(fv * m1, s);
    let r1 = fv * m1 - s * t1;
    let t2 = crate::fix::tdiv(fv * m2, s);
    crate::fix::lemma_tdiv_rem(fv * m2, s);
    let r2 = fv * m2 - s * t2;
    assert(fv * m1 + fv * m2 == fv * mm) by (nonlinear_arith)
        requires
            mm == m1 + m2,
    ;
    assert(fv * mm == mm * fv) by (nonlinear_arith);
    let d1 = t1 - p1;
    let d2 = t2 - p2;
    assert(s * (d1 + d2) == -(r1 + r2 + r3));
    assert(crate::fix::iabs(r1) < s);
    assert(crate::fix::iabs(r2) < s);
    assert(crate::fix::iabs(r3) < mm);
}

/// Momentum conservation in the elastic case: for two Dynamic bodies of
/// full restitution meeting above the inelastic threshold, the resolution
/// impulses cancel exactly across the contact normal and up to rounding
/// (below one grain per unit of total mass, plus two, doubled) along it, so
/// total momentum is preserved within that tolerance.
pub proof fn lemma_momentum_conservation_elastic<T, U>(
    c: CollisionModel,
    b1: BodyModel<T>,
    b2: BodyModel<U>,
)
    requires
        b1.def.body_type == BodyType::Dynamic,
        b2.def.body_type == BodyType::Dynamic,
        b1.def.restitution == SCALE as int,
        b2.def.restitution == SCALE as int,
        vnorm(vsub(b1.vel, b2.vel)) >= VELOCITY_THRESHOLD as int,
        body_mass(b1) >= 0,
        body_mass(b2) >= 0,
        0 < body_mass(b1) + body_mass(b2),
        crate::fix::in_fix(body_mass(b1) + body_mass(b2)),
        (c.normal_a.x == 0 && (c.normal_a.y == SCALE as int || c.normal_a.y == -(SCALE as int)))
            || (c.normal_a.y == 0 && (c.normal_a.x == SCALE as int || c.normal_a.x == -(
        SCALE as int))),
        c.normal_a.x == 0 ==> resolution_unsaturated(
            body_momentum(b1).y,
            body_momentum(b2).y,
            body_mass(b1),
            body_mass(b2),
        ) && crate::fix::in_fix(
            2 * (crate::fix::tdiv(
                shared_final_velocity(
                    body_momentum(b1).y,
                    body_momentum(b2).y,
                    body_mass(b1),
                    body_mass(b2),
                ) * body_mass(b1),
                SCALE as int,
            ) - body_momentum(b1).y),
        ) && crate::fix::in_fix(
            2 * (crate::fix::tdiv(
                shared_final_velocity(
                    body_momentum(b1).y,
                    body_momentum(b2).y,
                    body_mass(b1),
                    body_mass(b2),
                ) * body_mass(b2),
                SCALE as int,
            ) - body_momentum(b2).y),
        ),
        c.normal_a.y == 0 ==> resolution_unsaturated(
            body_momentum(b1).x,
            body_momentum(b2).x,
            body_mass(b1),
            body_mass(b2),
        ) && crate::fix::in_fix(
            2 * (crate::fix::tdiv(
                shared_final_velocity(
                    body_momentum(b1).x,
                    body_momentum(b2).x,
                    body_mass(b1),
                    body_mass(b2),
                ) * body_mass(b1),
                SCALE as int,
            ) - body_momentum(b1).x),
        ) && crate::fix::in_fix(
            2 * (crate::fix::tdiv(
                shared_final_velocity(
                    body_momentum(b1).x,
                    body_momentum(b2).x,
                    body_mass(b1),
                    body_mass(b2),
                ) * body_mass(b2),
                SCALE as int,
            ) - body_momentum(b2).x),
        ),
    ensures
        ({
            let imp = collision_impulses(c, b1, b2);
            c.normal_a.x == 0 ==> imp.0.x == 0 && imp.1.x == 0 && (SCALE as int)
                * crate::fix::iabs(imp.0.y + imp.1.y) < 2 * (2 * (SCALE as int) + body_mass(b1)
                + body_mass(b2))
        }),
        ({
            let imp = collision_impulses(c, b1, b2);
            c.normal_a.y == 0 ==> imp.0.y == 0 && imp.1.y == 0 && (SCALE as int)
                * crate::fix::iabs(imp.0.x + imp.1.x) < 2 * (2 * (SCALE as int) + body_mass(b1)
                + body_mass(b2))
        }),
{
    let s = SCALE as int;
    let m1 = body_mass(b1);
    let m2 = body_mass(b2);
    let mm = m1 + m2;
    let p1v = body_momentum(b1);
    let p2v = body_momentum(b2);
    assert(crate::fix::in_fix(p1v.x) && crate::fix::in_fix(p1v.y));
    assert(crate::fix::in_fix(p2v.x) && crate::fix::in_fix(p2v.y));
    let e = fhalf(fadd(s, s));
    assert(SCALE == 1000 && crate::fix::FIX_MAX == 1_000_000_000_000_000i64);
    assert(fadd(s, s) == 2000);
    crate::fix::lemma_tdiv_mul_cancel(1000, 2);
    assert(crate::fix::tdiv(2000, 2) == 1000);
    assert(e == s);
    let total = vadd(p1v, p2v);
    let fvv = vdiv(total, fadd(m1, m2));
    let u1 = vsub(vmul(fvv, m1), p1v);
    let u2 = vsub(vmul(fvv, m2), p2v);
    crate::vec2::lemma_proj_axis_unit(u1, c.normal_a);
    crate::vec2::lemma_proj_axis_unit(u2, c.normal_a);
    let imp = collision_impulses(c, b1, b2);
    if c.normal_a.x == 0 {
        let p1 = p1v.y;
        let p2 = p2v.y;
        let fv = shared_final_velocity(p1, p2, m1, m2);
        let t1 = crate::fix::tdiv(fv * m1, s);
        let t2 = crate::fix::tdiv(fv * m2, s);
        let d1 = t1 - p1;
        let d2 = t2 - p2;
        assert(total.y == p1 + p2);
        assert(fadd(m1, m2) == mm);
        assert(fvv.y == fv);
        assert(vmul(fvv, m1).y == t1);
        assert(vmul(fvv, m2).y == t2);
        assert(u1.y == d1);
        assert(u2.y == d2);
        assert(vproj(u1, c.normal_a) == (Vec2Model { x: 0, y: d1 }));
        assert(vproj(u2, c.normal_a) == (Vec2Model { x: 0, y: d2 }));
        assert(0 * e == 0) by (nonlinear_arith);
        crate::fix::lemma_tdiv_mul_cancel(d1, s);
        crate::fix::lemma_tdiv_mul_cancel(d2, s);
        assert(d1 * s == s * d1) by (nonlinear_arith);
        assert(d2 * s == s * d2) by (nonlinear_arith);
        assert(fmul(d1, e) == d1);
        assert(fmul(d2, e) == d2);
        assert(imp.0 == (Vec2Model { x: 0, y: 2 * d1 }));
        assert(imp.1 == (Vec2Model { x: 0, y: 2 * d2 }));
        lemma_deformation_sum_bound(p1, p2, m1, m2);
        assert(crate::fix::iabs(2 * d1 + 2 * d2) == 2 * crate::fix::iabs(d1 + d2));
    } else {
        let p1 = p1v.x;
        let p2 = p2v.x;
        let fv = shared_final_velocity(p1, p2, m1, m2);
        let t1 = crate::fix::tdiv(fv * m1, s);
        let t2 = crate::fix::tdiv(fv * m2, s);
        let d1 = t1 - p1;
        let d2 = t2 - p2;
        assert(total.x == p1 + p2);
        assert(fadd(m1, m2) == mm);
        assert(fvv.x == fv);
        assert(vmul(fvv, m1).x == t1);
        assert(vmul(fvv, m2).x == t2);
        assert(u1.x == d1);
        assert(u2.x == d2);
        assert(vproj(u1, c.normal_a) == (Vec2Model { x: d1, y: 0 }));
        assert(vproj(u2, c.normal_a) == (Vec2Model { x: d2, y: 0 }));
        assert(0 * e == 0) by (nonlinear_arith);
        crate::fix::lemma_tdiv_mul_cancel(d1, s);
        crate::fix::lemma_tdiv_mul_cancel(d2, s);
        assert(d1 * s == s * d1) by (nonlinear_arith);
        assert(d2 * s == s * d2) by (nonlinear_arith);
        assert(fmul(d1, e) == d1);
        assert(fmul(d2, e) == d2);
        assert(imp.0 == (Vec2Model { x: 2 * d1, y: 0 }));
        assert(imp.1 == (Vec2Model { x: 2 * d2, y: 0 }));
        lemma_deformation_sum_bound(p1, p2, m1, m2);
        assert(crate::fix::iabs(2 * d1 + 2 * d2) == 2 * crate::fix::iabs(d1 + d2));
    }
}

/// The inelastic floor: two Dynamic bodies meeting below the velocity
/// threshold resolve with restitution forced to zero, so each body's
/// momentum along the contact normal is driven onto its share of the
/// common final velocity, exactly up to one fixed-point grain: after
/// resolution the bodies move together and never separate.
pub proof fn lemma_inelastic_floor<T, U>(c: CollisionModel, b1: BodyModel<T>, b2: BodyModel<U>)
    requires
        b1.def.body_type == BodyType::Dynamic,
        b2.def.body_type == BodyType::Dynamic,
        vnorm(vsub(b1.vel, b2.vel)) < VELOCITY_THRESHOLD as int,
        body_mass(b1) >= 0,
        body_mass(b2) >= 0,
        0 < body_mass(b1) + body_mass(b2),
        crate::fix::in_fix(body_mass(b1) + body_mass(b2)),
        (c.normal_a.x == 0 && (c.normal_a.y == SCALE as int || c.normal_a.y == -(SCALE as int)))
            || (c.normal_a.y == 0 && (c.normal_a.x == SCALE as int || c.normal_a.x == -(
        SCALE as int))),
        c.normal_a.x == 0 ==> resolution_unsaturated(
            body_momentum(b1).y,
            body_momentum(b2).y,
            body_mass(b1),
            body_mass(b2),
        ),
        c.normal_a.y == 0 ==> resolution_unsaturated(
            body_momentum(b1).x,
            body_momentum(b2).x,
            body_mass(b1),
            body_mass(b2),
        ),
    ensures
        ({
            let imp = collision_impulses(c, b1, b2);
            let fv = shared_final_velocity(
                body_momentum(b1).y,
                body_momentum(b2).y,
                body_mass(b1),
                body_mass(b2),
            );
            c.normal_a.x == 0 ==> imp.0.x == 0 && imp.1.x == 0 && crate::fix::iabs(
                (SCALE as int) * (body_momentum(b1).y + imp.0.y) - fv * body_mass(b1),
            ) < SCALE as int && crate::fix::iabs(
                (SCALE as int) * (body_momentum(b2).y + imp.1.y) - fv * body_mass(b2),
            ) < SCALE as int
        }),
        ({
            let imp = collision_impulses(c, b1, b2);
            let fv = shared_final_velocity(
                body_momentum(b1).x,
                body_momentum(b2).x,
                body_mass(b1),
                body_mass(b2),
            );
            c.normal_a.y == 0 ==> imp.0.y == 0 && imp.1.y == 0 && crate::fix::iabs(
                (SCALE as int) * (body_momentum(b1).x + imp.0.x) - fv * body_mass(b1),
            ) < SCALE as int && crate::fix::iabs(
                (SCALE as int) * (body_momentum(b2).x + imp.1.x) - fv * body_mass(b2),
            ) < SCALE as int
        }),
{
    let s = SCALE as int;
    let m1 = body_mass(b1);
    let m2 = body_mass(b2);
    let mm = m1 + m2;
    let p1v = body_momentum(b1);
    let p2v = body_momentum(b2);
    assert(crate::fix::in_fix(p1v.x) && crate::fix::in_fix(p1v.y));
    assert(crate::fix::in_fix(p2v.x) && crate::fix::in_fix(p2v.y));
    let total = vadd(p1v, p2v);
    let fvv = vdiv(total, fadd(m1, m2));
    let u1 = vsub(vmul(fvv, m1), p1v);
    let u2 = vsub(vmul(fvv, m2), p2v);
    crate::vec2::lemma_proj_axis_unit(u1, c.normal_a);
    crate::vec2::lemma_proj_axis_unit(u2, c.normal_a);
    let imp = collision_impulses(c, b1, b2);
    if c.normal_a.x == 0 {
        let p1 = p1v.y;
        let p2 = p2v.y;
        let fv = shared_final_velocity(p1, p2, m1, m2);
        let t1 = crate::fix::tdiv(fv * m1, s);
        let t2 = crate::fix::tdiv(fv * m2, s);
        let d1 = t1 - p1;
        let d2 = t2 - p2;
        assert(total.y == p1 + p2);
        assert(fadd(m1, m2) == mm);
        assert(fvv.y == fv);
        assert(vmul(fvv, m1).y == t1);
        assert(vmul(fvv, m2).y == t2);
        assert(u1.y == d1);
        assert(u2.y == d2);
        assert(vproj(u1, c.normal_a) == (Vec2Model { x: 0, y: d1 }));
        assert(vproj(u2, c.normal_a) == (Vec2Model { x: 0, y: d2 }));
        assert(d1 * 0 == 0) by (nonlinear_arith);
        assert(d2 * 0 == 0) by (nonlinear_arith);
        assert(0 * 0 == 0) by (nonlinear_arith);
        assert(imp.0 == (Vec2Model { x: 0, y: d1 }));
        assert(imp.1 == (Vec2Model { x: 0, y: d2 }));
        crate::fix::lemma_tdiv_rem(fv * m1, s);
        crate::fix::lemma_tdiv_rem(fv * m2, s);
        assert(s * (p1 + d1) - fv * m1 == -(fv * m1 - s * t1));
        assert(s * (p2 + d2) - fv * m2 == -(fv * m2 - s * t2));
    } else {
        let p1 = p1v.x;
        let p2 = p2v.x;
        let fv = shared_final_velocity(p1, p2, m1, m2);
        let t1 = crate::fix::tdiv(fv * m1, s);
        let t2 = crate::fix::tdiv(fv * m2, s);
        let d1 = t1 - p1;
        let d2 = t2 - p2;
        assert(total.x == p1 + p2);
        assert(fadd(m1, m2) == mm);
        assert(fvv.x == fv);
        assert(vmul(fvv, m1).x == t1);
        assert(vmul(fvv, m2).x == t2);
        assert(u1.x == d1);
        assert(u2.x == d2);
        assert(vproj(u1, c.normal_a) == (Vec2Model { x: d1, y: 0 }));
        assert(vproj(u2, c.normal_a) == (Vec2Model { x: d2, y: 0 }));
        assert(d1 * 0 == 0) by (nonlinear_arith);
        assert(d2 * 0 == 0) by (nonlinear_arith);
        assert(0 * 0 == 0) by (nonlinear_arith);
        assert(imp.0 == (Vec2Model { x: d1, y: 0 }));
        assert(imp.1 == (Vec2Model { x: d2, y: 0 }));
        crate::fix::lemma_tdiv_rem(fv * m1, s);
        crate::fix::lemma_tdiv_rem(fv * m2, s);
        assert(s * (p1 + d1) - fv * m1 == -(fv * m1 - s * t1));
        assert(s * (p2 + d2) - fv * m2 == -(fv * m2 - s * t2));
    }
}
pub proof fn lemma_double_static_noop<T, U>(c: CollisionModel, b1: BodyModel<T>, b2: BodyModel<U>)
    requires
        b1.def.body_type != BodyType::Dynamic,
        b2.def.body_type != BodyType::Dynamic,
    ensures
        solve_pair(c, b1, b2) == (b1, b2),
{
}

/// Resolution never moves a Static body nor changes its velocity or its
/// configuration, whichever side of the contact it is on.
pub proof fn lemma_solve_pair_static<T, U>(c: CollisionModel, b1: BodyModel<T>, b2: BodyModel<U>)
    ensures
        b1.def.body_type == BodyType::Static ==> solve_pair(c, b1, b2).0.pos == b1.pos
            && solve_pair(c, b1, b2).0.vel == b1.vel && solve_pair(c, b1, b2).0.def == b1.def,
        b2.def.body_type == BodyType::Static ==> solve_pair(c, b1, b2).1.pos == b2.pos
            && solve_pair(c, b1, b2).1.vel == b2.vel && solve_pair(c, b1, b2).1.def == b2.def,
{
}

/// A body with gravity queued, when it is Dynamic: the force `gravity *
/// mass`. Other bodies are unchanged.
pub open spec fn with_gravity<T>(g: Vec2Model, b: BodyModel<T>) -> BodyModel<T> {
    if b.def.body_type == BodyType::Dynamic {
        BodyModel { forces: b.forces.push(vmul(g, body_mass(b))), ..b }
    } else {
        b
    }
}

/// All bodies after gravity application and one integration step.
pub open spec fn integrate_all<T>(g: Vec2Model, bodies: Seq<BodyModel<T>>, dt: int) -> Seq<
    BodyModel<T>,
> {
    Seq::new(bodies.len(), |i: int| body_step(with_gravity(g, bodies[i]), dt))
}

/// One pair of the detection sweep: if the shapes at their current
/// positions collide, resolve the contact and record the event.
pub open spec fn resolve_pair_step<T>(
    bodies: Seq<BodyModel<T>>,
    events: Seq<CollisionEventModel>,
    i: int,
    j: int,
) -> (Seq<BodyModel<T>>, Seq<CollisionEventModel>) {
    let c = shape_collides(bodies[i].shape, bodies[i].pos, bodies[j].shape, bodies[j].pos);
    match c {
        Some(cm) => {
            let solved = solve_pair(cm, bodies[i], bodies[j]);
            (
                bodies.update(i, solved.0).update(j, solved.1),
                events.push(CollisionEventModel { first: i, second: j, collision: cm }),
            )
        },
        None => (bodies, events),
    }
}

/// The detection sweep over partners `j, j+1, ..., n-1` of body `i`.
pub open spec fn resolve_inner<T>(
    bodies: Seq<BodyModel<T>>,
    events: Seq<CollisionEventModel>,
    i: int,
    j: int,
    n: int,
) -> (Seq<BodyModel<T>>, Seq<CollisionEventModel>)
    decreases n - j,
{
    if j >= n {
        (bodies, events)
    } else {
        let stepped = resolve_pair_step(bodies, events, i, j);
        resolve_inner(stepped.0, stepped.1, i, j + 1, n)
    }
}

/// The detection sweep over every unordered pair, visiting `(i, j)` with
/// `i < j` in lexicographic order.
pub open spec fn resolve_outer<T>(
    bodies: Seq<BodyModel<T>>,
    events: Seq<CollisionEventModel>,
    i: int,
    n: int,
) -> (Seq<BodyModel<T>>, Seq<CollisionEventModel>)
    decreases n - i,
{
    if i + 1 >= n {
        (bodies, events)
    } else {
        let swept = resolve_inner(bodies, events, i, i + 1, n);
        resolve_outer(swept.0, swept.1, i + 1, n)
    }
}

/// One full step of a space: integration of every body, then the pair
/// sweep with resolution; yields the new bodies and the recorded events.
pub open spec fn space_step<T>(s: SpaceModel<T>, dt: int) -> (SpaceModel<T>, Seq<
    CollisionEventModel,
>) {
    let integrated = integrate_all(s.gravity, s.bodies, dt);
    let swept = resolve_outer(integrated, Seq::empty(), 0, integrated.len() as int);
    (SpaceModel { gravity: s.gravity, bodies: swept.0 }, swept.1)
}

/// Taking two bodies out of the arena (the farther first), resolving them,
/// and splicing the results back in at their places is the same as updating
/// both places.
pub proof fn lemma_extract_pair<A>(s: Seq<A>, i: int, j: int, a: A, b: A)
    requires
        0 <= i < j < s.len(),
    ensures
        s.remove(j)[i] == s[i],
        s.remove(j).remove(i).insert(i, a).insert(j, b) == s.update(i, a).update(j, b),
{
    let s1 = s.remove(j);
    s.remove_ensures(j);
    let s2 = s1.remove(i);
    s1.remove_ensures(i);
    let s3 = s2.insert(i, a);
    s2.insert_ensures(i, a);
    let s4 = s3.insert(j, b);
    s3.insert_ensures(j, b);
    let rhs = s.update(i, a).update(j, b);
    assert forall|k: int| 0 <= k < s.len() implies s4[k] == rhs[k] by {
        if k < i {
        } else if k == i {
        } else if k < j {
        } else if k == j {
        } else {
        }
    }
    assert(s4 =~= rhs);
}

/// The narrow phase for a pair of bodies at their current positions.
pub fn check_body_collision<T, U>(b1: &Body<T>, b2: &Body<U>) -> (r: Option<Collision>)
    ensures
        (match r {
            Some(c) => shape_collides(b1@.shape, b1@.pos, b2@.shape, b2@.pos) == Some(c@),
            None => shape_collides(b1@.shape, b1@.pos, b2@.shape, b2@.pos) is None,
        }),
{
    b1.borrow_shape().collides_with(b1.pos(), b2.borrow_shape(), b2.pos())
}

/// The impulses resolving one contact; see `collision_impulses`.
pub fn get_collision_impulses<T, U>(collision: Collision, b1: &Body<T>, b2: &Body<U>) -> (r: (
    Vec2,
    Vec2,
))
    ensures
        r.0@ == collision_impulses(collision@, b1@, b2@).0,
        r.1@ == collision_impulses(collision@, b1@, b2@).1,
{
    let relative_speed: i64 = b1.vel().sub(b2.vel()).norm();
    let restitution: i64 = if relative_speed < VELOCITY_THRESHOLD {
        0
    } else {
        fix_half(fix_add(b1.restitution(), b2.restitution()))
    };
    let momentum1: Vec2 = if b1.is_static() {
        Vec2::new(0, 0)
    } else {
        b1.momentum()
    };
    let momentum2: Vec2 = if b2.is_static() {
        Vec2::new(0, 0)
    } else {
        b2.momentum()
    };
    let total_momentum: Vec2 = if !b1.is_static() && !b2.is_static() {
        momentum1.add(momentum2)
    } else {
        Vec2::new(0, 0)
    };
    let final_velocity: Vec2 = total_momentum.div(fix_add(b1.mass(), b2.mass()));
    let deformation1: Vec2 = final_velocity.mul(b1.mass()).sub(momentum1).projection_onto(
        collision.normal_a,
    );
    let deformation2: Vec2 = final_velocity.mul(b2.mass()).sub(momentum2).projection_onto(
        collision.normal_a,
    );
    (
        deformation1.add(deformation1.mul(restitution)),
        deformation2.add(deformation2.mul(restitution)),
    )
}

/// Positional correction for one contact; see `corrected_positions`.
pub fn apply_collision_position_correction<T, U>(
    collision: Collision,
    b1: &mut Body<T>,
    b2: &mut Body<U>,
)
    ensures
        final(b1)@ == (BodyModel {
            pos: corrected_positions(collision@, old(b1)@, old(b2)@).0,
            ..old(b1)@
        }),
        final(b2)@ == (BodyModel {
            pos: corrected_positions(collision@, old(b1)@, old(b2)@).1,
            ..old(b2)@
        }),
{
    let centre_point: Vec2 = collision.point_a;
    let correction_vector: Vec2 = collision.normal_a;
    let penetration = b1.borrow_shape().cast_ray(
        b1.pos(),
        centre_point,
        correction_vector.mul(-5 * SCALE),
    );
    let displacement: Vec2 = match penetration {
        Some(entry) => correction_vector.scale_to(centre_point.sub(entry)),
        None => Vec2::new(0, 0),
    };
    if !b1.is_static() && !b2.is_static() {
        let p1 = b1.pos().add(displacement);
        b1.set_pos(p1);
        let p2 = b2.pos().sub(displacement);
        b2.set_pos(p2);
    } else {
        if b2.is_static() && !b1.is_static() {
            let p1 = b1.pos().add(displacement.mul(2 * SCALE));
            b1.set_pos(p1);
        }
        if b1.is_static() && !b2.is_static() {
            let p2 = b2.pos().sub(displacement.mul(2 * SCALE));
            b2.set_pos(p2);
        }
    }
}

/// Full resolution of one contact; see `solve_pair`. A pair of two static
/// bodies is left untouched.
pub fn solve_collision<T, U>(collision: Collision, b1: &mut Body<T>, b2: &mut Body<U>)
    ensures
        final(b1)@ == solve_pair(collision@, old(b1)@, old(b2)@).0,
        final(b2)@ == solve_pair(collision@, old(b1)@, old(b2)@).1,
{
    if b1.is_static() && b2.is_static() {
        return ;
    }
    let (impulse1, impulse2) = get_collision_impulses(collision, b1, b2);
    apply_collision_position_correction(collision, b1, b2);
    let friction: i64 = fix_half(fix_add(b1.body_def().friction, b2.body_def().friction));
    let (friction1, friction2) = (impulse1.mul(friction), impulse2.mul(friction));
    b1.apply_impulse(impulse1);
    b1.apply_friction(friction1);
    b2.apply_impulse(impulse2);
    b2.apply_friction(friction2);
}

/// One pair step leaves the number of bodies unchanged.
pub proof fn lemma_resolve_pair_step_len<T>(
    bodies: Seq<BodyModel<T>>,
    events: Seq<CollisionEventModel>,
    i: int,
    j: int,
)
    requires
        0 <= i < bodies.len(),
        0 <= j < bodies.len(),
    ensures
        resolve_pair_step(bodies, events, i, j).0.len() == bodies.len(),
        resolve_pair_step(bodies, events, i, j).1.len() >= events.len(),
        forall|k: int|
            0 <= k < events.len() ==> resolve_pair_step(bodies, events, i, j).1[k] == events[k],
        forall|k: int|
            events.len() <= k < resolve_pair_step(bodies, events, i, j).1.len()
                ==> (#[trigger] resolve_pair_step(bodies, events, i, j).1[k]).first == i
                && resolve_pair_step(bodies, events, i, j).1[k].second == j,
{
}

/// The inner sweep leaves the number of bodies unchanged, keeps the events
/// already recorded, and records only events naming partners within range.
pub proof fn lemma_resolve_inner_bounds<T>(
    bodies: Seq<BodyModel<T>>,
    events: Seq<CollisionEventModel>,
    i: int,
    j: int,
    n: int,
)
    requires
        bodies.len() == n,
        0 <= i < n,
        i < j,
    ensures
        resolve_inner(bodies, events, i, j, n).0.len() == n,
        resolve_inner(bodies, events, i, j, n).1.len() >= events.len(),
        forall|k: int|
            0 <= k < events.len() ==> resolve_inner(bodies, events, i, j, n).1[k] == events[k],
        forall|k: int|
            events.len() <= k < resolve_inner(bodies, events, i, j, n).1.len() ==> 0 <= (
            #[trigger] resolve_inner(bodies, events, i, j, n).1[k]).first < n && 0
                <= resolve_inner(bodies, events, i, j, n).1[k].second < n,
    decreases n - j,
{
    if j >= n {
    } else {
        let stepped = resolve_pair_step(bodies, events, i, j);
        lemma_resolve_pair_step_len(bodies, events, i, j);
        lemma_resolve_inner_bounds(stepped.0, stepped.1, i, j + 1, n);
        assert(resolve_inner(bodies, events, i, j, n) == resolve_inner(
            stepped.0,
            stepped.1,
            i,
            j + 1,
            n,
        ));
        let res = resolve_inner(bodies, events, i, j, n);
        assert forall|k: int|
            events.len() <= k < res.1.len() implies 0 <= (#[trigger] res.1[k]).first < n && 0
            <= res.1[k].second < n by {
            if k < stepped.1.len() {
                assert(res.1[k] == stepped.1[k]);
            }
        }
    }
}

/// The whole sweep leaves the number of bodies unchanged, keeps the events
/// already recorded, and records only events naming bodies within range.
pub proof fn lemma_resolve_outer_bounds<T>(
    bodies: Seq<BodyModel<T>>,
    events: Seq<CollisionEventModel>,
    i: int,
    n: int,
)
    requires
        bodies.len() == n,
        0 <= i,
    ensures
        resolve_outer(bodies, events, i, n).0.len() == n,
        resolve_outer(bodies, events, i, n).1.len() >= events.len(),
        forall|k: int|
            0 <= k < events.len() ==> resolve_outer(bodies, events, i, n).1[k] == events[k],
        forall|k: int|
            events.len() <= k < resolve_outer(bodies, events, i, n).1.len() ==> 0 <= (
            #[trigger] resolve_outer(bodies, events, i, n).1[k]).first < n && 0 <= resolve_outer(
                bodies,
                events,
                i,
                n,
            ).1[k].second < n,
    decreases n - i,
{
    if i + 1 >= n {
    } else {
        let swept = resolve_inner(bodies, events, i, i + 1, n);
        lemma_resolve_inner_bounds(bodies, events, i, i + 1, n);
        lemma_resolve_outer_bounds(swept.0, swept.1, i + 1, n);
        assert(resolve_outer(bodies, events, i, n) == resolve_outer(swept.0, swept.1, i + 1, n));
        let res = resolve_outer(bodies, events, i, n);
        assert forall|k: int|
            events.len() <= k < res.1.len() implies 0 <= (#[trigger] res.1[k]).first < n && 0
            <= res.1[k].second < n by {
            if k < swept.1.len() {
                assert(res.1[k] == swept.1[k]);
            }
        }
    }
}

/// One pair of the sweep leaves every Static body's position, velocity and
/// configuration as they were.
pub proof fn lemma_resolve_pair_step_static<T>(
    bodies: Seq<BodyModel<T>>,
    events: Seq<CollisionEventModel>,
    i: int,
    j: int,
    k: int,
)
    requires
        0 <= i < bodies.len(),
        0 <= j < bodies.len(),
        i != j,
        0 <= k < bodies.len(),
        bodies[k].def.body_type == BodyType::Static,
    ensures
        resolve_pair_step(bodies, events, i, j).0[k].pos == bodies[k].pos,
        resolve_pair_step(bodies, events, i, j).0[k].vel == bodies[k].vel,
        resolve_pair_step(bodies, events, i, j).0[k].def == bodies[k].def,
{
    let c = shape_collides(bodies[i].shape, bodies[i].pos, bodies[j].shape, bodies[j].pos);
    match c {
        Some(cm) => {
            lemma_solve_pair_static(cm, bodies[i], bodies[j]);
        },
        None => {},
    }
}

/// The inner sweep leaves every Static body's position, velocity and
/// configuration as they were.
pub proof fn lemma_resolve_inner_static<T>(
    bodies: Seq<BodyModel<T>>,
    events: Seq<CollisionEventModel>,
    i: int,
    j: int,
    n: int,
    k: int,
)
    requires
        bodies.len() == n,
        0 <= i < n,
        i < j,
        0 <= k < n,
        bodies[k].def.body_type == BodyType::Static,
    ensures
        resolve_inner(bodies, events, i, j, n).0[k].pos == bodies[k].pos,
        resolve_inner(bodies, events, i, j, n).0[k].vel == bodies[k].vel,
        resolve_inner(bodies, events, i, j, n).0[k].def == bodies[k].def,
    decreases n - j,
{
    if j >= n {
    } else {
        let stepped = resolve_pair_step(bodies, events, i, j);
        lemma_resolve_pair_step_len(bodies, events, i, j);
        lemma_resolve_pair_step_static(bodies, events, i, j, k);
        lemma_resolve_inner_static(stepped.0, stepped.1, i, j + 1, n, k);
    }
}

/// The whole sweep leaves every Static body's position, velocity and
/// configuration as they were.
pub proof fn lemma_resolve_outer_static<T>(
    bodies: Seq<BodyModel<T>>,
    events: Seq<CollisionEventModel>,
    i: int,
    n: int,
    k: int,
)
    requires
        bodies.len() == n,
        0 <= i,
        0 <= k < n,
        bodies[k].def.body_type == BodyType::Static,
    ensures
        resolve_outer(bodies, events, i, n).0[k].pos == bodies[k].pos,
        resolve_outer(bodies, events, i, n).0[k].vel == bodies[k].vel,
        resolve_outer(bodies, events, i, n).0[k].def == bodies[k].def,
    decreases n - i,
{
    if i + 1 >= n {
    } else {
        let swept = resolve_inner(bodies, events, i, i + 1, n);
        lemma_resolve_inner_bounds(bodies, events, i, i + 1, n);
        lemma_resolve_inner_static(bodies, events, i, i + 1, n, k);
        lemma_resolve_outer_static(swept.0, swept.1, i + 1, n, k);
    }
}

/// A Static body's position and velocity are unchanged by a whole space
/// step: gravity is not applied to it, integration does not move it, and
/// resolution never pushes it.
pub proof fn lemma_static_space_step<T>(s: SpaceModel<T>, dt: int, k: int)
    requires
        0 <= k < s.bodies.len(),
        s.bodies[k].def.body_type == BodyType::Static,
    ensures
        space_step(s, dt).0.bodies.len() == s.bodies.len(),
        space_step(s, dt).0.bodies[k].pos == s.bodies[k].pos,
        space_step(s, dt).0.bodies[k].vel == s.bodies[k].vel,
        space_step(s, dt).0.bodies[k].def == s.bodies[k].def,
{
    let integrated = integrate_all(s.gravity, s.bodies, dt);
    assert(integrated[k].pos == s.bodies[k].pos);
    assert(integrated[k].vel == s.bodies[k].vel);
    assert(integrated[k].def == s.bodies[k].def);
    if s.bodies.len() > 0 {
        lemma_resolve_outer_bounds(integrated, Seq::empty(), 0, integrated.len() as int);
        lemma_resolve_outer_static(integrated, Seq::empty(), 0, integrated.len() as int, k);
    }
}

/// The state of a space after a whole sequence of steps, in order.
pub open spec fn space_trajectory<T>(s: SpaceModel<T>, dts: Seq<int>) -> SpaceModel<T>
    decreases dts.len(),
{
    if dts.len() == 0 {
        s
    } else {
        space_trajectory(space_step(s, dts[0]).0, dts.subrange(1, dts.len() as int))
    }
}

/// A Static body's position and velocity are unchanged by any number of
/// space steps, whatever else happens in the space around it.
pub proof fn lemma_static_space_trajectory<T>(s: SpaceModel<T>, dts: Seq<int>, k: int)
    requires
        0 <= k < s.bodies.len(),
        s.bodies[k].def.body_type == BodyType::Static,
    ensures
        space_trajectory(s, dts).bodies.len() == s.bodies.len(),
        space_trajectory(s, dts).bodies[k].pos == s.bodies[k].pos,
        space_trajectory(s, dts).bodies[k].vel == s.bodies[k].vel,
        space_trajectory(s, dts).bodies[k].def == s.bodies[k].def,
    decreases dts.len(),
{
    if dts.len() == 0 {
    } else {
        lemma_static_space_step(s, dts[0], k);
        lemma_static_space_trajectory(
            space_step(s, dts[0]).0,
            dts.subrange(1, dts.len() as int),
            k,
        );
    }
}

/// A step never adds or removes bodies, so every handle stays valid across
/// `update`, and every reported event names two bodies of the space.
pub proof fn lemma_space_step_bounds<T>(s: SpaceModel<T>, dt: int)
    ensures
        space_step(s, dt).0.bodies.len() == s.bodies.len(),
        forall|k: int|
            0 <= k < space_step(s, dt).1.len() ==> 0 <= (#[trigger] space_step(
                s,
                dt,
            ).1[k]).first < s.bodies.len() && 0 <= space_step(s, dt).1[k].second < s.bodies.len(),
{
    let integrated = integrate_all(s.gravity, s.bodies, dt);
    assert(integrated.len() == s.bodies.len());
    if s.bodies.len() == 0 {
    } else {
        lemma_resolve_outer_bounds(integrated, Seq::empty(), 0, integrated.len() as int);
    }
}

/// The space (also called the world): gravity and the arena of bodies.
pub struct Space<T> {
    /// The gravitational acceleration applied to every Dynamic body.
    pub gravity: Vec2,
    bodies: Vec<Body<T>>,
}

impl<T> View for Space<T> {
    type V = SpaceModel<T>;

    closed spec fn view(&self) -> SpaceModel<T> {
        SpaceModel { gravity: self.gravity@, bodies: models(self.bodies@) }
    }
}

impl<T> Space<T> {
    /// An empty space under the given gravity.
    pub fn new(gravity: Vec2) -> (r: Space<T>)
        ensures
            r@.gravity == gravity@,
            r@.bodies == Seq::<BodyModel<T>>::empty(),
    {
        let r = Space { gravity, bodies: Vec::new() };
        proof {
            assert(r@.bodies =~= Seq::<BodyModel<T>>::empty());
        }
        r
    }

    /// The number of bodies in the arena.
    pub fn len(&self) -> (r: usize)
        ensures
            r as int == self@.bodies.len(),
    {
        self.bodies.len()
    }

    /// Move a body into the space; the returned handle reads and writes it.
    pub fn add_body(&mut self, body: Body<T>) -> (handle: BodyHandle)
        ensures
            final(self)@.gravity == old(self)@.gravity,
            final(self)@.bodies == old(self)@.bodies.push(body@),
            handle@ == old(self)@.bodies.len(),
    {
        let handle = BodyHandle { index: self.bodies.len() };
        self.bodies.push(body);
        proof {
            assert(final(self)@.bodies =~= old(self)@.bodies.push(body@));
        }
        handle
    }

    /// Read access to the body behind a handle.
    pub fn get_body(&self, handle: &BodyHandle) -> (r: &Body<T>)
        requires
            handle@ < self@.bodies.len(),
        ensures
            r@ == self@.bodies[handle@],
    {
        &self.bodies[handle.index]
    }

    /// One simulation step. In order: every Dynamic body is queued the
    /// force `gravity * mass` and every body integrates one step of motion;
    /// then every unordered pair of bodies runs the narrow phase, and each
    /// detected contact is resolved (impulses and friction queued for the
    /// *next* step, positions corrected now) and reported as an event.
    pub fn update(&mut self, dt: i64) -> (events: Vec<CollisionEvent>)
        requires
            dt > 0,
        ensures
            final(self)@ == space_step(old(self)@, dt as int).0,
            event_models(events@) == space_step(old(self)@, dt as int).1,
    {
        let ghost orig = self@.bodies;
        let ghost g0 = self@.gravity;
        let n: usize = self.bodies.len();
        let ghost ibodies = integrate_all(g0, orig, dt as int);
        let mut integrated: Vec<Body<T>> = Vec::new();
        let mut k: usize = 0;
        while k < n
            invariant
                k <= n,
                dt > 0,
                n == orig.len(),
                self.gravity@ == g0,
                ibodies == integrate_all(g0, orig, dt as int),
                self.bodies@.len() == n - k,
                models(self.bodies@) == orig.subrange(k as int, n as int),
                models(integrated@) == ibodies.subrange(0, k as int),
            decreases n - k,
        {
            proof {
                assert(self.bodies@.len() > 0);
                assert(self.bodies@[0]@ == models(self.bodies@)[0]);
                assert(models(self.bodies@)[0] == orig[k as int]);
            }
            let ghost before = self.bodies@;
            let mut b: Body<T> = self.bodies.remove(0);
            if b.body_def().body_type == BodyType::Dynamic {
                let mass: i64 = b.mass();
                b.apply_force(self.gravity.mul(mass));
            }
            proof {
                assert(b@ == with_gravity(g0, orig[k as int]));
            }
            b.update(dt);
            let ghost prev_int = integrated@;
            let ghost bsnap = b;
            integrated.push(b);
            proof {
                before.remove_ensures(0);
                assert forall|t: int| 0 <= t < n - k - 1 implies models(self.bodies@)[t]
                    == orig.subrange(k + 1, n as int)[t] by {
                    assert(self.bodies@[t] == before[t + 1]);
                    assert(models(before)[t + 1] == before[t + 1]@);
                    assert(models(before)[t + 1] == orig.subrange(k as int, n as int)[t + 1]);
                }
                assert(models(self.bodies@) =~= orig.subrange(k + 1, n as int));
                assert(ibodies[k as int] == body_step(with_gravity(g0, orig[k as int]), dt as int));
                assert(bsnap@ == ibodies[k as int]);
                assert(models(prev_int).len() == k as int);
                assert(models(prev_int).len() == prev_int.len());
                assert(prev_int.len() == k as int);
                assert(integrated@ == prev_int.push(bsnap));
                assert forall|t: int| 0 <= t < k + 1 implies models(integrated@)[t] == ibodies[t] by {
                    if t < k {
                        assert(prev_int.push(bsnap)[t] == prev_int[t]);
                        assert(models(prev_int)[t] == prev_int[t]@);
                        assert(models(prev_int)[t] == ibodies.subrange(0, k as int)[t]);
                    } else {
                        assert(prev_int.push(bsnap)[t] == bsnap);
                    }
                }
                assert(models(integrated@) =~= ibodies.subrange(0, k + 1));
            }
            k = k + 1;
        }
        self.bodies = integrated;
        proof {
            assert(models(self.bodies@) =~= ibodies);
        }
        let ghost goal = resolve_outer(ibodies, Seq::empty(), 0, n as int);
        let mut events: Vec<CollisionEvent> = Vec::new();
        proof {
            assert(event_models(events@) =~= Seq::<CollisionEventModel>::empty());
        }
        if n > 1 {
            let mut i: usize = 0;
            while i < n - 1
                invariant
                    i <= n - 1,
                    n >= 2,
                    dt > 0,
                    self.gravity@ == g0,
                    self.bodies@.len() == n,
                    goal == resolve_outer(
                        models(self.bodies@),
                        event_models(events@),
                        i as int,
                        n as int,
                    ),
                decreases n - i,
            {
                let mut j: usize = i + 1;
                proof {
                    assert(resolve_outer(
                        models(self.bodies@),
                        event_models(events@),
                        i as int,
                        n as int,
                    ) == resolve_outer(
                        resolve_inner(
                            models(self.bodies@),
                            event_models(events@),
                            i as int,
                            i + 1,
                            n as int,
                        ).0,
                        resolve_inner(
                            models(self.bodies@),
                            event_models(events@),
                            i as int,
                            i + 1,
                            n as int,
                        ).1,
                        i + 1,
                        n as int,
                    ));
                }
                while j < n
                    invariant
                        i < j <= n,
                        i < n - 1,
                        n >= 2,
                        dt > 0,
                        self.gravity@ == g0,
                        self.bodies@.len() == n,
                        goal == resolve_outer(
                            resolve_inner(
                                models(self.bodies@),
                                event_models(events@),
                                i as int,
                                j as int,
                                n as int,
                            ).0,
                            resolve_inner(
                                models(self.bodies@),
                                event_models(events@),
                                i as int,
                                j as int,
                                n as int,
                            ).1,
                            i + 1,
                            n as int,
                        ),
                    decreases n - j,
                {
                    let ghost s = models(self.bodies@);
                    let ghost ev = event_models(events@);
                    proof {
                        assert(self.bodies@[j as int]@ == s[j as int]);
                        assert(self.bodies@[i as int]@ == s[i as int]);
                        self.bodies@.remove_ensures(j as int);
                        assert(self.bodies@.remove(j as int)[i as int] == self.bodies@[i as int]);
                    }
                    let ghost vec_before = self.bodies@;
                    let mut b2: Body<T> = self.bodies.remove(j);
                    let mut b1: Body<T> = self.bodies.remove(i);
                    proof {
                        assert(b2@ == s[j as int]);
                        assert(b1@ == s[i as int]);
                    }
                    let collision = check_body_collision(&b1, &b2);
                    match collision {
                        Some(c) => {
                            solve_collision(c, &mut b1, &mut b2);
                            events.push(
                                CollisionEvent {
                                    first: BodyHandle { index: i },
                                    second: BodyHandle { index: j },
                                    collision: c,
                                },
                            );
                        },
                        None => {},
                    }
                    self.bodies.insert(i, b1);
                    self.bodies.insert(j, b2);
                    proof {
                        lemma_extract_pair(vec_before, i as int, j as int, b1, b2);
                        assert(self.bodies@ == vec_before.update(i as int, b1).update(
                            j as int,
                            b2,
                        ));
                        assert(models(self.bodies@) =~= s.update(i as int, b1@).update(
                            j as int,
                            b2@,
                        ));
                        let stepped = resolve_pair_step(s, ev, i as int, j as int);
                        match collision {
                            Some(c) => {
                                assert(event_models(events@) =~= ev.push(
                                    CollisionEventModel {
                                        first: i as int,
                                        second: j as int,
                                        collision: c@,
                                    },
                                ));
                                assert(models(self.bodies@) == stepped.0);
                                assert(event_models(events@) == stepped.1);
                            },
                            None => {
                                assert(models(self.bodies@) =~= s);
                                assert(models(self.bodies@) == stepped.0);
                                assert(event_models(events@) == stepped.1);
                            },
                        }
                        assert(resolve_inner(s, ev, i as int, j as int, n as int)
                            == resolve_inner(stepped.0, stepped.1, i as int, j + 1, n as int));
                    }
                    j = j + 1;
                }
                proof {
                    assert(resolve_inner(
                        models(self.bodies@),
                        event_models(events@),
                        i as int,
                        j as int,
                        n as int,
                    ) == (models(self.bodies@), event_models(events@)));
                }
                i = i + 1;
            }
            proof {
                assert(goal == resolve_outer(
                    models(self.bodies@),
                    event_models(events@),
                    i as int,
                    n as int,
                ));
                assert(goal == (models(self.bodies@), event_models(events@)));
            }
        } else {
            proof {
                assert(goal == (models(self.bodies@), event_models(events@)));
            }
        }
        proof {
            assert(final(self)@ =~= space_step(old(self)@, dt as int).0);
        }
        events
    }

    /// Write access to the body behind a handle: exchanges it for another
    /// and hands the previous one out.
    pub fn swap_body(&mut self, handle: &BodyHandle, body: Body<T>) -> (r: Body<T>)
        requires
            handle@ < old(self)@.bodies.len(),
        ensures
            r@ == old(self)@.bodies[handle@],
            final(self)@.gravity == old(self)@.gravity,
            final(self)@.bodies == old(self)@.bodies.update(handle@, body@),
    {
        let i: usize = handle.index;
        let r = self.bodies.remove(i);
        self.bodies.insert(i, body);
        proof {
            assert(final(self)@.bodies =~= old(self)@.bodies.update(handle@, body@));
        }
        r
    }
}

/// The space under its other customary name.
pub type World<T> = Space<T>;

} // verus!
