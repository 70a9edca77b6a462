//! End-to-end tests of the engine: vector arithmetic, rectangle geometry,
//! integration, collision detection and resolution. Coordinates are
//! fixed-point: 1000 is one unit.

use rigid2d::body::{Body, BodyDef, BodyType};
use rigid2d::shape::{lines_intersect, Rect, ShapeVariant};
use rigid2d::space::{get_collision_impulses, Space};
use rigid2d::vec2::Vec2;

fn dynamic_box(hw: i64, hh: i64, density: i64) -> Body<u32> {
    let mut def = BodyDef::new(BodyType::Dynamic);
    def.density = density;
    Body::new(Rect::new(hw, hh).variant(), def)
}

fn static_box(hw: i64, hh: i64) -> Body<u32> {
    Body::new(Rect::new(hw, hh).variant(), BodyDef::new(BodyType::Static))
}

#[test]
fn test_lines_intersect() {
    let hit = lines_intersect(
        Vec2::new(0, 0),
        Vec2::new(5000, 5000),
        Vec2::new(2000, 0),
        Vec2::new(0, 6000),
    )
    .unwrap()
    .coords();
    assert_eq!(hit, (2000, 2000));
}

#[test]
fn lines_parallel_give_no_hit() {
    let hit = lines_intersect(
        Vec2::new(0, 0),
        Vec2::new(5000, 0),
        Vec2::new(0, 1000),
        Vec2::new(1000, 0),
    );
    assert!(hit.is_none());
}

#[test]
fn unit_of_zero_vector_is_zero() {
    let u = Vec2::new(0, 0).unit();
    assert_eq!(u.coords(), (0, 0));
}

#[test]
fn projection_onto_zero_vector_is_zero() {
    let p = Vec2::new(1234, -567).projection_onto(Vec2::new(0, 0));
    assert_eq!(p.coords(), (0, 0));
}

#[test]
fn unit_vector_has_unit_norm() {
    let u = Vec2::new(3000, 4000).unit();
    assert_eq!(u.coords(), (600, 800));
    assert_eq!(u.norm(), 1000);
}

#[test]
fn norm_of_three_four_is_five() {
    assert_eq!(Vec2::new(3000, 4000).norm(), 5000);
}

#[test]
fn dot_and_orthogonalise() {
    let a = Vec2::new(2000, 3000);
    let b = Vec2::new(1000, 0);
    assert_eq!(a.dot(b), 2000);
    let o = a.orthogonalise(b);
    assert_eq!(o.coords(), (0, 3000));
}

#[test]
fn containment_is_inclusive_on_the_edge() {
    let r = Rect::new(1000, 1000);
    let pos = Vec2::new(0, 0);
    assert!(r.contains(pos, Vec2::new(1000, 0)));
    assert!(r.contains(pos, Vec2::new(-1000, 1000)));
    assert!(!r.contains(pos, Vec2::new(1001, 0)));
}

#[test]
fn rectangle_mass_is_area_times_density() {
    let r = Rect::new(500, 500);
    assert_eq!(r.mass(1000), 1000);
    assert_eq!(r.mass(10000), 10000);
}

#[test]
fn cast_ray_finds_nearest_edge() {
    let r = Rect::new(1000, 1000);
    let pos = Vec2::new(0, 0);
    let hit = r
        .cast_ray(pos, Vec2::new(-3000, 0), Vec2::new(4000, 0))
        .unwrap();
    assert_eq!(hit.coords(), (-1000, 0));
}

#[test]
fn free_fall_one_second() {
    let mut space: Space<u32> = Space::new(Vec2::new(0, 9810));
    let handle = space.add_body(dynamic_box(500, 500, 10000));
    let events = space.update(1000);
    assert!(events.is_empty());
    let body = space.get_body(&handle);
    assert_eq!(body.vel().coords(), (0, 9810));
    assert_eq!(body.pos().coords(), (0, 9810));
}

#[test]
fn integration_is_deterministic() {
    let mut a = dynamic_box(500, 500, 1000);
    let mut b = dynamic_box(500, 500, 1000);
    for body in [&mut a, &mut b] {
        body.vel = Vec2::new(1500, -700);
        body.apply_force(Vec2::new(0, 9810));
    }
    for dt in [16, 16, 33, 16, 100] {
        a.update(dt);
        b.update(dt);
        assert_eq!(a.pos.coords(), b.pos.coords());
        assert_eq!(a.vel.coords(), b.vel.coords());
    }
}

#[test]
fn static_body_never_moves() {
    let mut body = static_box(1000, 1000);
    body.pos = Vec2::new(5000, 5000);
    for _ in 0..10 {
        body.apply_force(Vec2::new(0, 98100));
        body.apply_impulse(Vec2::new(12345, -9));
        body.update(16);
    }
    assert_eq!(body.pos.coords(), (5000, 5000));
    assert_eq!(body.vel.coords(), (0, 0));
}

#[test]
fn kinematic_body_moves_by_velocity_only() {
    let mut def = BodyDef::new(BodyType::Kinematic);
    def.density = 1000;
    let mut body: Body<u32> = Body::new(Rect::new(500, 500).variant(), def);
    body.vel = Vec2::new(1000, 0);
    body.apply_force(Vec2::new(0, 98100));
    body.update(1000);
    assert_eq!(body.pos.coords(), (1000, 0));
    assert_eq!(body.vel.coords(), (1000, 0));
}

#[test]
fn elastic_collision_preserves_momentum() {
    // Two equal one-unit-square bodies, full restitution, meeting head-on
    // well above the inelastic threshold.
    let mut b1 = dynamic_box(500, 500, 1000);
    let mut b2 = dynamic_box(500, 500, 1000);
    b1.def.restitution = 1000;
    b2.def.restitution = 1000;
    b1.pos = Vec2::new(0, 0);
    b2.pos = Vec2::new(900, 0);
    b1.vel = Vec2::new(2000, 0);
    b2.vel = Vec2::new(-2000, 0);
    let collision = b1
        .borrow_shape()
        .collides_with(b1.pos, b2.borrow_shape(), b2.pos)
        .unwrap();
    let before = b1.momentum().add(b2.momentum());
    let (i1, i2) = get_collision_impulses(collision, &b1, &b2);
    assert_eq!(i1.coords(), (-4000, 0));
    assert_eq!(i2.coords(), (4000, 0));
    let after = before.add(i1).add(i2);
    assert_eq!(before.coords(), after.coords());
}

#[test]
fn slow_collision_is_inelastic() {
    // Below the velocity threshold restitution is forced to zero: both
    // bodies end on the shared final velocity and never separate.
    let mut b1 = dynamic_box(500, 500, 1000);
    let mut b2 = dynamic_box(500, 500, 1000);
    b1.pos = Vec2::new(0, 0);
    b2.pos = Vec2::new(900, 0);
    b1.vel = Vec2::new(400, 0);
    b2.vel = Vec2::new(0, 0);
    let collision = b1
        .borrow_shape()
        .collides_with(b1.pos, b2.borrow_shape(), b2.pos)
        .unwrap();
    let (i1, i2) = get_collision_impulses(collision, &b1, &b2);
    assert_eq!(i1.coords(), (-200, 0));
    assert_eq!(i2.coords(), (200, 0));
    let p1 = b1.momentum().add(i1);
    let p2 = b2.momentum().add(i2);
    assert_eq!(p1.coords(), p2.coords());
}

#[test]
fn double_static_overlap_is_a_no_op() {
    let mut space: Space<u32> = Space::new(Vec2::new(0, 9810));
    let mut g1 = static_box(1000, 1000);
    g1.pos = Vec2::new(0, 0);
    let mut g2 = static_box(1000, 1000);
    g2.pos = Vec2::new(500, 0);
    let c = g1
        .borrow_shape()
        .collides_with(g1.pos, g2.borrow_shape(), g2.pos);
    assert!(c.is_some());
    let h1 = space.add_body(g1);
    let h2 = space.add_body(g2);
    let events = space.update(16);
    assert_eq!(events.len(), 1);
    let b1 = space.get_body(&h1);
    assert_eq!(b1.pos.coords(), (0, 0));
    assert_eq!(b1.vel.coords(), (0, 0));
    let b2 = space.get_body(&h2);
    assert_eq!(b2.pos.coords(), (500, 0));
    assert_eq!(b2.vel.coords(), (0, 0));
}

#[test]
fn side_collision_normal_is_horizontal() {
    // Overlap region taller than wide: the contact separates along x and
    // the normal on the first body points away from the overlap centre.
    let a = Rect::new(1000, 2000);
    let b = Rect::new(1000, 2000);
    let collision = a
        .collides_with(Vec2::new(0, 0), &b.variant(), Vec2::new(1800, 0))
        .unwrap();
    assert_eq!(collision.normal_a.coords(), (-1000, 0));
    assert_eq!(collision.normal_b.coords(), (1000, 0));
    assert_eq!(collision.point_a.coords(), (900, 0));
}

#[test]
fn top_collision_normal_is_vertical() {
    let a = Rect::new(2000, 1000);
    let b = Rect::new(2000, 1000);
    let collision = a
        .collides_with(Vec2::new(0, 0), &b.variant(), Vec2::new(0, 1800))
        .unwrap();
    assert_eq!(collision.normal_a.coords(), (0, -1000));
    assert_eq!(collision.normal_b.coords(), (0, 1000));
}

#[test]
fn separated_rectangles_do_not_collide() {
    let a = Rect::new(1000, 1000);
    let b = Rect::new(1000, 1000);
    let c = a.collides_with(Vec2::new(0, 0), &b.variant(), Vec2::new(2001, 0));
    assert!(c.is_none());
}

#[test]
fn resting_contact_stays_settled() {
    // A one-unit crate resting on static ground under gravity: vertical
    // velocity stays near zero and penetration does not grow.
    let mut space: Space<u32> = Space::new(Vec2::new(0, 9810));
    let mut ground = static_box(10000, 1000);
    ground.pos = Vec2::new(0, 10000);
    let _ground_handle = space.add_body(ground);
    let mut crate_body = dynamic_box(500, 500, 1000);
    crate_body.pos = Vec2::new(0, 8500);
    let crate_handle = space.add_body(crate_body);
    for _ in 0..120 {
        space.update(16);
    }
    let body = space.get_body(&crate_handle);
    let (_, y) = body.pos.coords();
    let (_, vy) = body.vel.coords();
    // bottom of the crate is y + 500; the ground's top edge is at 9000
    assert!((y + 500 - 9000).abs() <= 50, "penetration drifted: y = {}", y);
    assert!(vy.abs() <= 400, "vertical velocity did not settle: vy = {}", vy);
}

#[test]
fn collision_events_name_the_colliding_bodies() {
    let mut space: Space<u32> = Space::new(Vec2::new(0, 0));
    let mut a = dynamic_box(500, 500, 1000);
    a.pos = Vec2::new(0, 0);
    let mut b = dynamic_box(500, 500, 1000);
    b.pos = Vec2::new(5000, 0);
    let mut c = dynamic_box(500, 500, 1000);
    c.pos = Vec2::new(5400, 0);
    space.add_body(a);
    let hb = space.add_body(b);
    let hc = space.add_body(c);
    let events = space.update(16);
    assert_eq!(events.len(), 1);
    let event = &events[0];
    assert_eq!(
        space.get_body(&event.first).pos.coords().0,
        space.get_body(&hb).pos.coords().0
    );
    assert_eq!(
        space.get_body(&event.second).pos.coords().0,
        space.get_body(&hc).pos.coords().0
    );
}

#[test]
fn body_accumulators_sum_and_clear() {
    let mut body = dynamic_box(500, 500, 1000);
    body.apply_force(Vec2::new(500, 0));
    body.apply_force(Vec2::new(500, 0));
    assert_eq!(body.current_net_force(1000).coords(), (1000, 0));
    body.update(1000);
    // mass 1.0: acceleration equals force; dt 1.0
    assert_eq!(body.vel.coords(), (1000, 0));
    assert_eq!(body.current_net_force(1000).coords(), (0, 0));
    assert_eq!(body.prev_net_force().coords(), (1000, 0));
}

#[test]
fn impulses_become_forces_over_the_step() {
    let mut body = dynamic_box(500, 500, 1000);
    body.apply_impulse(Vec2::new(250, 0));
    body.update(500);
    // impulse / dt = 0.5 force over half a second: velocity gains 0.25
    assert_eq!(body.vel.coords(), (250, 0));
}

#[test]
fn align_quadrant_flips_signs_and_zeroes() {
    let v = Vec2::new(2000, 3000);
    let aligned = v.align_quadrant(Vec2::new(-1000, 1000));
    assert_eq!(aligned.coords(), (-2000, 3000));
    let squashed = v.align_quadrant(Vec2::new(0, -1000));
    assert_eq!(squashed.coords(), (0, -3000));
}

#[test]
fn unit_orthogonal_is_perpendicular() {
    let v = Vec2::new(3000, 4000);
    let o = v.get_unit_orthogonal();
    assert_eq!(o.coords(), (-800, 600));
    assert_eq!(v.dot(o), 0);
}

#[test]
fn scale_to_picks_the_smaller_ratio() {
    let v = Vec2::new(1000, 1000);
    let scaled = v.scale_to(Vec2::new(2000, 3000));
    assert_eq!(scaled.coords(), (2000, 2000));
}
