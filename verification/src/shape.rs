//! Shapes: axis-aligned rectangles and their geometric queries.
//!
//! A `Rect` carries half-extents only; positions are supplied by the owning
//! body at query time. The narrow phase (`collides_with`) intersects two
//! axis-aligned boxes and classifies the contact along the dominant overlap
//! axis; the contact normal is always one of the four axis unit vectors.

use vstd::prelude::*;
use crate::fix::{SCALE, fadd, fsub, fmul, fdiv, fhalf, fix_add, fix_sub, fix_mul, fix_div,
    fix_half};
use crate::vec2::{Vec2, Vec2Model, vadd, vsub, vmul, vnorm};
use crate::body::{Collision, CollisionModel};

verus! {

/// Mathematical model of a rectangle: its half-extents.
pub ghost struct RectModel {
    pub hw: int,
    pub hh: int,
}

/// Mathematical model of a shape.
pub ghost enum ShapeModel {
    Rect(RectModel),
}

/// The axis-aligned box of a rectangle centred at `pos`:
/// `(x_min, y_min, x_max, y_max)`.
pub open spec fn rect_bounds(r: RectModel, pos: Vec2Model) -> (int, int, int, int) {
    (fsub(pos.x, r.hw), fsub(pos.y, r.hh), fadd(pos.x, r.hw), fadd(pos.y, r.hh))
}

/// Inclusive bounds test: points exactly on an edge are inside.
pub open spec fn rect_contains(r: RectModel, pos: Vec2Model, point: Vec2Model) -> bool {
    let b = rect_bounds(r, pos);
    b.0 <= point.x <= b.2 && b.1 <= point.y <= b.3
}

/// Mass of the full extent at the given density: `2hw * 2hh * density`.
pub open spec fn rect_mass(r: RectModel, density: int) -> int {
    fmul(fmul(fadd(r.hw, r.hw), fadd(r.hh, r.hh)), density)
}

/// Intersection of the ray `p1 + t * d1`, `t` in `[0, 1]`, with the full
/// line `p2 + s * d2`: the point at the solved parameter `t`, or `None` when
/// the directions are parallel or `t` falls outside the segment.
pub open spec fn line_hit(p1: Vec2Model, d1: Vec2Model, p2: Vec2Model, d2: Vec2Model) -> Option<
    Vec2Model,
> {
    let d = fsub(fmul(d2.x, d1.y), fmul(d1.x, d2.y));
    if d == 0 {
        None
    } else {
        let num = fsub(fmul(fsub(p1.x, p2.x), d2.y), fmul(fsub(p1.y, p2.y), d2.x));
        let t = fdiv(num, d);
        if 0 <= t <= SCALE as int {
            Some(vadd(p1, vmul(d1, t)))
        } else {
            None
        }
    }
}

/// Of a best candidate so far and a new one, the hit closer to `origin`;
/// earlier candidates win ties.
pub open spec fn closer_hit(
    best: Option<Vec2Model>,
    cand: Option<Vec2Model>,
    origin: Vec2Model,
) -> Option<Vec2Model> {
    match cand {
        None => best,
        Some(c) => match best {
            None => cand,
            Some(b) => if vnorm(vsub(c, origin)) < vnorm(vsub(b, origin)) {
                cand
            } else {
                best
            },
        },
    }
}

/// Ray cast against the four edges of the rectangle at `pos`: the edge hit
/// closest to the ray origin, if any edge is hit within the segment.
pub open spec fn rect_cast_ray(
    r: RectModel,
    pos: Vec2Model,
    origin: Vec2Model,
    dir: Vec2Model,
) -> Option<Vec2Model> {
    let b = rect_bounds(r, pos);
    let left = line_hit(
        origin,
        dir,
        Vec2Model { x: b.0, y: b.1 },
        Vec2Model { x: 0, y: fsub(b.3, b.1) },
    );
    let top = line_hit(
        origin,
        dir,
        Vec2Model { x: b.0, y: b.3 },
        Vec2Model { x: fsub(b.2, b.0), y: 0 },
    );
    let right = line_hit(
        origin,
        dir,
        Vec2Model { x: b.2, y: b.1 },
        Vec2Model { x: 0, y: fsub(b.3, b.1) },
    );
    let bottom = line_hit(
        origin,
        dir,
        Vec2Model { x: b.0, y: b.1 },
        Vec2Model { x: fsub(b.2, b.0), y: 0 },
    );
    closer_hit(closer_hit(closer_hit(left, top, origin), right, origin), bottom, origin)
}

/// Rectangle-rectangle narrow phase, per the overlap-box rule: `None` when
/// the boxes do not overlap on both axes; otherwise the contact point is the
/// centre of the overlap box and the normal on the first body points along
/// the dominant overlap axis, away from the side its own centre lies on.
pub open spec fn rect_collides(
    s: RectModel,
    self_pos: Vec2Model,
    o: RectModel,
    other_pos: Vec2Model,
) -> Option<CollisionModel> {
    let b = rect_bounds(s, self_pos);
    let ob = rect_bounds(o, other_pos);
    if b.3 < ob.1 || b.1 > ob.3 || b.0 > ob.2 || b.2 < ob.0 {
        None
    } else {
        let cx = fhalf(fadd(b.0, b.2));
        let cy = fhalf(fadd(b.1, b.3));
        let ix1 = if b.0 >= ob.0 {
            b.0
        } else {
            ob.0
        };
        let iy1 = if b.1 >= ob.1 {
            b.1
        } else {
            ob.1
        };
        let ix2 = if b.2 <= ob.2 {
            b.2
        } else {
            ob.2
        };
        let iy2 = if b.3 <= ob.3 {
            b.3
        } else {
            ob.3
        };
        let point = Vec2Model { x: fhalf(fadd(ix1, ix2)), y: fhalf(fadd(iy1, iy2)) };
        let normal = if fsub(ix2, ix1) > fsub(iy2, iy1) {
            if point.y < cy {
                Vec2Model { x: 0, y: SCALE as int }
            } else {
                Vec2Model { x: 0, y: -(SCALE as int) }
            }
        } else {
            if point.x < cx {
                Vec2Model { x: SCALE as int, y: 0 }
            } else {
                Vec2Model { x: -(SCALE as int), y: 0 }
            }
        };
        Some(
            CollisionModel {
                point_a: point,
                point_b: point,
                normal_a: normal,
                normal_b: vmul(normal, -(SCALE as int)),
            },
        )
    }
}

/// Every contact the narrow phase reports carries an axis-aligned unit
/// normal on the first body, and the second body's normal is its exact
/// negation. This is what lets resolution project momenta without losing
/// precision.
pub proof fn lemma_collision_normal_axis_aligned(
    s: RectModel,
    self_pos: Vec2Model,
    o: RectModel,
    other_pos: Vec2Model,
)
    ensures
        rect_collides(s, self_pos, o, other_pos) is Some ==> {
            let c = rect_collides(s, self_pos, o, other_pos).unwrap();
            ((c.normal_a.x == 0 && (c.normal_a.y == SCALE as int || c.normal_a.y == -(
            SCALE as int))) || (c.normal_a.y == 0 && (c.normal_a.x == SCALE as int || c.normal_a.x
                == -(SCALE as int)))) && c.normal_b.x == -c.normal_a.x && c.normal_b.y
                == -c.normal_a.y
        },
{
    if rect_collides(s, self_pos, o, other_pos) is Some {
        let c = rect_collides(s, self_pos, o, other_pos).unwrap();
        let sc = SCALE as int;
        crate::fix::lemma_tdiv_mul_cancel(sc, sc);
        crate::fix::lemma_tdiv_mul_cancel(-sc, sc);
        assert(sc * (-sc) == (-sc) * sc) by (nonlinear_arith);
        assert(0 * (-sc) == 0) by (nonlinear_arith);
        assert(fmul(0, -sc) == 0);
        assert(fmul(sc, -sc) == -sc);
        assert(fmul(-sc, -sc) == sc);
    }
}

/// Bounds of a shape at `pos`.
pub open spec fn shape_bounds(s: ShapeModel, pos: Vec2Model) -> (int, int, int, int) {
    match s {
        ShapeModel::Rect(r) => rect_bounds(r, pos),
    }
}

/// Containment in a shape at `pos`.
pub open spec fn shape_contains(s: ShapeModel, pos: Vec2Model, point: Vec2Model) -> bool {
    match s {
        ShapeModel::Rect(r) => rect_contains(r, pos, point),
    }
}

/// Mass of a shape at the given density.
pub open spec fn shape_mass(s: ShapeModel, density: int) -> int {
    match s {
        ShapeModel::Rect(r) => rect_mass(r, density),
    }
}

/// Ray cast against a shape at `pos`.
pub open spec fn shape_cast_ray(
    s: ShapeModel,
    pos: Vec2Model,
    origin: Vec2Model,
    dir: Vec2Model,
) -> Option<Vec2Model> {
    match s {
        ShapeModel::Rect(r) => rect_cast_ray(r, pos, origin, dir),
    }
}

/// Narrow phase between two shapes at their positions.
pub open spec fn shape_collides(
    s: ShapeModel,
    self_pos: Vec2Model,
    o: ShapeModel,
    other_pos: Vec2Model,
) -> Option<CollisionModel> {
    match (s, o) {
        (ShapeModel::Rect(a), ShapeModel::Rect(b)) => rect_collides(a, self_pos, b, other_pos),
    }
}

/// An axis-aligned rectangle, described by its half-extents; it carries no
/// position of its own.
#[derive(Clone, Copy, Debug)]
pub struct Rect {
    hw: i64,
    hh: i64,
}

/// The concrete kind of a shape, for narrow-phase dispatch.
#[derive(Clone, Copy, Debug)]
pub enum ShapeVariant {
    Rect(Rect),
}

impl View for Rect {
    type V = RectModel;

    closed spec fn view(&self) -> RectModel {
        RectModel { hw: self.hw as int, hh: self.hh as int }
    }
}

impl View for ShapeVariant {
    type V = ShapeModel;

    open spec fn view(&self) -> ShapeModel {
        match self {
            ShapeVariant::Rect(r) => ShapeModel::Rect(r@),
        }
    }
}

/// Intersection of the segment-parametrised ray `p1 + t * d1` with the line
/// through `p2` along `d2`.
pub fn lines_intersect(p1: Vec2, d1: Vec2, p2: Vec2, d2: Vec2) -> (r: Option<Vec2>)
    ensures
        (match r {
            Some(v) => line_hit(p1@, d1@, p2@, d2@) == Some(v@),
            None => line_hit(p1@, d1@, p2@, d2@) is None,
        }),
{
    let d: i64 = fix_sub(fix_mul(d2.x, d1.y), fix_mul(d1.x, d2.y));
    if d == 0 {
        None
    } else {
        let num: i64 = fix_sub(
            fix_mul(fix_sub(p1.x, p2.x), d2.y),
            fix_mul(fix_sub(p1.y, p2.y), d2.x),
        );
        let t: i64 = fix_div(num, d);
        if 0 <= t && t <= SCALE {
            Some(p1.add(d1.mul(t)))
        } else {
            None
        }
    }
}

impl Rect {
    /// A rectangle from its half-extents.
    pub fn new(hw: i64, hh: i64) -> (r: Rect)
        ensures
            r@.hw == hw as int,
            r@.hh == hh as int,
    {
        Rect { hw, hh }
    }

    /// The concrete kind of this shape.
    pub fn variant(&self) -> (r: ShapeVariant)
        ensures
            r@ == ShapeModel::Rect(self@),
    {
        ShapeVariant::Rect(*self)
    }

    /// The axis-aligned box centred at `pos`: `(x_min, y_min, x_max, y_max)`.
    pub fn bounds(&self, pos: Vec2) -> (r: (i64, i64, i64, i64))
        ensures
            r.0 as int == rect_bounds(self@, pos@).0,
            r.1 as int == rect_bounds(self@, pos@).1,
            r.2 as int == rect_bounds(self@, pos@).2,
            r.3 as int == rect_bounds(self@, pos@).3,
    {
        (
            fix_sub(pos.x, self.hw),
            fix_sub(pos.y, self.hh),
            fix_add(pos.x, self.hw),
            fix_add(pos.y, self.hh),
        )
    }

    /// Inclusive containment: a point exactly on an edge is inside.
    pub fn contains(&self, pos: Vec2, point: Vec2) -> (r: bool)
        ensures
            r == rect_contains(self@, pos@, point@),
    {
        let b = self.bounds(pos);
        b.0 <= point.x && point.x <= b.2 && b.1 <= point.y && point.y <= b.3
    }

    /// Mass of the full extent at the given density.
    pub fn mass(&self, density: i64) -> (r: i64)
        ensures
            r as int == rect_mass(self@, density as int),
    {
        fix_mul(fix_mul(fix_add(self.hw, self.hw), fix_add(self.hh, self.hh)), density)
    }

    /// The edge hit closest to `origin` along the ray `origin + t * dir`,
    /// `t` in `[0, 1]`, or `None` when no edge is hit.
    pub fn cast_ray(&self, pos: Vec2, origin: Vec2, dir: Vec2) -> (r: Option<Vec2>)
        ensures
            (match r {
                Some(v) => rect_cast_ray(self@, pos@, origin@, dir@) == Some(v@),
                None => rect_cast_ray(self@, pos@, origin@, dir@) is None,
            }),
    {
        let b = self.bounds(pos);
        let vertical = Vec2::new(0, fix_sub(b.3, b.1));
        let horizontal = Vec2::new(fix_sub(b.2, b.0), 0);
        let mut best: Option<Vec2> = lines_intersect(origin, dir, Vec2::new(b.0, b.1), vertical);
        let top = lines_intersect(origin, dir, Vec2::new(b.0, b.3), horizontal);
        best = pick_closer(best, top, origin);
        let right = lines_intersect(origin, dir, Vec2::new(b.2, b.1), vertical);
        best = pick_closer(best, right, origin);
        let bottom = lines_intersect(origin, dir, Vec2::new(b.0, b.1), horizontal);
        best = pick_closer(best, bottom, origin);
        best
    }

    /// Narrow phase against another shape, with both positions supplied.
    pub fn collides_with(&self, self_pos: Vec2, other: &ShapeVariant, other_pos: Vec2) -> (r:
        Option<Collision>)
        ensures
            (match r {
                Some(c) => rect_collides_other(self@, self_pos@, other@, other_pos@) == Some(c@),
                None => rect_collides_other(self@, self_pos@, other@, other_pos@) is None,
            }),
    {
        match other.variant() {
            ShapeVariant::Rect(rect) => {
                let b = self.bounds(self_pos);
                let ob = rect.bounds(other_pos);
                if b.3 < ob.1 || b.1 > ob.3 || b.0 > ob.2 || b.2 < ob.0 {
                    None
                } else {
                    let cx: i64 = fix_half(fix_add(b.0, b.2));
                    let cy: i64 = fix_half(fix_add(b.1, b.3));
                    let ix1: i64 = if b.0 >= ob.0 {
                        b.0
                    } else {
                        ob.0
                    };
                    let iy1: i64 = if b.1 >= ob.1 {
                        b.1
                    } else {
                        ob.1
                    };
                    let ix2: i64 = if b.2 <= ob.2 {
                        b.2
                    } else {
                        ob.2
                    };
                    let iy2: i64 = if b.3 <= ob.3 {
                        b.3
                    } else {
                        ob.3
                    };
                    let point = Vec2::new(fix_half(fix_add(ix1, ix2)), fix_half(fix_add(iy1, iy2)));
                    let normal: Vec2 = if fix_sub(ix2, ix1) > fix_sub(iy2, iy1) {
                        if point.y < cy {
                            Vec2::new(0, SCALE)
                        } else {
                            Vec2::new(0, -SCALE)
                        }
                    } else {
                        if point.x < cx {
                            Vec2::new(SCALE, 0)
                        } else {
                            Vec2::new(-SCALE, 0)
                        }
                    };
                    Some(
                        Collision {
                            point_a: point,
                            point_b: point,
                            normal_a: normal,
                            normal_b: normal.mul(-SCALE),
                        },
                    )
                }
            },
        }
    }
}

/// The narrow phase of a rectangle against any shape model.
pub open spec fn rect_collides_other(
    r: RectModel,
    self_pos: Vec2Model,
    o: ShapeModel,
    other_pos: Vec2Model,
) -> Option<CollisionModel> {
    match o {
        ShapeModel::Rect(other) => rect_collides(r, self_pos, other, other_pos),
    }
}

/// Of two candidate hits, the one closer to `origin`; the earlier candidate
/// wins ties.
fn pick_closer(best: Option<Vec2>, cand: Option<Vec2>, origin: Vec2) -> (r: Option<Vec2>)
    ensures
        (match r {
            Some(v) => closer_hit(
                (match best {
                    Some(b) => Some(b@),
                    None => None,
                }),
                (match cand {
                    Some(c) => Some(c@),
                    None => None,
                }),
                origin@,
            ) == Some(v@),
            None => closer_hit(
                (match best {
                    Some(b) => Some(b@),
                    None => None,
                }),
                (match cand {
                    Some(c) => Some(c@),
                    None => None,
                }),
                origin@,
            ) is None,
        }),
{
    match cand {
        None => best,
        Some(c) => match best {
            None => Some(c),
            Some(b) => {
                if c.sub(origin).norm() < b.sub(origin).norm() {
                    Some(c)
                } else {
                    Some(b)
                }
            },
        },
    }
}

impl ShapeVariant {
    /// The concrete kind of this shape.
    pub fn variant(&self) -> (r: ShapeVariant)
        ensures
            r@ == self@,
    {
        match self {
            ShapeVariant::Rect(r) => ShapeVariant::Rect(*r),
        }
    }

    /// The axis-aligned box centred at `pos`.
    pub fn bounds(&self, pos: Vec2) -> (r: (i64, i64, i64, i64))
        ensures
            r.0 as int == shape_bounds(self@, pos@).0,
            r.1 as int == shape_bounds(self@, pos@).1,
            r.2 as int == shape_bounds(self@, pos@).2,
            r.3 as int == shape_bounds(self@, pos@).3,
    {
        match self {
            ShapeVariant::Rect(r) => r.bounds(pos),
        }
    }

    /// Inclusive containment.
    pub fn contains(&self, pos: Vec2, point: Vec2) -> (r: bool)
        ensures
            r == shape_contains(self@, pos@, point@),
    {
        match self {
            ShapeVariant::Rect(r) => r.contains(pos, point),
        }
    }

    /// Mass at the given density.
    pub fn mass(&self, density: i64) -> (r: i64)
        ensures
            r as int == shape_mass(self@, density as int),
    {
        match self {
            ShapeVariant::Rect(r) => r.mass(density),
        }
    }

    /// The edge hit closest to `origin` along the given ray.
    pub fn cast_ray(&self, pos: Vec2, origin: Vec2, dir: Vec2) -> (r: Option<Vec2>)
        ensures
            (match r {
                Some(v) => shape_cast_ray(self@, pos@, origin@, dir@) == Some(v@),
                None => shape_cast_ray(self@, pos@, origin@, dir@) is None,
            }),
    {
        match self {
            ShapeVariant::Rect(r) => r.cast_ray(pos, origin, dir),
        }
    }

    /// Narrow phase against another shape.
    pub fn collides_with(&self, self_pos: Vec2, other: &ShapeVariant, other_pos: Vec2) -> (r:
        Option<Collision>)
        ensures
            (match r {
                Some(c) => shape_collides(self@, self_pos@, other@, other_pos@) == Some(c@),
                None => shape_collides(self@, self_pos@, other@, other_pos@) is None,
            }),
    {
        match self {
            ShapeVariant::Rect(r) => r.collides_with(self_pos, other, other_pos),
        }
    }
}

} // verus!
