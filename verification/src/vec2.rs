//! 2D vectors over saturating fixed-point scalars.
//!
//! `Vec2` is the value type everything else is built on: immutable, all
//! operations return new values. The normalisation and projection operations
//! guard their divisions, so a zero vector yields a zero vector rather than a
//! meaningless quotient.

use vstd::prelude::*;
use crate::fix::{
    SCALE, clip, in_fix, fadd, fsub, fmul, fdiv, fabs, sqrt_i, fix_add, fix_sub, fix_mul, fix_div,
    fix_abs, fix_clip, fix_sqrt, fix_min,
};

verus! {

/// Mathematical model of a vector: a pair of unbounded integers, each
/// counting thousandths of a unit.
pub ghost struct Vec2Model {
    pub x: int,
    pub y: int,
}

/// Componentwise saturating sum.
pub open spec fn vadd(a: Vec2Model, b: Vec2Model) -> Vec2Model {
    Vec2Model { x: fadd(a.x, b.x), y: fadd(a.y, b.y) }
}

/// Componentwise saturating difference.
pub open spec fn vsub(a: Vec2Model, b: Vec2Model) -> Vec2Model {
    Vec2Model { x: fsub(a.x, b.x), y: fsub(a.y, b.y) }
}

/// Scaling by a fixed-point scalar.
pub open spec fn vmul(a: Vec2Model, s: int) -> Vec2Model {
    Vec2Model { x: fmul(a.x, s), y: fmul(a.y, s) }
}

/// Componentwise division by a fixed-point scalar; zero when `s` is zero.
pub open spec fn vdiv(a: Vec2Model, s: int) -> Vec2Model {
    Vec2Model { x: fdiv(a.x, s), y: fdiv(a.y, s) }
}

/// Dot product, saturating.
pub open spec fn vdot(a: Vec2Model, b: Vec2Model) -> int {
    fadd(fmul(a.x, b.x), fmul(a.y, b.y))
}

/// Euclidean length: the integer square root of the exact sum of squares,
/// saturated into range.
pub open spec fn vnorm(a: Vec2Model) -> int {
    clip(sqrt_i(a.x * a.x + a.y * a.y))
}

/// Componentwise magnitude.
pub open spec fn vabs(a: Vec2Model) -> Vec2Model {
    Vec2Model { x: fabs(a.x), y: fabs(a.y) }
}

/// Flip each component of `a` onto the quadrant of `align`; a zero component
/// of `align` zeroes the corresponding component (the guarded form of
/// dividing a component by its own magnitude).
pub open spec fn valign(a: Vec2Model, align: Vec2Model) -> Vec2Model {
    Vec2Model {
        x: if align.x > 0 {
            clip(a.x)
        } else if align.x < 0 {
            clip(-a.x)
        } else {
            0
        },
        y: if align.y > 0 {
            clip(a.y)
        } else if align.y < 0 {
            clip(-a.y)
        } else {
            0
        },
    }
}

/// Normalisation: each component divided by the length; the zero vector maps
/// to the zero vector rather than dividing by zero.
pub open spec fn vunit(a: Vec2Model) -> Vec2Model {
    if vnorm(a) == 0 {
        Vec2Model { x: 0, y: 0 }
    } else {
        Vec2Model { x: fdiv(a.x, vnorm(a)), y: fdiv(a.y, vnorm(a)) }
    }
}

/// Projection of `a` onto `b`: `b * (a . b / b . b)`, and the zero vector
/// when `b` is zero rather than dividing by zero.
pub open spec fn vproj(a: Vec2Model, b: Vec2Model) -> Vec2Model {
    if b.x == 0 && b.y == 0 {
        Vec2Model { x: 0, y: 0 }
    } else {
        vmul(b, fdiv(vdot(a, b), vdot(b, b)))
    }
}

/// Component of `a` orthogonal to `b`.
pub open spec fn vortho(a: Vec2Model, b: Vec2Model) -> Vec2Model {
    vsub(a, vproj(a, b))
}

/// The scale factor `scale_to` applies: the smaller of the componentwise
/// ratios between `target` (sign-aligned with `a`) and `a`, skipping
/// components where `a` is zero.
pub open spec fn vscale_factor(a: Vec2Model, target: Vec2Model) -> int {
    let aligned = valign(target, a);
    let sx = fabs(fdiv(aligned.x, a.x));
    let sy = fabs(fdiv(aligned.y, a.y));
    if a.x == 0 && a.y == 0 {
        0
    } else if a.x == 0 {
        sy
    } else if a.y == 0 {
        sx
    } else if sx <= sy {
        sx
    } else {
        sy
    }
}

/// `a` scaled so that the smaller componentwise ratio carries it onto
/// `target`'s quadrant-aligned image.
pub open spec fn vscale_to(a: Vec2Model, target: Vec2Model) -> Vec2Model {
    vmul(a, vscale_factor(a, target))
}

/// The counterclockwise orthogonal of `a`, normalised.
pub open spec fn vunit_orth(a: Vec2Model) -> Vec2Model {
    vunit(Vec2Model { x: clip(-a.y), y: clip(a.x) })
}

/// Projection onto an axis-aligned unit vector selects the matching
/// component exactly: no precision is lost along a contact normal.
pub proof fn lemma_proj_axis_unit(u: Vec2Model, n: Vec2Model)
    requires
        in_fix(u.x),
        in_fix(u.y),
        (n.x == 0 && (n.y == SCALE as int || n.y == -(SCALE as int))) || (n.y == 0 && (n.x
            == SCALE as int || n.x == -(SCALE as int))),
    ensures
        n.x == 0 ==> vproj(u, n) == (Vec2Model { x: 0, y: u.y }),
        n.y == 0 ==> vproj(u, n) == (Vec2Model { x: u.x, y: 0 }),
{
    let s = SCALE as int;
    crate::fix::lemma_tdiv_mul_cancel(s, s);
    assert(s * s == (-s) * (-s)) by (nonlinear_arith);
    if n.x == 0 {
        let w = n.y;
        assert(u.x * 0 == 0) by (nonlinear_arith);
        assert(u.y * w == (if w == s {
            u.y
        } else {
            -u.y
        }) * s) by (nonlinear_arith)
            requires
                w == s || w == -s,
        ;
        crate::fix::lemma_tdiv_mul_cancel(u.y, s);
        crate::fix::lemma_tdiv_mul_cancel(-u.y, s);
        assert(fmul(u.x, n.x) == 0);
        assert(fmul(u.y, w) == (if w == s {
            u.y
        } else {
            -u.y
        }));
        let d = vdot(u, n);
        assert(d == (if w == s {
            u.y
        } else {
            -u.y
        }));
        assert(n.x * n.x == 0) by (nonlinear_arith)
            requires
                n.x == 0,
        ;
        assert(w * w == s * s) by (nonlinear_arith)
            requires
                w == s || w == -s,
        ;
        crate::fix::lemma_tdiv_mul_cancel(s, s);
        assert(vdot(n, n) == s);
        crate::fix::lemma_tdiv_mul_cancel(d, s);
        assert(fdiv(d, s) == d);
        assert(n.x * d == 0) by (nonlinear_arith)
            requires
                n.x == 0,
        ;
        assert(w * d == u.y * s) by (nonlinear_arith)
            requires
                (w == s && d == u.y) || (w == -s && d == -u.y),
        ;
        crate::fix::lemma_tdiv_mul_cancel(u.y, s);
        assert(vmul(n, d) == (Vec2Model { x: 0, y: u.y }));
    } else {
        let w = n.x;
        assert(u.y * 0 == 0) by (nonlinear_arith);
        assert(u.x * w == (if w == s {
            u.x
        } else {
            -u.x
        }) * s) by (nonlinear_arith)
            requires
                w == s || w == -s,
        ;
        crate::fix::lemma_tdiv_mul_cancel(u.x, s);
        crate::fix::lemma_tdiv_mul_cancel(-u.x, s);
        assert(fmul(u.y, n.y) == 0);
        assert(fmul(u.x, w) == (if w == s {
            u.x
        } else {
            -u.x
        }));
        let d = vdot(u, n);
        assert(d == (if w == s {
            u.x
        } else {
            -u.x
        }));
        assert(n.y * n.y == 0) by (nonlinear_arith)
            requires
                n.y == 0,
        ;
        assert(w * w == s * s) by (nonlinear_arith)
            requires
                w == s || w == -s,
        ;
        assert(vdot(n, n) == s);
        crate::fix::lemma_tdiv_mul_cancel(d, s);
        assert(fdiv(d, s) == d);
        assert(n.y * d == 0) by (nonlinear_arith)
            requires
                n.y == 0,
        ;
        assert(w * d == u.x * s) by (nonlinear_arith)
            requires
                (w == s && d == u.x) || (w == -s && d == -u.x),
        ;
        crate::fix::lemma_tdiv_mul_cancel(u.x, s);
        assert(vmul(n, d) == (Vec2Model { x: u.x, y: 0 }));
    }
}

/// A 2D vector of fixed-point coordinates (thousandths of a unit).
#[derive(Clone, Copy, Debug)]
pub struct Vec2 {
    pub x: i64,
    pub y: i64,
}

impl View for Vec2 {
    type V = Vec2Model;

    open spec fn view(&self) -> Vec2Model {
        Vec2Model { x: self.x as int, y: self.y as int }
    }
}

impl Default for Vec2 {
    /// The zero vector.
    fn default() -> (v: Vec2)
        ensures
            v@.x == 0 && v@.y == 0,
    {
        Vec2 { x: 0, y: 0 }
    }
}

impl Vec2 {
    /// A vector from its fixed-point coordinates.
    pub fn new(x: i64, y: i64) -> (v: Vec2)
        ensures
            v@.x == x as int,
            v@.y == y as int,
    {
        Vec2 { x, y }
    }

    /// The coordinates as a pair.
    pub fn coords(self) -> (r: (i64, i64))
        ensures
            r.0 as int == self@.x,
            r.1 as int == self@.y,
    {
        (self.x, self.y)
    }

    /// Componentwise saturating sum.
    pub fn add(self, other: Vec2) -> (r: Vec2)
        ensures
            r@ == vadd(self@, other@),
    {
        Vec2 { x: fix_add(self.x, other.x), y: fix_add(self.y, other.y) }
    }

    /// Componentwise saturating difference.
    pub fn sub(self, other: Vec2) -> (r: Vec2)
        ensures
            r@ == vsub(self@, other@),
    {
        Vec2 { x: fix_sub(self.x, other.x), y: fix_sub(self.y, other.y) }
    }

    /// Scaling by a fixed-point scalar.
    pub fn mul(self, scalar: i64) -> (r: Vec2)
        ensures
            r@ == vmul(self@, scalar as int),
    {
        Vec2 { x: fix_mul(self.x, scalar), y: fix_mul(self.y, scalar) }
    }

    /// Componentwise division by a fixed-point scalar; the zero divisor
    /// yields the zero vector.
    pub fn div(self, scalar: i64) -> (r: Vec2)
        ensures
            r@ == vdiv(self@, scalar as int),
    {
        Vec2 { x: fix_div(self.x, scalar), y: fix_div(self.y, scalar) }
    }

    /// Dot product.
    pub fn dot(self, other: Vec2) -> (r: i64)
        ensures
            r as int == vdot(self@, other@),
    {
        fix_add(fix_mul(self.x, other.x), fix_mul(self.y, other.y))
    }

    /// Euclidean length.
    pub fn norm(self) -> (r: i64)
        ensures
            r as int == vnorm(self@),
    {
        proof {
            crate::fix::lemma_i64_product_fits(self.x as int, self.x as int);
            crate::fix::lemma_i64_product_fits(self.y as int, self.y as int);
        }
        let xx: i128 = (self.x as i128) * (self.x as i128);
        let yy: i128 = (self.y as i128) * (self.y as i128);
        proof {
            assert(xx >= 0) by (nonlinear_arith)
                requires
                    xx == (self.x as i128) * (self.x as i128),
            ;
            assert(yy >= 0) by (nonlinear_arith)
                requires
                    yy == (self.y as i128) * (self.y as i128),
            ;
        }
        let s: u128 = (xx as u128) + (yy as u128);
        let rt: u128 = fix_sqrt(s);
        proof {
            assert(s as int == self@.x * self@.x + self@.y * self@.y);
            if s > 0 {
                crate::fix::lemma_sqrt_nat_bounds(s as nat);
                if rt >= 0x1_0000_0000_0000_0000u128 {
                    crate::fix::lemma_square_ordered(0x1_0000_0000_0000_0000, rt as int);
                    assert(false);
                }
            }
            assert(rt < 0x1_0000_0000_0000_0000u128);
        }
        fix_clip(rt as i128)
    }

    /// Componentwise magnitude.
    pub fn abs(self) -> (r: Vec2)
        ensures
            r@ == vabs(self@),
    {
        Vec2 { x: fix_abs(self.x), y: fix_abs(self.y) }
    }

    /// Flip each component into the quadrant of `align`; components facing a
    /// zero component of `align` become zero.
    pub fn align_quadrant(self, align: Vec2) -> (r: Vec2)
        ensures
            r@ == valign(self@, align@),
    {
        let x: i64 = if align.x > 0 {
            fix_clip(self.x as i128)
        } else if align.x < 0 {
            fix_clip(-(self.x as i128))
        } else {
            0
        };
        let y: i64 = if align.y > 0 {
            fix_clip(self.y as i128)
        } else if align.y < 0 {
            fix_clip(-(self.y as i128))
        } else {
            0
        };
        Vec2 { x, y }
    }

    /// Normalisation; the zero vector stays the zero vector (no division by
    /// zero ever happens).
    pub fn unit(self) -> (r: Vec2)
        ensures
            r@ == vunit(self@),
            self@.x == 0 && self@.y == 0 ==> r@.x == 0 && r@.y == 0,
    {
        let n: i64 = self.norm();
        if n == 0 {
            Vec2 { x: 0, y: 0 }
        } else {
            Vec2 { x: fix_div(self.x, n), y: fix_div(self.y, n) }
        }
    }

    /// Projection onto `vector`; projecting onto the zero vector yields the
    /// zero vector (no division by zero ever happens).
    pub fn projection_onto(self, vector: Vec2) -> (r: Vec2)
        ensures
            r@ == vproj(self@, vector@),
            vector@.x == 0 && vector@.y == 0 ==> r@.x == 0 && r@.y == 0,
    {
        if vector.x == 0 && vector.y == 0 {
            Vec2 { x: 0, y: 0 }
        } else {
            let d: i64 = self.dot(vector);
            let dd: i64 = vector.dot(vector);
            vector.mul(fix_div(d, dd))
        }
    }

    /// The component of `self` orthogonal to `vector`.
    pub fn orthogonalise(self, vector: Vec2) -> (r: Vec2)
        ensures
            r@ == vortho(self@, vector@),
    {
        self.sub(self.projection_onto(vector))
    }

    /// The normalised counterclockwise orthogonal.
    pub fn get_unit_orthogonal(self) -> (r: Vec2)
        ensures
            r@ == vunit_orth(self@),
    {
        let v = Vec2 { x: fix_clip(-(self.y as i128)), y: fix_clip(self.x as i128) };
        v.unit()
    }

    /// `self` scaled so that the smaller componentwise ratio carries it onto
    /// `vector`'s quadrant-aligned image; zero components of `self` are
    /// skipped rather than divided by.
    pub fn scale_to(self, vector: Vec2) -> (r: Vec2)
        ensures
            r@ == vscale_to(self@, vector@),
    {
        let aligned: Vec2 = vector.align_quadrant(self);
        let sx: i64 = fix_abs(fix_div(aligned.x, self.x));
        let sy: i64 = fix_abs(fix_div(aligned.y, self.y));
        let scale: i64 = if self.x == 0 && self.y == 0 {
            0
        } else if self.x == 0 {
            sy
        } else if self.y == 0 {
            sx
        } else {
            fix_min(sx, sy)
        };
        self.mul(scale)
    }
}

} // verus!
