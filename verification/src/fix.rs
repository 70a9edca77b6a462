//! Saturating fixed-point scalars.
//!
//! A quantity is an `i64` counting thousandths of a unit: the value `1500`
//! stands for `1.5`. Products and quotients carry the scale explicitly
//! (`fmul`, `fdiv`), and every result is clipped to the symmetric range
//! `[-FIX_MAX, FIX_MAX]`, the fixed-point analogue of an infinity: arithmetic
//! here is total and never panics or wraps.

use vstd::prelude::*;

verus! {

/// Thousandths of a unit per unit.
pub const SCALE: i64 = 1000;

/// Largest representable magnitude (one thousand billion units).
pub const FIX_MAX: i64 = 1_000_000_000_000_000;

/// True when `x` lies in the representable range.
pub open spec fn in_fix(x: int) -> bool {
    -(FIX_MAX as int) <= x <= FIX_MAX as int
}

/// Magnitude of a mathematical integer.
pub open spec fn iabs(x: int) -> int {
    if x >= 0 {
        x
    } else {
        -x
    }
}

/// Saturation to the representable range.
pub open spec fn clip(x: int) -> int {
    if x > FIX_MAX as int {
        FIX_MAX as int
    } else if x < -(FIX_MAX as int) {
        -(FIX_MAX as int)
    } else {
        x
    }
}

/// Division truncated toward zero (the direction hardware divides in),
/// total: division by zero yields zero.
pub open spec fn tdiv(a: int, b: int) -> int {
    if b == 0 {
        0
    } else {
        let q = iabs(a) / iabs(b);
        if (a >= 0) == (b >= 0) {
            q
        } else {
            -q
        }
    }
}

/// Saturating sum.
pub open spec fn fadd(a: int, b: int) -> int {
    clip(a + b)
}

/// Saturating difference.
pub open spec fn fsub(a: int, b: int) -> int {
    clip(a - b)
}

/// Saturating fixed-point product: `(a * b) / SCALE`, truncated.
pub open spec fn fmul(a: int, b: int) -> int {
    clip(tdiv(a * b, SCALE as int))
}

/// Saturating fixed-point quotient: `(a * SCALE) / b`, truncated;
/// zero when `b` is zero.
pub open spec fn fdiv(a: int, b: int) -> int {
    if b == 0 {
        0
    } else {
        clip(tdiv(a * (SCALE as int), b))
    }
}

/// Saturating half, truncated toward zero.
pub open spec fn fhalf(a: int) -> int {
    clip(tdiv(a, 2))
}

/// Saturating magnitude.
pub open spec fn fabs(a: int) -> int {
    clip(iabs(a))
}

/// The smaller of two integers.
pub open spec fn imin(a: int, b: int) -> int {
    if a <= b {
        a
    } else {
        b
    }
}

/// Integer square root of a natural number: the greatest `r` with
/// `r * r <= n`.
pub open spec fn sqrt_nat(n: nat) -> nat
    decreases n,
{
    if n == 0 {
        0
    } else {
        let r = sqrt_nat((n - 1) as nat);
        if (r + 1) * (r + 1) <= n {
            r + 1
        } else {
            r
        }
    }
}

/// Integer square root extended to all integers: zero on negatives.
pub open spec fn sqrt_i(n: int) -> int {
    if n <= 0 {
        0
    } else {
        sqrt_nat(n as nat) as int
    }
}

/// `sqrt_nat(n)` is the greatest integer whose square is at most `n`.
pub proof fn lemma_sqrt_nat_bounds(n: nat)
    ensures
        (sqrt_nat(n) as int) * (sqrt_nat(n) as int) <= n as int,
        (n as int) < (sqrt_nat(n) as int + 1) * (sqrt_nat(n) as int + 1),
    decreases n,
{
    if n == 0 {
        assert(sqrt_nat(0) == 0);
    } else {
        let r = sqrt_nat((n - 1) as nat) as int;
        lemma_sqrt_nat_bounds((n - 1) as nat);
        assert(r * r <= n - 1);
        assert(n - 1 < (r + 1) * (r + 1));
        if (r + 1) * (r + 1) <= n {
            assert(sqrt_nat(n) == r + 1);
            assert(n < (r + 2) * (r + 2)) by (nonlinear_arith)
                requires
                    n - 1 < (r + 1) * (r + 1),
                    r >= 0,
            ;
        } else {
            assert(sqrt_nat(n) == r);
            assert(r * r <= n);
            assert(n < (r + 1) * (r + 1));
        }
    }
}

/// Squaring is monotonic on the naturals.
pub proof fn lemma_square_ordered(a: int, b: int)
    requires
        0 <= a,
        a <= b,
    ensures
        a * a <= b * b,
{
    assert(a * a <= b * b) by (nonlinear_arith)
        requires
            0 <= a,
            a <= b,
    ;
}

/// Any integer bracketed like `sqrt_nat(n)` equals it.
pub proof fn lemma_sqrt_unique(n: nat, r: int)
    requires
        0 <= r,
        r * r <= n,
        n < (r + 1) * (r + 1),
    ensures
        r == sqrt_nat(n),
{
    let s = sqrt_nat(n) as int;
    lemma_sqrt_nat_bounds(n);
    if r < s {
        lemma_square_ordered(r + 1, s);
    }
    if s < r {
        lemma_square_ordered(s + 1, r);
    }
}

/// Truncating division leaves a remainder smaller than the divisor.
pub proof fn lemma_tdiv_rem(a: int, b: int)
    requires
        b > 0,
    ensures
        iabs(a - b * tdiv(a, b)) < b,
{
    if a >= 0 {
        assert(tdiv(a, b) == a / b);
        vstd::arithmetic::div_mod::lemma_fundamental_div_mod(a, b);
        vstd::arithmetic::div_mod::lemma_mod_bound(a, b);
    } else {
        assert(tdiv(a, b) == -((-a) / b));
        vstd::arithmetic::div_mod::lemma_fundamental_div_mod(-a, b);
        vstd::arithmetic::div_mod::lemma_mod_bound(-a, b);
        assert(-a == b * ((-a) / b) + ((-a) % b));
        assert(b * tdiv(a, b) == -(b * ((-a) / b))) by (nonlinear_arith)
            requires
                tdiv(a, b) == -((-a) / b),
        ;
        assert(a - b * tdiv(a, b) == -((-a) % b));
    }
}

/// Dividing an exact multiple truncates nothing.
pub proof fn lemma_tdiv_mul_cancel(a: int, b: int)
    requires
        b > 0,
    ensures
        tdiv(a * b, b) == a,
{
    if a >= 0 {
        assert(a * b >= 0) by (nonlinear_arith)
            requires
                a >= 0,
                b > 0,
        ;
        assert(iabs(a * b) == a * b);
        vstd::arithmetic::div_mod::lemma_div_multiples_vanish(a, b);
        assert(a * b == b * a) by (nonlinear_arith);
        assert(tdiv(a * b, b) == (a * b) / b);
    } else {
        assert(a * b <= 0) by (nonlinear_arith)
            requires
                a < 0,
                b > 0,
        ;
        assert(iabs(a * b) == -(a * b));
        assert(-(a * b) == (-a) * b) by (nonlinear_arith);
        vstd::arithmetic::div_mod::lemma_div_multiples_vanish(-a, b);
        assert((-a) * b == b * (-a)) by (nonlinear_arith);
        if a * b == 0 {
            assert(false) by (nonlinear_arith)
                requires
                    a < 0,
                    b > 0,
                    a * b == 0,
            ;
        }
        assert(tdiv(a * b, b) == -(((-a) * b) / b));
    }
}

/// Saturate an `i128` intermediate into the representable `i64` range.
pub(crate) fn fix_clip(x: i128) -> (r: i64)
    ensures
        r as int == clip(x as int),
{
    if x > FIX_MAX as i128 {
        FIX_MAX
    } else if x < -(FIX_MAX as i128) {
        -FIX_MAX
    } else {
        x as i64
    }
}

/// Truncating division on `i128`, total in `b` (zero divisor yields zero).
pub(crate) fn fix_tdiv(a: i128, b: i128) -> (r: i128)
    requires
        a != i128::MIN,
        b != i128::MIN,
    ensures
        r as int == tdiv(a as int, b as int),
{
    if b == 0 {
        0
    } else {
        let na: u128 = if a < 0 {
            (-a) as u128
        } else {
            a as u128
        };
        let nb: u128 = if b < 0 {
            (-b) as u128
        } else {
            b as u128
        };
        assert(na as int == iabs(a as int));
        assert(nb as int == iabs(b as int));
        let q: u128 = na / nb;
        assert(q <= na) by (nonlinear_arith)
            requires
                nb >= 1,
                q == na / nb,
        ;
        let qi: i128 = q as i128;
        if (a < 0) != (b < 0) {
            -qi
        } else {
            qi
        }
    }
}

/// Saturating sum of two fixed-point scalars.
pub fn fix_add(a: i64, b: i64) -> (r: i64)
    ensures
        r as int == fadd(a as int, b as int),
{
    fix_clip(a as i128 + b as i128)
}

/// Saturating difference of two fixed-point scalars.
pub fn fix_sub(a: i64, b: i64) -> (r: i64)
    ensures
        r as int == fsub(a as int, b as int),
{
    fix_clip(a as i128 - b as i128)
}

/// Saturating fixed-point product.
pub fn fix_mul(a: i64, b: i64) -> (r: i64)
    ensures
        r as int == fmul(a as int, b as int),
{
    proof {
        lemma_i64_product_fits(a as int, b as int);
    }
    let p: i128 = (a as i128) * (b as i128);
    fix_clip(fix_tdiv(p, SCALE as i128))
}

/// The product of two `i64` values fits comfortably inside `i128`.
pub proof fn lemma_i64_product_fits(a: int, b: int)
    requires
        i64::MIN <= a <= i64::MAX,
        i64::MIN <= b <= i64::MAX,
    ensures
        -85070591730234615865843651857942052864 <= a * b
            <= 85070591730234615865843651857942052864,
{
    assert(-85070591730234615865843651857942052864 <= a * b
        <= 85070591730234615865843651857942052864) by (nonlinear_arith)
        requires
            -9223372036854775808 <= a <= 9223372036854775807,
            -9223372036854775808 <= b <= 9223372036854775807,
    ;
}

/// Saturating fixed-point quotient; zero when the divisor is zero.
pub fn fix_div(a: i64, b: i64) -> (r: i64)
    ensures
        r as int == fdiv(a as int, b as int),
{
    if b == 0 {
        0
    } else {
        proof {
            lemma_i64_product_fits(a as int, SCALE as int);
        }
        let p: i128 = (a as i128) * (SCALE as i128);
        fix_clip(fix_tdiv(p, b as i128))
    }
}

/// Saturating half.
pub fn fix_half(a: i64) -> (r: i64)
    ensures
        r as int == fhalf(a as int),
{
    fix_clip(fix_tdiv(a as i128, 2))
}

/// Saturating magnitude.
pub fn fix_abs(a: i64) -> (r: i64)
    ensures
        r as int == fabs(a as int),
{
    if a < 0 {
        fix_clip(-(a as i128))
    } else {
        fix_clip(a as i128)
    }
}

/// The smaller of two scalars.
pub fn fix_min(a: i64, b: i64) -> (r: i64)
    ensures
        r as int == if a as int <= b as int {
            a as int
        } else {
            b as int
        },
{
    if a <= b {
        a
    } else {
        b
    }
}

/// Integer square root on `u128`.
pub(crate) fn fix_sqrt(n: u128) -> (r: u128)
    ensures
        r as int == sqrt_i(n as int),
{
    let mut lo: u128 = 0;
    let mut hi: u128 = 0xFFFF_FFFF_FFFF_FFFF;
    if n < hi {
        hi = n;
        proof {
            assert(n < (n + 1) * (n + 1)) by (nonlinear_arith);
        }
    } else {
        proof {
            assert(n < (0xFFFF_FFFF_FFFF_FFFFu128 + 1) * (0xFFFF_FFFF_FFFF_FFFFu128 + 1))
                by (nonlinear_arith)
                requires
                    n <= u128::MAX,
            ;
        }
    }
    while lo < hi
        invariant
            lo <= hi,
            hi <= 0xFFFF_FFFF_FFFF_FFFF,
            lo * lo <= n,
            n < (hi + 1) * (hi + 1),
        decreases hi - lo,
    {
        let mid: u128 = lo + (hi - lo + 1) / 2;
        assert(mid * mid <= u128::MAX) by (nonlinear_arith)
            requires
                mid <= 0xFFFF_FFFF_FFFF_FFFFu128,
        ;
        if mid * mid <= n {
            lo = mid;
        } else {
            hi = mid - 1;
        }
    }
    proof {
        assert(lo == hi);
        if n > 0 {
            lemma_sqrt_unique(n as nat, lo as int);
            assert(lo as int == sqrt_nat(n as nat) as int);
            assert(n as int > 0);
            assert((n as int) as nat == n as nat);
            assert(sqrt_i(n as int) == sqrt_nat(n as nat) as int);
        } else {
            lemma_sqrt_unique(n as nat, lo as int);
            assert(sqrt_nat(0nat) == 0);
            assert(lo == 0);
            assert(sqrt_i(n as int) == 0);
        }
    }
    lo
}

} // verus!
