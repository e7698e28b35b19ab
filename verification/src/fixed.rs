//! Saturating fixed-point scalars.
//!
//! A scalar is an `i64` holding a real value scaled by [`SCALE`]
//! (one unit is a millionth).  Results that would leave the `i64`
//! range saturate to the nearest end, the way float arithmetic runs
//! off to infinity, and products and quotients truncate toward zero.
//! Every operation here is total and has an exact contract over the
//! spec-level model functions.

use vstd::arithmetic::div_mod::{
    lemma_div_is_ordered,
    lemma_div_multiples_vanish,
    lemma_div_of0,
    lemma_div_pos_is_pos,
};
use vstd::arithmetic::mul::{
    lemma_mul_by_zero_is_zero,
    lemma_mul_inequality,
    lemma_mul_is_commutative,
    lemma_mul_nonnegative,
    lemma_mul_unary_negation,
    lemma_mul_upper_bound,
};
use vstd::prelude::*;

verus! {

/// Number of fixed-point units in 1.0.
pub const SCALE: i64 = 1_000_000;

/// Fixed-point representation of 1.0.
pub const ONE: i64 = 1_000_000;

/// The most positive representable scalar, standing in for +infinity.
pub open spec fn fx_hi() -> int {
    i64::MAX as int
}

/// The most negative representable scalar, standing in for -infinity.
pub open spec fn fx_lo() -> int {
    i64::MIN as int
}

/// Saturation to the representable range.
pub open spec fn clip(v: int) -> int {
    if v > fx_hi() {
        fx_hi()
    } else if v < fx_lo() {
        fx_lo()
    } else {
        v
    }
}

/// Magnitude of an integer.
pub open spec fn mag(v: int) -> int {
    if v >= 0 {
        v
    } else {
        -v
    }
}

/// Division truncating toward zero, as hardware division does.
pub open spec fn tdiv(p: int, q: int) -> int
    recommends
        q != 0,
{
    if (p >= 0) == (q >= 0) {
        mag(p) / mag(q)
    } else {
        -(mag(p) / mag(q))
    }
}

/// Model of fixed-point addition.
pub open spec fn fadd(a: int, b: int) -> int {
    clip(a + b)
}

/// Model of fixed-point subtraction.
pub open spec fn fsub(a: int, b: int) -> int {
    clip(a - b)
}

/// Model of fixed-point negation.
pub open spec fn fneg(a: int) -> int {
    clip(-a)
}

/// Model of fixed-point multiplication.
pub open spec fn fmul(a: int, b: int) -> int {
    clip(tdiv(a * b, SCALE as int))
}

/// Model of fixed-point division.  Division by zero saturates by the
/// sign of the dividend, echoing the float convention that x/0 is a
/// signed infinity and 0/0 carries no information (here: zero).
pub open spec fn fdiv(a: int, b: int) -> int {
    if b == 0 {
        if a > 0 {
            fx_hi()
        } else if a < 0 {
            fx_lo()
        } else {
            0
        }
    } else {
        clip(tdiv(a * SCALE as int, b))
    }
}

/// Exact saturating addition.
pub fn fx_add(a: i64, b: i64) -> (r: i64)
    ensures
        r == fadd(a as int, b as int),
{
    let s: i128 = a as i128 + b as i128;
    if s > i64::MAX as i128 {
        i64::MAX
    } else if s < i64::MIN as i128 {
        i64::MIN
    } else {
        s as i64
    }
}

/// Exact saturating subtraction.
pub fn fx_sub(a: i64, b: i64) -> (r: i64)
    ensures
        r == fsub(a as int, b as int),
{
    let s: i128 = a as i128 - b as i128;
    if s > i64::MAX as i128 {
        i64::MAX
    } else if s < i64::MIN as i128 {
        i64::MIN
    } else {
        s as i64
    }
}

/// Exact saturating negation.
pub fn fx_neg(a: i64) -> (r: i64)
    ensures
        r == fneg(a as int),
{
    let s: i128 = -(a as i128);
    if s > i64::MAX as i128 {
        i64::MAX
    } else {
        s as i64
    }
}

/// The magnitude of a signed value, fitting in a `u64` even for `i64::MIN`.
fn magnitude(a: i64) -> (m: u64)
    ensures
        m == mag(a as int),
{
    if a >= 0 {
        a as u64
    } else {
        (-(a as i128)) as u64
    }
}

/// A product's magnitude is the product of the magnitudes.
proof fn lemma_mag_mul(a: int, b: int)
    ensures
        mag(a * b) == mag(a) * mag(b),
{
    if a >= 0 && b >= 0 {
        lemma_mul_nonnegative(a, b);
    } else if a >= 0 && b < 0 {
        lemma_mul_nonnegative(a, -b);
        lemma_mul_unary_negation(a, b);
        assert(a * b == -(a * (-b)));
    } else if a < 0 && b >= 0 {
        lemma_mul_nonnegative(-a, b);
        lemma_mul_unary_negation(a, b);
        assert(a * b == -((-a) * b));
    } else {
        lemma_mul_nonnegative(-a, -b);
        lemma_mul_unary_negation(a, -b);
        lemma_mul_unary_negation(-a, b);
        assert(a * b == (-a) * (-b));
    }
}

/// Exact saturating, truncating multiplication.
pub fn fx_mul(a: i64, b: i64) -> (r: i64)
    ensures
        r == fmul(a as int, b as int),
{
    let neg = (a < 0) != (b < 0);
    let ma = magnitude(a);
    let mb = magnitude(b);
    proof {
        lemma_mul_upper_bound(ma as int, 0x8000_0000_0000_0000, mb as int, 0x8000_0000_0000_0000);
    }
    let p: u128 = ma as u128 * mb as u128;
    let q: u128 = p / (SCALE as u128);
    proof {
        lemma_mag_mul(a as int, b as int);
        if !neg {
            if a >= 0 && b >= 0 {
                lemma_mul_nonnegative(a as int, b as int);
            } else {
                lemma_mul_nonnegative(-(a as int), -(b as int));
                lemma_mul_unary_negation(a as int, -(b as int));
                lemma_mul_unary_negation(-(a as int), b as int);
                assert(a as int * b as int == (-(a as int)) * (-(b as int)));
            }
            assert(a as int * b as int >= 0);
        } else {
            if a >= 0 {
                lemma_mul_nonnegative(a as int, -(b as int));
                lemma_mul_unary_negation(a as int, b as int);
                assert(a as int * b as int == -((a as int) * (-(b as int))));
            } else {
                lemma_mul_nonnegative(-(a as int), b as int);
                lemma_mul_unary_negation(a as int, b as int);
                assert(a as int * b as int == -((-(a as int)) * (b as int)));
            }
            assert(a as int * b as int <= 0);
        }
    }
    if !neg {
        if q > i64::MAX as u128 {
            i64::MAX
        } else {
            q as i64
        }
    } else {
        if q >= 0x8000_0000_0000_0000u128 {
            i64::MIN
        } else {
            -(q as i64)
        }
    }
}

/// Exact saturating, truncating division; division by zero saturates by
/// the dividend's sign.
pub fn fx_div(a: i64, b: i64) -> (r: i64)
    ensures
        r == fdiv(a as int, b as int),
{
    if b == 0 {
        if a > 0 {
            i64::MAX
        } else if a < 0 {
            i64::MIN
        } else {
            0
        }
    } else {
        let neg = (a < 0) != (b < 0);
        let ma = magnitude(a);
        let mb = magnitude(b);
        proof {
            lemma_mul_upper_bound(ma as int, 0x8000_0000_0000_0000, SCALE as int, SCALE as int);
        }
        let p: u128 = ma as u128 * SCALE as u128;
        let q: u128 = p / (mb as u128);
        proof {
            lemma_mag_mul(a as int, SCALE as int);
            if !neg {
                if a >= 0 && b > 0 {
                    lemma_mul_nonnegative(a as int, SCALE as int);
                } else {
                    lemma_mul_nonnegative(-(a as int), SCALE as int);
                    lemma_mul_unary_negation(a as int, SCALE as int);
                }
            } else {
                if a >= 0 {
                    lemma_mul_nonnegative(a as int, SCALE as int);
                } else {
                    lemma_mul_nonnegative(-(a as int), SCALE as int);
                    lemma_mul_unary_negation(a as int, SCALE as int);
                }
            }
        }
        if !neg {
            if q > i64::MAX as u128 {
                i64::MAX
            } else {
                q as i64
            }
        } else {
            if q >= 0x8000_0000_0000_0000u128 {
                i64::MIN
            } else {
                -(q as i64)
            }
        }
    }
}

/// Widen a whole number of units into a fixed-point scalar.
pub fn fx_from_int(v: i64) -> (r: i64)
    ensures
        r == clip(v * SCALE),
{
    proof {
        assert(i128::MIN <= (v as int) * (SCALE as int) <= i128::MAX) by (nonlinear_arith)
            requires
                i64::MIN <= v as int <= i64::MAX,
                SCALE == 1_000_000,
        ;
    }
    let p: i128 = v as i128 * SCALE as i128;
    if p > i64::MAX as i128 {
        i64::MAX
    } else if p < i64::MIN as i128 {
        i64::MIN
    } else {
        p as i64
    }
}

/// Truncating division is monotone in the dividend.
pub proof fn lemma_tdiv_monotone(p1: int, p2: int, q: int)
    requires
        p1 <= p2,
        q > 0,
    ensures
        tdiv(p1, q) <= tdiv(p2, q),
{
    if p1 >= 0 {
        lemma_div_is_ordered(p1, p2, q);
    } else if p2 >= 0 {
        lemma_div_pos_is_pos(-p1, q);
        lemma_div_pos_is_pos(p2, q);
    } else {
        lemma_div_is_ordered(-p2, -p1, q);
    }
}

/// Fixed-point division by a non-negative divisor is monotone in the
/// dividend.
pub proof fn lemma_fdiv_monotone(n1: int, n2: int, b: int)
    requires
        n1 <= n2,
        b >= 0,
    ensures
        fdiv(n1, b) <= fdiv(n2, b),
{
    if b > 0 {
        lemma_mul_inequality(n1, n2, SCALE as int);
        lemma_tdiv_monotone(n1 * SCALE, n2 * SCALE, b);
    }
}

/// Scaling up by the grid unit and truncating back down is the
/// identity.
pub proof fn lemma_tdiv_by_scale(a: int)
    ensures
        tdiv(a * (SCALE as int), SCALE as int) == a,
{
    let s = SCALE as int;
    lemma_mag_mul(a, s);
    if a >= 0 {
        lemma_mul_nonnegative(a, s);
        lemma_div_multiples_vanish(a, s);
        lemma_mul_is_commutative(a, s);
    } else {
        lemma_mul_inequality(a, -1, s);
        lemma_mul_nonnegative(-a, s);
        lemma_div_multiples_vanish(-a, s);
        lemma_mul_is_commutative(-a, s);
    }
}

/// Multiplying by a fixed-point one is the identity on representable
/// scalars.
pub proof fn lemma_fmul_one(a: int)
    requires
        fx_lo() <= a <= fx_hi(),
    ensures
        fmul(a, ONE as int) == a,
        fmul(ONE as int, a) == a,
{
    lemma_tdiv_by_scale(a);
    lemma_mul_is_commutative(ONE as int, a);
}

/// Multiplying by a fixed-point minus one is saturating negation.
pub proof fn lemma_fmul_neg_one(a: int)
    ensures
        fmul(a, -(ONE as int)) == fneg(a),
        fmul(-(ONE as int), a) == fneg(a),
{
    let s = SCALE as int;
    lemma_mul_unary_negation(a, s);
    lemma_mul_is_commutative(-(ONE as int), a);
    lemma_tdiv_by_scale(-a);
    assert(a * (-s) == (-a) * s) by (nonlinear_arith);
}

/// Dividing by a fixed-point one is the identity on representable
/// scalars.
pub proof fn lemma_fdiv_one(a: int)
    requires
        fx_lo() <= a <= fx_hi(),
    ensures
        fdiv(a, ONE as int) == a,
{
    lemma_tdiv_by_scale(a);
}

/// Multiplying by a fixed-point zero gives zero.
pub proof fn lemma_fmul_zero(a: int)
    ensures
        fmul(a, 0) == 0,
        fmul(0, a) == 0,
{
    lemma_mul_by_zero_is_zero(a);
    lemma_div_of0(SCALE as int);
}

/// Adding a fixed-point zero changes nothing representable.
pub proof fn lemma_fadd_zero(a: int)
    requires
        fx_lo() <= a <= fx_hi(),
    ensures
        fadd(a, 0) == a,
        fadd(0, a) == a,
{
}

/// On non-negative operands whose product stays representable, the
/// fixed-point product is the plain scaled quotient.
pub proof fn lemma_fmul_nonneg_exact(a: int, b: int)
    requires
        a >= 0,
        b >= 0,
        (a * b) / (SCALE as int) <= fx_hi(),
    ensures
        fmul(a, b) == (a * b) / (SCALE as int),
{
    lemma_mul_nonnegative(a, b);
    lemma_div_pos_is_pos(a * b, SCALE as int);
}

/// A fixed-point square is never negative.
pub proof fn lemma_fmul_square_nonneg(a: int)
    ensures
        fmul(a, a) >= 0,
{
    assert(a * a >= 0) by (nonlinear_arith);
    lemma_div_pos_is_pos(mag(a * a), SCALE as int);
}

/// A whole count of units as a fixed-point scalar.
pub open spec fn from_count(v: int) -> int {
    clip(v * SCALE)
}

/// Widen a whole number of units into a fixed-point scalar, saturating
/// at the top the way every other operation does.
pub fn fx_from_usize(v: usize) -> (r: i64)
    ensures
        r == from_count(v as int),
{
    proof {
        lemma_mul_nonnegative(v as int, SCALE as int);
        lemma_mul_upper_bound(v as int, u64::MAX as int, SCALE as int, SCALE as int);
    }
    let p: u128 = v as u128 * SCALE as u128;
    if p > i64::MAX as u128 {
        i64::MAX
    } else {
        p as i64
    }
}

/// The integer square root, defined from below.
pub open spec fn isqrt(n: nat) -> nat
    decreases n,
{
    if n == 0 {
        0
    } else {
        let r = isqrt((n - 1) as nat);
        if (r + 1) * (r + 1) <= n {
            r + 1
        } else {
            r
        }
    }
}

/// `isqrt(n)` is the floor of the square root of `n`.
pub proof fn lemma_isqrt_bounds(n: nat)
    ensures
        isqrt(n) * isqrt(n) <= n,
        n < (isqrt(n) + 1) * (isqrt(n) + 1),
    decreases n,
{
    if n == 0 {
        assert(isqrt(0) == 0);
        assert((isqrt(n) + 1) * (isqrt(n) + 1) == 1) by (nonlinear_arith)
            requires
                isqrt(n) == 0,
        ;
    } else {
        lemma_isqrt_bounds((n - 1) as nat);
        let r = isqrt((n - 1) as nat);
        assert(isqrt(n) == if (r + 1) * (r + 1) <= n {
            r + 1
        } else {
            r
        });
        if (r + 1) * (r + 1) <= n {
            assert((r + 1) * (r + 1) < (r + 2) * (r + 2)) by (nonlinear_arith)
                requires
                    r >= 0,
            ;
            assert(n < (isqrt(n) + 1) * (isqrt(n) + 1));
        } else {
            assert(n < (isqrt(n) + 1) * (isqrt(n) + 1));
        }
    }
}

/// Any value bracketed by consecutive squares is the integer square root.
pub proof fn lemma_isqrt_unique(n: nat, r: nat)
    requires
        r * r <= n,
        n < (r + 1) * (r + 1),
    ensures
        r == isqrt(n),
{
    let s = isqrt(n);
    lemma_isqrt_bounds(n);
    if r < s {
        assert((r + 1) * (r + 1) <= s * s) by (nonlinear_arith)
            requires
                0 <= r,
                r + 1 <= s,
        ;
    }
    if s < r {
        assert((s + 1) * (s + 1) <= r * r) by (nonlinear_arith)
            requires
                0 <= s,
                s + 1 <= r,
        ;
    }
}

/// Model of the fixed-point square root: the scaled root, rounded down.
pub open spec fn fsqrt(x: int) -> int
    recommends
        x >= 0,
{
    isqrt((x * SCALE) as nat) as int
}

/// Exact fixed-point square root of a non-negative scalar, by bisection.
pub fn fx_sqrt(x: i64) -> (r: i64)
    requires
        x >= 0,
    ensures
        r == fsqrt(x as int),
        r >= 0,
{
    proof {
        lemma_mul_upper_bound(x as int, i64::MAX as int, SCALE as int, SCALE as int);
    }
    let n: u128 = x as u128 * SCALE as u128;
    let mut lo: u64 = 0;
    let mut hi: u64 = 0x400_0000_0000;
    proof {
        lemma_mul_nonnegative(x as int, SCALE as int);
        assert((0x400_0000_0000 as int) * (0x400_0000_0000 as int) == 0x10_0000_0000_0000_0000_0000) by (nonlinear_arith);
        assert(n < (hi as int) * (hi as int));
    }
    while lo + 1 < hi
        invariant
            lo < hi,
            hi <= 0x400_0000_0000,
            (lo as int) * (lo as int) <= n,
            n < (hi as int) * (hi as int),
        decreases hi - lo,
    {
        let mid = lo + (hi - lo) / 2;
        proof {
            lemma_mul_upper_bound(mid as int, 0x400_0000_0000, mid as int, 0x400_0000_0000);
        }
        let m2: u128 = mid as u128 * mid as u128;
        if m2 <= n {
            lo = mid;
        } else {
            hi = mid;
        }
    }
    proof {
        lemma_isqrt_unique(n as nat, lo as nat);
    }
    lo as i64
}

} // verus!
