//! A four-dimensional homogeneous vector over fixed-point scalars.
//!
//! The fourth component is kept at zero by the three-dimensional
//! constructors; points, directions and colours all share this type.
//! Every operation has an exact contract over a spec-level mirror.

use crate::fixed::{
    fadd,
    fdiv,
    fmul,
    fneg,
    fsqrt,
    fsub,
    fx_add,
    fx_div,
    fx_mul,
    fx_neg,
    fx_sqrt,
    fx_sub,
    lemma_fmul_square_nonneg,
    ONE,
};
use vstd::prelude::*;

verus! {

/// Fixed-point representation of 2.0, the doubling factor in `reflect`.
pub const TWO: i64 = 2_000_000;

/// A 4-component vector of fixed-point scalars.
#[derive(Clone, Copy, PartialEq, Eq, Structural, Debug)]
pub struct Vector4 {
    pub x: i64,
    pub y: i64,
    pub z: i64,
    pub w: i64,
}

/// Componentwise saturating sum.
pub open spec fn spec_add(a: Vector4, b: Vector4) -> Vector4 {
    Vector4 {
        x: fadd(a.x as int, b.x as int) as i64,
        y: fadd(a.y as int, b.y as int) as i64,
        z: fadd(a.z as int, b.z as int) as i64,
        w: fadd(a.w as int, b.w as int) as i64,
    }
}

/// Componentwise saturating difference.
pub open spec fn spec_sub(a: Vector4, b: Vector4) -> Vector4 {
    Vector4 {
        x: fsub(a.x as int, b.x as int) as i64,
        y: fsub(a.y as int, b.y as int) as i64,
        z: fsub(a.z as int, b.z as int) as i64,
        w: fsub(a.w as int, b.w as int) as i64,
    }
}

/// Componentwise saturating product.
pub open spec fn spec_mul(a: Vector4, b: Vector4) -> Vector4 {
    Vector4 {
        x: fmul(a.x as int, b.x as int) as i64,
        y: fmul(a.y as int, b.y as int) as i64,
        z: fmul(a.z as int, b.z as int) as i64,
        w: fmul(a.w as int, b.w as int) as i64,
    }
}

/// Every component scaled by one fixed-point factor.
pub open spec fn spec_scale(a: Vector4, k: int) -> Vector4 {
    Vector4 {
        x: fmul(a.x as int, k) as i64,
        y: fmul(a.y as int, k) as i64,
        z: fmul(a.z as int, k) as i64,
        w: fmul(a.w as int, k) as i64,
    }
}

/// One scalar added to every component.
pub open spec fn spec_add_s(a: Vector4, k: int) -> Vector4 {
    Vector4 {
        x: fadd(a.x as int, k) as i64,
        y: fadd(a.y as int, k) as i64,
        z: fadd(a.z as int, k) as i64,
        w: fadd(a.w as int, k) as i64,
    }
}

/// One scalar subtracted from every component.
pub open spec fn spec_sub_s(a: Vector4, k: int) -> Vector4 {
    Vector4 {
        x: fsub(a.x as int, k) as i64,
        y: fsub(a.y as int, k) as i64,
        z: fsub(a.z as int, k) as i64,
        w: fsub(a.w as int, k) as i64,
    }
}

/// Componentwise negation.
pub open spec fn spec_neg(a: Vector4) -> Vector4 {
    Vector4 {
        x: fneg(a.x as int) as i64,
        y: fneg(a.y as int) as i64,
        z: fneg(a.z as int) as i64,
        w: fneg(a.w as int) as i64,
    }
}

/// Scalar division, carried out as a product with the reciprocal.
pub open spec fn spec_div(a: Vector4, k: int) -> Vector4 {
    spec_scale(a, fdiv(ONE as int, k))
}

/// The three-dimensional dot product.
pub open spec fn spec_dot3(a: Vector4, b: Vector4) -> int {
    fadd(
        fadd(fmul(a.x as int, b.x as int), fmul(a.y as int, b.y as int)),
        fmul(a.z as int, b.z as int),
    )
}

/// The four-dimensional dot product.
pub open spec fn spec_dot4(a: Vector4, b: Vector4) -> int {
    fadd(fmul(a.w as int, b.w as int), spec_dot3(a, b))
}

/// The squared length over all four components.
pub open spec fn spec_len_sq(a: Vector4) -> int {
    fadd(
        fadd(
            fadd(fmul(a.x as int, a.x as int), fmul(a.y as int, a.y as int)),
            fmul(a.z as int, a.z as int),
        ),
        fmul(a.w as int, a.w as int),
    )
}

/// The length: square root of the squared length.
pub open spec fn spec_length(a: Vector4) -> int {
    fsqrt(spec_len_sq(a))
}

/// The vector scaled down to length one (to the fixed-point grid).
pub open spec fn spec_unit(a: Vector4) -> Vector4 {
    spec_div(a, spec_length(a))
}

/// The three-dimensional cross product.
pub open spec fn spec_cross(a: Vector4, b: Vector4) -> Vector4 {
    Vector4 {
        x: fsub(fmul(a.y as int, b.z as int), fmul(a.z as int, b.y as int)) as i64,
        y: fsub(fmul(a.z as int, b.x as int), fmul(a.x as int, b.z as int)) as i64,
        z: fsub(fmul(a.x as int, b.y as int), fmul(a.y as int, b.x as int)) as i64,
        w: 0,
    }
}

/// Mirror reflection about a surface normal.
pub open spec fn spec_reflect(a: Vector4, normal: Vector4) -> Vector4 {
    spec_sub(a, spec_scale(normal, fmul(TWO as int, spec_dot3(a, normal))))
}

/// The dot product of a vector with itself is never negative.
pub proof fn lemma_dot3_self_nonneg(a: Vector4)
    ensures
        spec_dot3(a, a) >= 0,
{
    lemma_fmul_square_nonneg(a.x as int);
    lemma_fmul_square_nonneg(a.y as int);
    lemma_fmul_square_nonneg(a.z as int);
}

/// A squared length is never negative.
pub proof fn lemma_len_sq_nonneg(a: Vector4)
    ensures
        spec_len_sq(a) >= 0,
{
    lemma_fmul_square_nonneg(a.x as int);
    lemma_fmul_square_nonneg(a.y as int);
    lemma_fmul_square_nonneg(a.z as int);
    lemma_fmul_square_nonneg(a.w as int);
}

impl Vector4 {
    /// Create a new 4D vector.
    pub fn new(x: i64, y: i64, z: i64, w: i64) -> (r: Vector4)
        ensures
            r == (Vector4 { x, y, z, w }),
    {
        Vector4 { x, y, z, w }
    }

    /// Create a 3D vector (4D with zeroed `w` component).
    pub fn new3(x: i64, y: i64, z: i64) -> (r: Vector4)
        ensures
            r == (Vector4 { x, y, z, w: 0i64 }),
    {
        Vector4 { x, y, z, w: 0 }
    }

    /// The 3D dot product of two 4D vectors.
    pub fn dot3(self, rhs: Vector4) -> (r: i64)
        ensures
            r == spec_dot3(self, rhs),
    {
        fx_add(fx_add(fx_mul(self.x, rhs.x), fx_mul(self.y, rhs.y)), fx_mul(self.z, rhs.z))
    }

    /// The 4D dot product.
    pub fn dot4(self, rhs: Vector4) -> (r: i64)
        ensures
            r == spec_dot4(self, rhs),
    {
        fx_add(fx_mul(self.w, rhs.w), self.dot3(rhs))
    }

    /// The 3D cross product of two 4D vectors.
    pub fn cross(self, rhs: Vector4) -> (r: Vector4)
        ensures
            r == spec_cross(self, rhs),
    {
        Vector4::new3(
            fx_sub(fx_mul(self.y, rhs.z), fx_mul(self.z, rhs.y)),
            fx_sub(fx_mul(self.z, rhs.x), fx_mul(self.x, rhs.z)),
            fx_sub(fx_mul(self.x, rhs.y), fx_mul(self.y, rhs.x)),
        )
    }

    /// The squared length over all four components.
    pub fn length_squared(&self) -> (r: i64)
        ensures
            r == spec_len_sq(*self),
    {
        fx_add(
            fx_add(
                fx_add(fx_mul(self.x, self.x), fx_mul(self.y, self.y)),
                fx_mul(self.z, self.z),
            ),
            fx_mul(self.w, self.w),
        )
    }

    /// The length of the vector.
    pub fn length(&self) -> (r: i64)
        ensures
            r == spec_length(*self),
            r >= 0,
    {
        let ls = self.length_squared();
        proof {
            lemma_len_sq_nonneg(*self);
        }
        fx_sqrt(ls)
    }

    /// The vector scaled to unit length (a zero vector stays zero).
    pub fn unit_vector(self) -> (r: Vector4)
        ensures
            r == spec_unit(self),
    {
        let len = self.length();
        self.div(len)
    }

    /// Mirror reflection about `normal`.
    pub fn reflect(self, normal: Vector4) -> (r: Vector4)
        ensures
            r == spec_reflect(self, normal),
    {
        self.sub(normal.scale(fx_mul(TWO, self.dot3(normal))))
    }

    /// Componentwise sum.
    pub fn add(self, rhs: Vector4) -> (r: Vector4)
        ensures
            r == spec_add(self, rhs),
    {
        Vector4::new(
            fx_add(self.x, rhs.x),
            fx_add(self.y, rhs.y),
            fx_add(self.z, rhs.z),
            fx_add(self.w, rhs.w),
        )
    }

    /// Componentwise sum, in place.
    pub fn add_assign(&mut self, rhs: Vector4)
        ensures
            *final(self) == spec_add(*old(self), rhs),
    {
        self.x = fx_add(self.x, rhs.x);
        self.y = fx_add(self.y, rhs.y);
        self.z = fx_add(self.z, rhs.z);
        self.w = fx_add(self.w, rhs.w);
    }

    /// One scalar added to every component.
    pub fn add_s(self, rhs: i64) -> (r: Vector4)
        ensures
            r == spec_add_s(self, rhs as int),
    {
        Vector4::new(
            fx_add(self.x, rhs),
            fx_add(self.y, rhs),
            fx_add(self.z, rhs),
            fx_add(self.w, rhs),
        )
    }

    /// Componentwise difference.
    pub fn sub(self, rhs: Vector4) -> (r: Vector4)
        ensures
            r == spec_sub(self, rhs),
    {
        Vector4::new(
            fx_sub(self.x, rhs.x),
            fx_sub(self.y, rhs.y),
            fx_sub(self.z, rhs.z),
            fx_sub(self.w, rhs.w),
        )
    }

    /// Componentwise difference, in place.
    pub fn sub_assign(&mut self, rhs: Vector4)
        ensures
            *final(self) == spec_sub(*old(self), rhs),
    {
        self.x = fx_sub(self.x, rhs.x);
        self.y = fx_sub(self.y, rhs.y);
        self.z = fx_sub(self.z, rhs.z);
        self.w = fx_sub(self.w, rhs.w);
    }

    /// One scalar subtracted from every component.
    pub fn sub_s(self, rhs: i64) -> (r: Vector4)
        ensures
            r == spec_sub_s(self, rhs as int),
    {
        Vector4::new(
            fx_sub(self.x, rhs),
            fx_sub(self.y, rhs),
            fx_sub(self.z, rhs),
            fx_sub(self.w, rhs),
        )
    }

    /// One scalar subtracted from every component, in place.
    pub fn sub_s_assign(&mut self, rhs: i64)
        ensures
            *final(self) == spec_sub_s(*old(self), rhs as int),
    {
        self.x = fx_sub(self.x, rhs);
        self.y = fx_sub(self.y, rhs);
        self.z = fx_sub(self.z, rhs);
        self.w = fx_sub(self.w, rhs);
    }

    /// Componentwise product (colour modulation).
    pub fn mul(self, rhs: Vector4) -> (r: Vector4)
        ensures
            r == spec_mul(self, rhs),
    {
        Vector4::new(
            fx_mul(self.x, rhs.x),
            fx_mul(self.y, rhs.y),
            fx_mul(self.z, rhs.z),
            fx_mul(self.w, rhs.w),
        )
    }

    /// Componentwise product, in place.
    pub fn mul_assign(&mut self, rhs: Vector4)
        ensures
            *final(self) == spec_mul(*old(self), rhs),
    {
        self.x = fx_mul(self.x, rhs.x);
        self.y = fx_mul(self.y, rhs.y);
        self.z = fx_mul(self.z, rhs.z);
        self.w = fx_mul(self.w, rhs.w);
    }

    /// Every component scaled by one factor.
    pub fn scale(self, rhs: i64) -> (r: Vector4)
        ensures
            r == spec_scale(self, rhs as int),
    {
        Vector4::new(
            fx_mul(self.x, rhs),
            fx_mul(self.y, rhs),
            fx_mul(self.z, rhs),
            fx_mul(self.w, rhs),
        )
    }

    /// Every component scaled by one factor, in place.
    pub fn scale_assign(&mut self, rhs: i64)
        ensures
            *final(self) == spec_scale(*old(self), rhs as int),
    {
        self.x = fx_mul(self.x, rhs);
        self.y = fx_mul(self.y, rhs);
        self.z = fx_mul(self.z, rhs);
        self.w = fx_mul(self.w, rhs);
    }

    /// Scalar division, carried out as a product with the reciprocal.
    pub fn div(self, rhs: i64) -> (r: Vector4)
        ensures
            r == spec_div(self, rhs as int),
    {
        let recip = fx_div(ONE, rhs);
        self.scale(recip)
    }

    /// Scalar division, in place.
    pub fn div_assign(&mut self, rhs: i64)
        ensures
            *final(self) == spec_div(*old(self), rhs as int),
    {
        let recip = fx_div(ONE, rhs);
        self.x = fx_mul(self.x, recip);
        self.y = fx_mul(self.y, recip);
        self.z = fx_mul(self.z, recip);
        self.w = fx_mul(self.w, recip);
    }

    /// Componentwise negation.
    pub fn neg(self) -> (r: Vector4)
        ensures
            r == spec_neg(self),
    {
        Vector4::new(fx_neg(self.x), fx_neg(self.y), fx_neg(self.z), fx_neg(self.w))
    }
}

} // verus!
