//! The sphere primitive and its ray-intersection query.
//!
//! Substituting the ray parametrization into the sphere's implicit
//! equation gives a quadratic in the travelled distance t; the query
//! prefers the near root and falls back to the far root, accepting the
//! first that lies strictly inside the distance window.

use crate::fixed::{
    fadd,
    fdiv,
    fmul,
    fneg,
    fsqrt,
    fsub,
    fx_add,
    fx_div,
    fx_mul,
    fx_neg,
    fx_sqrt,
    fx_sub,
    lemma_fdiv_monotone,
    lemma_fdiv_one,
    lemma_fmul_neg_one,
    lemma_fmul_nonneg_exact,
    lemma_fmul_one,
    lemma_fmul_zero,
    lemma_isqrt_unique,
    ONE,
    SCALE,
};
use vstd::arithmetic::div_mod::lemma_div_is_ordered;
use crate::material::SurfaceMaterial;
use crate::ray::{spec_point_at, Ray};
use crate::renderable::{IntersectionRecord, Renderable};
use crate::vector::{lemma_dot3_self_nonneg, spec_div, spec_dot3, spec_sub, Vector4};
use vstd::prelude::*;

verus! {

/// A sphere, its surface material included.
#[derive(Clone, Copy, PartialEq, Eq, Structural, Debug)]
pub struct Sphere {
    pub center: Vector4,
    pub radius: i64,
    pub material: SurfaceMaterial,
}

impl Sphere {
    /// Assemble a sphere from center, radius and material.
    pub fn new(center: Vector4, radius: i64, material: SurfaceMaterial) -> (r: Sphere)
        ensures
            r == (Sphere { center, radius, material }),
    {
        Sphere { center, radius, material }
    }

    /// The quadratic's leading coefficient: the direction dotted with
    /// itself.
    pub open spec fn spec_qa(self, ray: Ray) -> int {
        spec_dot3(ray.direction, ray.direction)
    }

    /// The quadratic's half middle coefficient.
    pub open spec fn spec_qb(self, ray: Ray) -> int {
        spec_dot3(spec_sub(ray.origin, self.center), ray.direction)
    }

    /// The quadratic's constant coefficient.
    pub open spec fn spec_qc(self, ray: Ray) -> int {
        let o_minus_c = spec_sub(ray.origin, self.center);
        fsub(spec_dot3(o_minus_c, o_minus_c), fmul(self.radius as int, self.radius as int))
    }

    /// The discriminant deciding whether the ray meets the sphere.
    pub open spec fn spec_discriminant(self, ray: Ray) -> int {
        fsub(fmul(self.spec_qb(ray), self.spec_qb(ray)), fmul(self.spec_qa(ray), self.spec_qc(ray)))
    }

    /// The near root of the quadratic.
    pub open spec fn spec_near_root(self, ray: Ray) -> int {
        fdiv(fsub(fneg(self.spec_qb(ray)), fsqrt(self.spec_discriminant(ray))), self.spec_qa(ray))
    }

    /// The far root of the quadratic.
    pub open spec fn spec_far_root(self, ray: Ray) -> int {
        fdiv(fadd(fneg(self.spec_qb(ray)), fsqrt(self.spec_discriminant(ray))), self.spec_qa(ray))
    }

    /// The record of a hit at distance `t`: the reached point, the
    /// outward unit normal and the surface's material.
    pub open spec fn spec_record(self, ray: Ray, t: int) -> IntersectionRecord {
        let point = spec_point_at(ray, t);
        IntersectionRecord {
            distance: t as i64,
            intersection_point: point,
            normal: spec_div(spec_sub(point, self.center), self.radius as int),
            material: self.material,
        }
    }
}

impl Renderable for Sphere {
    open spec fn spec_intersects(&self, ray: Ray, distance_min: i64, distance_max: i64) -> Option<
        IntersectionRecord,
    > {
        if self.spec_discriminant(ray) > 0 {
            let near = self.spec_near_root(ray);
            let far = self.spec_far_root(ray);
            if distance_min < near < distance_max {
                Some(self.spec_record(ray, near))
            } else if distance_min < far < distance_max {
                Some(self.spec_record(ray, far))
            } else {
                None
            }
        } else {
            None
        }
    }

    fn intersects(&self, ray: &Ray, distance_min: i64, distance_max: i64) -> (r: Option<
        IntersectionRecord,
    >) {
        let o_minus_c = ray.origin().sub(self.center);

        let qa = ray.direction().dot3(ray.direction());
        let qb = o_minus_c.dot3(ray.direction());
        let qc = fx_sub(o_minus_c.dot3(o_minus_c), fx_mul(self.radius, self.radius));

        let discriminant = fx_sub(fx_mul(qb, qb), fx_mul(qa, qc));

        if discriminant > 0 {
            let sqrt_discriminant = fx_sqrt(discriminant);
            let distance = fx_div(fx_sub(fx_neg(qb), sqrt_discriminant), qa);

            if distance < distance_max && distance > distance_min {
                let intersection_point = ray.point_at_distance(distance);
                return Some(
                    IntersectionRecord::new(
                        distance,
                        intersection_point,
                        intersection_point.sub(self.center).div(self.radius),
                        self.material,
                    ),
                );
            }

            let distance = fx_div(fx_add(fx_neg(qb), sqrt_discriminant), qa);
            if distance < distance_max && distance > distance_min {
                let intersection_point = ray.point_at_distance(distance);
                return Some(
                    IntersectionRecord::new(
                        distance,
                        intersection_point,
                        intersection_point.sub(self.center).div(self.radius),
                        self.material,
                    ),
                );
            }
        }

        None
    }
}

/// The coefficients a head-on query computes when the sphere's center
/// lies `k` straight down the viewing axis: the leading coefficient is
/// one, the half middle coefficient is the negated center distance,
/// and the discriminant collapses to the truncated squared radius.
proof fn lemma_axis_quadratic(
    origin: Vector4,
    center: Vector4,
    j: i64,
    k: i64,
    r: i64,
    material: SurfaceMaterial,
)
    requires
        center.x == origin.x - j,
        center.y == origin.y,
        center.z == origin.z - k,
        center.w == origin.w,
        0 <= j <= 1_000_000_000_000,
        0 <= k <= 1_000_000_000_000,
        0 <= r <= 1_000_000_000_000,
    ensures
        ({
            let sphere = Sphere { center, radius: r, material };
            let ray = Ray { origin, direction: Vector4 { x: 0i64, y: 0i64, z: -1_000_000i64, w: 0i64 } };
            &&& sphere.spec_qa(ray) == ONE
            &&& sphere.spec_qb(ray) == -(k as int)
            &&& sphere.spec_qc(ray) == fmul(j as int, j as int) + fmul(k as int, k as int) - fmul(
                r as int,
                r as int,
            )
            &&& fmul(j as int, j as int) == (j as int) * (j as int) / (SCALE as int)
            &&& fmul(k as int, k as int) == (k as int) * (k as int) / (SCALE as int)
            &&& fmul(r as int, r as int) == (r as int) * (r as int) / (SCALE as int)
        }),
{
    lemma_fmul_zero(0);
    lemma_fmul_zero(j as int);
    lemma_fmul_neg_one(k as int);
    lemma_fmul_neg_one(-(ONE as int));
    let ji = j as int;
    let ki = k as int;
    let ri = r as int;
    assert(ji * ji <= 1_000_000_000_000_000_000_000_000 && ki * ki
        <= 1_000_000_000_000_000_000_000_000 && ri * ri <= 1_000_000_000_000_000_000_000_000)
        by (nonlinear_arith)
        requires
            0 <= ji <= 1_000_000_000_000,
            0 <= ki <= 1_000_000_000_000,
            0 <= ri <= 1_000_000_000_000,
    ;
    assert(1_000_000_000_000_000_000_000_000int / 1_000_000 == 1_000_000_000_000_000_000)
        by (nonlinear_arith);
    lemma_div_is_ordered(ji * ji, 1_000_000_000_000_000_000_000_000, SCALE as int);
    lemma_div_is_ordered(ki * ki, 1_000_000_000_000_000_000_000_000, SCALE as int);
    lemma_div_is_ordered(ri * ri, 1_000_000_000_000_000_000_000_000, SCALE as int);
    lemma_fmul_nonneg_exact(ji, ji);
    lemma_fmul_nonneg_exact(ki, ki);
    lemma_fmul_nonneg_exact(ri, ri);
}

/// The exact half of the head-on property: a ray cast down the viewing
/// axis at a sphere centered straight ahead, whose squared radius lies
/// on the fixed-point grid, hits at exactly the center distance minus
/// the radius.  Off the grid the truncated root lands one step below;
/// the requires clause keeps those inputs out.
pub proof fn lemma_head_on_hit_distance(
    origin: Vector4,
    center: Vector4,
    k: i64,
    r: i64,
    material: SurfaceMaterial,
    distance_min: i64,
    distance_max: i64,
)
    requires
        center.x == origin.x,
        center.y == origin.y,
        center.z == origin.z - k,
        center.w == origin.w,
        1_000 <= r,
        r < k <= 1_000_000_000_000,
        (r as int) * (r as int) % (SCALE as int) == 0,
        distance_min < k - r < distance_max,
    ensures
        ({
            let sphere = Sphere { center, radius: r, material };
            let ray = Ray { origin, direction: Vector4 { x: 0i64, y: 0i64, z: -1_000_000i64, w: 0i64 } };
            &&& sphere.spec_intersects(ray, distance_min, distance_max) == Some(
                sphere.spec_record(ray, k - r),
            )
            &&& sphere.spec_record(ray, k - r).distance == k - r
        }),
{
    let sphere = Sphere { center, radius: r, material };
    let ray = Ray { origin, direction: Vector4 { x: 0i64, y: 0i64, z: -1_000_000i64, w: 0i64 } };
    lemma_axis_quadratic(origin, center, 0, k, r, material);
    let ki = k as int;
    let ri = r as int;
    let k2 = ki * ki / (SCALE as int);
    let r2 = ri * ri / (SCALE as int);

    // The discriminant collapses to the truncated squared radius.
    assert((-ki) * (-ki) == ki * ki) by (nonlinear_arith);
    assert(ri * ri <= ki * ki) by (nonlinear_arith)
        requires
            0 <= ri < ki,
    ;
    lemma_div_is_ordered(ri * ri, ki * ki, SCALE as int);
    lemma_fmul_one(k2 - r2);
    assert(sphere.spec_discriminant(ray) == r2);

    // The squared radius sits on the grid, so its root is exact.
    assert(1_000_000int <= ri * ri) by (nonlinear_arith)
        requires
            1_000 <= ri,
    ;
    assert(1_000_000int / 1_000_000 == 1) by (nonlinear_arith);
    lemma_div_is_ordered(1_000_000, ri * ri, SCALE as int);
    assert(r2 >= 1);
    vstd::arithmetic::div_mod::lemma_fundamental_div_mod(ri * ri, SCALE as int);
    assert(r2 * (SCALE as int) == ri * ri) by (nonlinear_arith)
        requires
            ri * ri == (SCALE as int) * r2,
    ;
    assert(ri * ri < (ri + 1) * (ri + 1)) by (nonlinear_arith)
        requires
            ri >= 0,
    ;
    lemma_isqrt_unique((ri * ri) as nat, r as nat);
    assert(fsqrt(r2) == ri);

    // The near root is the plain difference, and it lies in the window.
    lemma_fdiv_one(ki - ri);
    assert(sphere.spec_near_root(ray) == ki - ri);
}

/// The exact half of the miss property: a perpendicular offset at or
/// beyond the radius leaves the discriminant without a positive part,
/// so the query returns none, whatever the distance window.
pub proof fn lemma_perpendicular_offset_misses(
    origin: Vector4,
    center: Vector4,
    j: i64,
    k: i64,
    r: i64,
    material: SurfaceMaterial,
    distance_min: i64,
    distance_max: i64,
)
    requires
        center.x == origin.x - j,
        center.y == origin.y,
        center.z == origin.z - k,
        center.w == origin.w,
        0 <= r <= j <= 1_000_000_000_000,
        0 <= k <= 1_000_000_000_000,
    ensures
        ({
            let sphere = Sphere { center, radius: r, material };
            let ray = Ray { origin, direction: Vector4 { x: 0i64, y: 0i64, z: -1_000_000i64, w: 0i64 } };
            sphere.spec_intersects(ray, distance_min, distance_max) is None
        }),
{
    let sphere = Sphere { center, radius: r, material };
    let ray = Ray { origin, direction: Vector4 { x: 0i64, y: 0i64, z: -1_000_000i64, w: 0i64 } };
    lemma_axis_quadratic(origin, center, j, k, r, material);
    let ji = j as int;
    let ki = k as int;
    let ri = r as int;
    let j2 = ji * ji / (SCALE as int);
    let k2 = ki * ki / (SCALE as int);
    let r2 = ri * ri / (SCALE as int);

    assert((-ki) * (-ki) == ki * ki) by (nonlinear_arith);
    assert(ri * ri <= ji * ji) by (nonlinear_arith)
        requires
            0 <= ri <= ji,
    ;
    lemma_div_is_ordered(ri * ri, ji * ji, SCALE as int);
    lemma_fmul_one(j2 + k2 - r2);
    assert(sphere.spec_discriminant(ray) == r2 - j2);
    assert(sphere.spec_discriminant(ray) <= 0);
}

/// What any sphere hit carries: a distance strictly inside the window,
/// the point the ray reaches at that distance, and the outward normal
/// scaled by the inverse radius.
pub proof fn lemma_sphere_hit_shape(s: Sphere, ray: Ray, distance_min: i64, distance_max: i64)
    ensures
        s.spec_intersects(ray, distance_min, distance_max) matches Some(h) ==> {
            &&& distance_min < h.distance < distance_max
            &&& h.intersection_point == spec_point_at(ray, h.distance as int)
            &&& h.normal == spec_div(spec_sub(h.intersection_point, s.center), s.radius as int)
            &&& h.material == s.material
            &&& (h.distance == s.spec_near_root(ray) || h.distance == s.spec_far_root(ray))
        },
{
}

/// The near root never lies beyond the far root.
pub proof fn lemma_sphere_roots_ordered(s: Sphere, ray: Ray)
    ensures
        s.spec_near_root(ray) <= s.spec_far_root(ray),
{
    lemma_dot3_self_nonneg(ray.direction);
    let qb = s.spec_qb(ray);
    let root = fsqrt(s.spec_discriminant(ray));
    lemma_fdiv_monotone(fsub(fneg(qb), root), fadd(fneg(qb), root), s.spec_qa(ray));
}

/// Widening the window keeps an existing hit, and a miss of the wide
/// window is a miss of every narrower one.
pub proof fn lemma_sphere_window_widen(
    s: Sphere,
    ray: Ray,
    distance_min: i64,
    small_max: i64,
    big_max: i64,
)
    requires
        small_max <= big_max,
    ensures
        s.spec_intersects(ray, distance_min, small_max) matches Some(h) ==> s.spec_intersects(
            ray,
            distance_min,
            big_max,
        ) == Some(h),
        s.spec_intersects(ray, distance_min, big_max) is None ==> s.spec_intersects(
            ray,
            distance_min,
            small_max,
        ) is None,
{
    lemma_sphere_roots_ordered(s, ray);
}

/// Shrinking the window down to anything still beyond the hit keeps
/// the hit.
pub proof fn lemma_sphere_window_shrink(
    s: Sphere,
    ray: Ray,
    distance_min: i64,
    small_max: i64,
    big_max: i64,
)
    requires
        small_max <= big_max,
    ensures
        s.spec_intersects(ray, distance_min, big_max) matches Some(h) ==> (h.distance < small_max
            ==> s.spec_intersects(ray, distance_min, small_max) == Some(h)),
{
    lemma_sphere_roots_ordered(s, ray);
}

} // verus!
