//! Material scattering policies.
//!
//! Each material is a pure one-step policy: given the incoming ray and
//! a hit record it may produce an outgoing ray and an attenuation
//! colour.  Lambertian and dielectric surfaces always continue the
//! path; a metal surface absorbs rays that its fuzz would push below
//! the surface, the single "no scatter" case of the model.

use crate::fixed::{fadd, fdiv, fmul, fsqrt, fsub, fx_add, fx_div, fx_mul, fx_neg, fx_sqrt, fx_sub, lemma_fadd_zero, lemma_fmul_zero, ONE, SCALE};
use crate::ray::Ray;
use crate::renderable::IntersectionRecord;
use crate::sampling::{random_in_unit_sphere, random_unit_scalar};
use crate::vector::{
    spec_add,
    spec_dot3,
    spec_len_sq,
    spec_neg,
    spec_reflect,
    spec_scale,
    spec_sub,
    spec_unit,
    Vector4,
};
use vstd::prelude::*;

verus! {

/// The scattering policy of a surface.
pub trait Material {
    /// Scatter the incoming ray at the recorded hit: an outgoing ray
    /// and an attenuation colour, or absorption.
    fn scatter(&self, ray_in: &Ray, hit_record: &IntersectionRecord) -> (r: Option<
        (Ray, Vector4),
    >)
        ensures
            r matches Some(sa) ==> sa.0.origin == hit_record.intersection_point,
    ;
}

/// Pure white: the attenuation of a clear dielectric.
pub open spec fn spec_white() -> Vector4 {
    Vector4 { x: ONE, y: ONE, z: ONE, w: 0 }
}

/// A diffuse surface with a fixed albedo.
#[derive(Clone, Copy, PartialEq, Eq, Structural, Debug)]
pub struct Lambertian {
    pub albedo: Vector4,
}

impl Lambertian {
    /// A diffuse surface with the given albedo.
    pub fn new(albedo: Vector4) -> (r: Lambertian)
        ensures
            r.albedo == albedo,
    {
        Lambertian { albedo }
    }
}

/// The diffuse bounce direction for the unit-sphere sample `s`.
pub open spec fn spec_lambertian_dir(point: Vector4, normal: Vector4, s: Vector4) -> Vector4 {
    spec_sub(spec_add(spec_add(point, normal), s), point)
}

impl Material for Lambertian {
    fn scatter(&self, ray_in: &Ray, hit_record: &IntersectionRecord) -> (r: Option<
        (Ray, Vector4),
    >)
        ensures
            r is Some,
            r matches Some(sa) ==> {
                &&& sa.1 == self.albedo
                &&& exists|s: Vector4|
                    spec_len_sq(s) < SCALE && sa.0.direction == #[trigger] spec_lambertian_dir(
                        hit_record.intersection_point,
                        hit_record.normal,
                        s,
                    )
            },
    {
        let s = random_in_unit_sphere();
        let target = hit_record.intersection_point.add(hit_record.normal).add(s);
        let direction = target.sub(hit_record.intersection_point);
        proof {
            assert(direction == spec_lambertian_dir(
                hit_record.intersection_point,
                hit_record.normal,
                s,
            ));
        }
        Some((Ray::new(hit_record.intersection_point, direction), self.albedo))
    }
}

/// A specular surface with a fixed albedo and a fuzz radius.
#[derive(Clone, Copy, PartialEq, Eq, Structural, Debug)]
pub struct Metal {
    pub albedo: Vector4,
    pub fuzz: i64,
}

impl Metal {
    /// A specular surface with the given albedo and fuzz radius.
    pub fn new(albedo: Vector4, fuzz: i64) -> (r: Metal)
        ensures
            r.albedo == albedo,
            r.fuzz == fuzz,
    {
        Metal { albedo, fuzz }
    }
}

/// The specular bounce direction for the unit-sphere sample `s`.
pub open spec fn spec_metal_dir(ray_in: Ray, normal: Vector4, fuzz: int, s: Vector4) -> Vector4 {
    spec_add(spec_reflect(spec_unit(ray_in.direction), normal), spec_scale(s, fuzz))
}

/// What a perfectly smooth metal (fuzz zero) does at a hit: the exact
/// mirror direction, absorbed when it points into the surface.
pub open spec fn spec_metal_scatter_smooth(
    m: Metal,
    ray_in: Ray,
    hit_record: IntersectionRecord,
) -> Option<(Ray, Vector4)> {
    let reflected = spec_reflect(spec_unit(ray_in.direction), hit_record.normal);
    if spec_dot3(reflected, hit_record.normal) > 0 {
        Some((Ray { origin: hit_record.intersection_point, direction: reflected }, m.albedo))
    } else {
        None
    }
}

impl Material for Metal {
    fn scatter(&self, ray_in: &Ray, hit_record: &IntersectionRecord) -> (r: Option<
        (Ray, Vector4),
    >)
        ensures
            r matches Some(sa) ==> {
                &&& sa.1 == self.albedo
                &&& spec_dot3(sa.0.direction, hit_record.normal) > 0
                &&& exists|s: Vector4|
                    spec_len_sq(s) < SCALE && sa.0.direction == #[trigger] spec_metal_dir(
                        *ray_in,
                        hit_record.normal,
                        self.fuzz as int,
                        s,
                    )
            },
            r is None ==> exists|s: Vector4|
                spec_len_sq(s) < SCALE && spec_dot3(
                    #[trigger] spec_metal_dir(*ray_in, hit_record.normal, self.fuzz as int, s),
                    hit_record.normal,
                ) <= 0,
            self.fuzz == 0 ==> r == spec_metal_scatter_smooth(*self, *ray_in, *hit_record),
    {
        let reflected = ray_in.direction().unit_vector().reflect(hit_record.normal);
        let s = random_in_unit_sphere();
        let direction = reflected.add(s.scale(self.fuzz));
        proof {
            assert(direction == spec_metal_dir(*ray_in, hit_record.normal, self.fuzz as int, s));
            if self.fuzz == 0 {
                lemma_fmul_zero(s.x as int);
                lemma_fmul_zero(s.y as int);
                lemma_fmul_zero(s.z as int);
                lemma_fmul_zero(s.w as int);
                lemma_fadd_zero(reflected.x as int);
                lemma_fadd_zero(reflected.y as int);
                lemma_fadd_zero(reflected.z as int);
                lemma_fadd_zero(reflected.w as int);
                assert(direction == reflected);
            }
        }
        let scattered = Ray::new(hit_record.intersection_point, direction);
        if scattered.direction().dot3(hit_record.normal) > 0 {
            Some((scattered, self.albedo))
        } else {
            None
        }
    }
}

/// A smooth metal (fuzz zero) mirrors exactly: whenever it scatters at
/// all, the outgoing direction is the reflection of the unit incoming
/// direction about the normal, so the two agree with the normal to the
/// letter.
pub proof fn lemma_metal_smooth_mirror(
    m: Metal,
    ray_in: Ray,
    hit_record: IntersectionRecord,
    scattered: Ray,
    attenuation: Vector4,
)
    requires
        m.fuzz == 0,
        spec_metal_scatter_smooth(m, ray_in, hit_record) == Some((scattered, attenuation)),
    ensures
        scattered.direction == spec_reflect(spec_unit(ray_in.direction), hit_record.normal),
        spec_dot3(scattered.direction, hit_record.normal) == spec_dot3(
            spec_reflect(spec_unit(ray_in.direction), hit_record.normal),
            hit_record.normal,
        ),
        attenuation == m.albedo,
{
}

/// A clear refractive surface with a fixed refractive index.
#[derive(Clone, Copy, PartialEq, Eq, Structural, Debug)]
pub struct Dielectric {
    pub refractive_index: i64,
}

impl Dielectric {
    /// A clear surface with the given refractive index.
    pub fn new(refractive_index: i64) -> (r: Dielectric)
        ensures
            r.refractive_index == refractive_index,
    {
        Dielectric { refractive_index }
    }
}

/// The Snell coefficient deciding whether refraction exists: the
/// squared cosine of the transmitted angle.  Non-positive means total
/// internal reflection.
pub open spec fn spec_snell_coeff(vector_in: Vector4, normal: Vector4, ratio: int) -> int {
    let cos_i = spec_dot3(vector_in, normal);
    fsub(SCALE as int, fmul(fmul(ratio, ratio), fsub(SCALE as int, fmul(cos_i, cos_i))))
}

/// The refracted direction by the vector form of Snell's law, or none
/// on total internal reflection.
pub open spec fn spec_refract(vector_in: Vector4, normal: Vector4, ratio: int) -> Option<
    Vector4,
> {
    let cos_i = spec_dot3(vector_in, normal);
    let coeff = spec_snell_coeff(vector_in, normal, ratio);
    if coeff > 0 {
        Some(
            spec_sub(
                spec_scale(spec_sub(vector_in, spec_scale(normal, cos_i)), ratio),
                spec_scale(normal, fsqrt(coeff)),
            ),
        )
    } else {
        None
    }
}

/// Refraction by the vector form of Snell's law.  Returns none exactly
/// when the Snell coefficient is non-positive: total internal
/// reflection.
pub fn refract(vector_in: Vector4, normal: Vector4, ratio: i64) -> (r: Option<Vector4>)
    ensures
        r == spec_refract(vector_in, normal, ratio as int),
        r is None <==> spec_snell_coeff(vector_in, normal, ratio as int) <= 0,
{
    let cos_i = vector_in.dot3(normal);
    let coeff = fx_sub(
        SCALE,
        fx_mul(fx_mul(ratio, ratio), fx_sub(SCALE, fx_mul(cos_i, cos_i))),
    );
    if coeff > 0 {
        Some(
            vector_in.sub(normal.scale(cos_i)).scale(ratio).sub(normal.scale(fx_sqrt(coeff))),
        )
    } else {
        None
    }
}

/// Schlick's closed-form estimate of the Fresnel reflectance.
pub open spec fn spec_schlick(cosine: int, refractive_index: int) -> int {
    let r0 = fdiv(fsub(SCALE as int, refractive_index), fadd(SCALE as int, refractive_index));
    let r0sq = fmul(r0, r0);
    fadd(r0sq, fmul(fsub(SCALE as int, r0sq), pow5(fsub(SCALE as int, cosine))))
}

/// The fifth power, as the chain of products the code multiplies out.
pub open spec fn pow5(a: int) -> int {
    fmul(fmul(fmul(fmul(a, a), a), a), a)
}

/// Schlick's reflectance estimate.
fn schlick(cosine: i64, refractive_index: i64) -> (r: i64)
    ensures
        r == spec_schlick(cosine as int, refractive_index as int),
{
    let r0 = fx_div(fx_sub(SCALE, refractive_index), fx_add(SCALE, refractive_index));
    let r0sq = fx_mul(r0, r0);
    let base = fx_sub(SCALE, cosine);
    let p5 = fx_mul(fx_mul(fx_mul(fx_mul(base, base), base), base), base);
    fx_add(r0sq, fx_mul(fx_sub(SCALE, r0sq), p5))
}

/// Which way a dielectric would refract the ray at this hit, if the
/// Snell coefficient allows refraction at all.
pub open spec fn spec_dielectric_refraction(
    d: Dielectric,
    ray_in: Ray,
    hit_record: IntersectionRecord,
) -> Option<Vector4> {
    let cos_i = spec_dot3(spec_unit(ray_in.direction), hit_record.normal);
    if cos_i > 0 {
        spec_refract(ray_in.direction, spec_neg(hit_record.normal), d.refractive_index as int)
    } else {
        spec_refract(ray_in.direction, hit_record.normal, fdiv(ONE as int, d.refractive_index as int))
    }
}

impl Material for Dielectric {
    fn scatter(&self, ray_in: &Ray, hit_record: &IntersectionRecord) -> (r: Option<
        (Ray, Vector4),
    >)
        ensures
            r is Some,
            r matches Some(sa) ==> {
                &&& sa.1 == spec_white()
                &&& (sa.0.direction == spec_reflect(ray_in.direction, hit_record.normal)
                    || spec_dielectric_refraction(*self, *ray_in, *hit_record) == Some(
                    sa.0.direction,
                ))
                &&& (spec_dielectric_refraction(*self, *ray_in, *hit_record) is None
                    ==> sa.0.direction == spec_reflect(ray_in.direction, hit_record.normal))
            },
    {
        let attenuation = Vector4::new3(ONE, ONE, ONE);
        let cos_i = ray_in.direction().unit_vector().dot3(hit_record.normal);
        let len = ray_in.direction().length();
        let (outward_normal, ratio, cosine) = if cos_i > 0 {
            (
                hit_record.normal.neg(),
                self.refractive_index,
                fx_div(fx_mul(self.refractive_index, cos_i), len),
            )
        } else {
            (hit_record.normal, fx_div(ONE, self.refractive_index), fx_div(fx_neg(cos_i), len))
        };
        let refract_result = refract(ray_in.direction(), outward_normal, ratio);
        let reflect_probability = schlick(cosine, self.refractive_index);
        if random_unit_scalar() < reflect_probability {
            let reflected = ray_in.direction().reflect(hit_record.normal);
            Some((Ray::new(hit_record.intersection_point, reflected), attenuation))
        } else {
            if let Some(refracted) = refract_result {
                Some((Ray::new(hit_record.intersection_point, refracted), attenuation))
            } else {
                let reflected = ray_in.direction().reflect(hit_record.normal);
                Some((Ray::new(hit_record.intersection_point, reflected), attenuation))
            }
        }
    }
}

/// The closed set of surface materials a scene can hold, dispatching
/// to the policy of the wrapped variant.
#[derive(Clone, Copy, PartialEq, Eq, Structural, Debug)]
pub enum SurfaceMaterial {
    Lambertian(Lambertian),
    Metal(Metal),
    Dielectric(Dielectric),
}

/// Everything one scattering step can produce: absorption only on a
/// metal surface, and otherwise an outgoing ray from the hit point
/// whose direction and attenuation obey the wrapped variant's policy
/// for some admissible random sample.
#[verifier::opaque]
pub open spec fn spec_scatter_outcome(
    material: SurfaceMaterial,
    ray_in: Ray,
    hit_record: IntersectionRecord,
    outcome: Option<(Ray, Vector4)>,
) -> bool {
    match outcome {
        None => material matches SurfaceMaterial::Metal(_),
        Some(sa) => {
            &&& sa.0.origin == hit_record.intersection_point
            &&& match material {
                SurfaceMaterial::Lambertian(m) => sa.1 == m.albedo && exists|s: Vector4|
                    spec_len_sq(s) < SCALE && sa.0.direction == #[trigger] spec_lambertian_dir(
                        hit_record.intersection_point,
                        hit_record.normal,
                        s,
                    ),
                SurfaceMaterial::Metal(m) => sa.1 == m.albedo && spec_dot3(
                    sa.0.direction,
                    hit_record.normal,
                ) > 0 && exists|s: Vector4|
                    spec_len_sq(s) < SCALE && sa.0.direction == #[trigger] spec_metal_dir(
                        ray_in,
                        hit_record.normal,
                        m.fuzz as int,
                        s,
                    ),
                SurfaceMaterial::Dielectric(m) => sa.1 == spec_white() && (sa.0.direction
                    == spec_reflect(ray_in.direction, hit_record.normal)
                    || spec_dielectric_refraction(m, ray_in, hit_record) == Some(sa.0.direction))
                    && (spec_dielectric_refraction(m, ray_in, hit_record) is None
                    ==> sa.0.direction == spec_reflect(ray_in.direction, hit_record.normal)),
            }
        },
    }
}

impl Material for SurfaceMaterial {
    fn scatter(&self, ray_in: &Ray, hit_record: &IntersectionRecord) -> (r: Option<
        (Ray, Vector4),
    >)
        ensures
            spec_scatter_outcome(*self, *ray_in, *hit_record, r),
            !(self matches SurfaceMaterial::Metal(_)) ==> r is Some,
    {
        proof {
            reveal(spec_scatter_outcome);
        }
        match self {
            SurfaceMaterial::Lambertian(m) => m.scatter(ray_in, hit_record),
            SurfaceMaterial::Metal(m) => m.scatter(ray_in, hit_record),
            SurfaceMaterial::Dielectric(m) => m.scatter(ray_in, hit_record),
        }
    }
}

} // verus!
