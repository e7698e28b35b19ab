//! The thin-lens camera: an immutable viewport frame derived once from
//! look-from/look-at/up, field of view, aspect ratio, aperture and
//! focus distance, mapping normalized screen coordinates to world rays.

use crate::fixed::{fadd, fdiv, fmul, fsub, fx_add, fx_div, fx_mul, fx_sub, lemma_fmul_zero, ONE, SCALE};
use crate::ray::Ray;
use crate::sampling::random_in_unit_disk;
use crate::vector::{
    spec_add,
    spec_cross,
    spec_dot3,
    spec_scale,
    spec_sub,
    spec_unit,
    Vector4,
    TWO,
};
use vstd::prelude::*;

verus! {

/// Fixed-point pi, truncated to the grid.
pub const PI: i64 = 3_141_592;

/// Fixed-point 180.0, the degree measure of a straight angle.
pub const STRAIGHT_ANGLE: i64 = 180_000_000;

pub const SIX: i64 = 6_000_000;

pub const TWENTY_FOUR: i64 = 24_000_000;

pub const ONE_HUNDRED_TWENTY: i64 = 120_000_000;

pub const SEVEN_HUNDRED_TWENTY: i64 = 720_000_000;

pub const FIVE_THOUSAND_FORTY: i64 = 5_040_000_000;

/// The truncated series for the sine: the Taylor expansion through the
/// seventh power, adequate on the half-angles a field of view yields.
pub open spec fn spec_sin(x: int) -> int {
    let x2 = fmul(x, x);
    let x3 = fmul(x2, x);
    let x5 = fmul(x3, x2);
    let x7 = fmul(x5, x2);
    fsub(fadd(fsub(x, fdiv(x3, SIX as int)), fdiv(x5, ONE_HUNDRED_TWENTY as int)), fdiv(x7, FIVE_THOUSAND_FORTY as int))
}

/// The truncated series for the cosine, through the sixth power.
pub open spec fn spec_cos(x: int) -> int {
    let x2 = fmul(x, x);
    let x4 = fmul(x2, x2);
    let x6 = fmul(x4, x2);
    fsub(fadd(fsub(ONE as int, fdiv(x2, TWO as int)), fdiv(x4, TWENTY_FOUR as int)), fdiv(x6, SEVEN_HUNDRED_TWENTY as int))
}

/// The tangent, as the ratio of the two series.
pub open spec fn spec_tan(x: int) -> int {
    fdiv(spec_sin(x), spec_cos(x))
}

/// The sine series, evaluated exactly.
fn sin_approx(x: i64) -> (r: i64)
    ensures
        r == spec_sin(x as int),
{
    let x2 = fx_mul(x, x);
    let x3 = fx_mul(x2, x);
    let x5 = fx_mul(x3, x2);
    let x7 = fx_mul(x5, x2);
    fx_sub(fx_add(fx_sub(x, fx_div(x3, SIX)), fx_div(x5, ONE_HUNDRED_TWENTY)), fx_div(x7, FIVE_THOUSAND_FORTY))
}

/// The cosine series, evaluated exactly.
fn cos_approx(x: i64) -> (r: i64)
    ensures
        r == spec_cos(x as int),
{
    let x2 = fx_mul(x, x);
    let x4 = fx_mul(x2, x2);
    let x6 = fx_mul(x4, x2);
    fx_sub(fx_add(fx_sub(ONE, fx_div(x2, TWO)), fx_div(x4, TWENTY_FOUR)), fx_div(x6, SEVEN_HUNDRED_TWENTY))
}

/// The tangent as the ratio of the series.
fn tan_approx(x: i64) -> (r: i64)
    ensures
        r == spec_tan(x as int),
{
    fx_div(sin_approx(x), cos_approx(x))
}

/// The immutable viewport frame of a camera.
#[derive(Clone, Copy, PartialEq, Eq, Structural, Debug)]
pub struct Camera {
    pub origin: Vector4,
    pub lower_left: Vector4,
    pub horizontal: Vector4,
    pub vertical: Vector4,

    pub u: Vector4,
    pub v: Vector4,
    pub lens_radius: i64,
}

/// The frame a camera derives from its construction parameters.
pub open spec fn spec_camera(
    look_from: Vector4,
    look_at: Vector4,
    up: Vector4,
    vertical_fov: int,
    aspect: int,
    aperture: int,
    focus_dist: int,
) -> Camera {
    let lens_radius = fdiv(aperture, TWO as int);
    let theta = fdiv(fmul(vertical_fov, PI as int), STRAIGHT_ANGLE as int);
    let half_height = spec_tan(fdiv(theta, TWO as int));
    let half_width = fmul(aspect, half_height);

    let w = spec_unit(spec_sub(look_from, look_at));
    let u = spec_unit(spec_cross(up, w));
    let v = spec_cross(w, u);

    Camera {
        origin: look_from,
        lower_left: spec_sub(
            spec_sub(
                spec_sub(look_from, spec_scale(spec_scale(u, half_width), focus_dist)),
                spec_scale(spec_scale(v, half_height), focus_dist),
            ),
            spec_scale(w, focus_dist),
        ),
        horizontal: spec_scale(spec_scale(spec_scale(u, half_width), focus_dist), TWO as int),
        vertical: spec_scale(spec_scale(spec_scale(v, half_height), focus_dist), TWO as int),
        u,
        v,
        lens_radius: lens_radius as i64,
    }
}

/// The ray a camera casts for screen coordinates (u, v) once the lens
/// sample `disk` has been drawn.
pub open spec fn spec_get_ray(cam: Camera, u: int, v: int, disk: Vector4) -> Ray {
    let offset = spec_add(
        spec_scale(cam.u, fmul(disk.x as int, cam.lens_radius as int)),
        spec_scale(cam.v, fmul(disk.y as int, cam.lens_radius as int)),
    );
    Ray {
        origin: spec_add(cam.origin, offset),
        direction: spec_sub(
            spec_sub(
                spec_add(
                    spec_add(cam.lower_left, spec_scale(cam.horizontal, u)),
                    spec_scale(cam.vertical, v),
                ),
                cam.origin,
            ),
            offset,
        ),
    }
}

/// The zero lens sample a pinhole camera always behaves as if it drew.
pub open spec fn spec_zero_disk() -> Vector4 {
    Vector4 { x: 0, y: 0, z: 0, w: 0 }
}

impl Camera {
    /// Derive the viewport frame from look-from/look-at/up, a vertical
    /// field of view in degrees, the aspect ratio, the aperture and
    /// the focus distance.
    pub fn new(
        look_from: Vector4,
        look_at: Vector4,
        up: Vector4,
        vertical_fov: i64,
        aspect: i64,
        aperture: i64,
        focus_dist: i64,
    ) -> (r: Camera)
        ensures
            r == spec_camera(
                look_from,
                look_at,
                up,
                vertical_fov as int,
                aspect as int,
                aperture as int,
                focus_dist as int,
            ),
    {
        let lens_radius = fx_div(aperture, TWO);
        let theta = fx_div(fx_mul(vertical_fov, PI), STRAIGHT_ANGLE);
        let half_height = tan_approx(fx_div(theta, TWO));
        let half_width = fx_mul(aspect, half_height);

        let w = look_from.sub(look_at).unit_vector();
        let u = up.cross(w).unit_vector();
        let v = w.cross(u);

        Camera {
            origin: look_from,
            lower_left: look_from.sub(u.scale(half_width).scale(focus_dist)).sub(
                v.scale(half_height).scale(focus_dist),
            ).sub(w.scale(focus_dist)),
            horizontal: u.scale(half_width).scale(focus_dist).scale(TWO),
            vertical: v.scale(half_height).scale(focus_dist).scale(TWO),
            u,
            v,
            lens_radius,
        }
    }

    /// The ray for normalized screen coordinates (u, v).  A positive
    /// aperture offsets the origin by a random lens sample; with the
    /// lens radius at zero the camera is an exact pinhole.
    pub fn get_ray(&self, u: i64, v: i64) -> (r: Ray)
        ensures
            exists|disk: Vector4|
                spec_dot3(disk, disk) < SCALE && disk.z == 0 && r == #[trigger] spec_get_ray(
                    *self,
                    u as int,
                    v as int,
                    disk,
                ),
            self.lens_radius == 0 ==> r == spec_get_ray(*self, u as int, v as int, spec_zero_disk()),
    {
        let disk = random_in_unit_disk();
        let rd = disk.scale(self.lens_radius);
        let offset = self.u.scale(rd.x).add(self.v.scale(rd.y));
        let r = Ray::new(
            self.origin.add(offset),
            self.lower_left.add(self.horizontal.scale(u)).add(self.vertical.scale(v)).sub(
                self.origin,
            ).sub(offset),
        );
        proof {
            assert(r == spec_get_ray(*self, u as int, v as int, disk));
            if self.lens_radius == 0 {
                lemma_fmul_zero(disk.x as int);
                lemma_fmul_zero(disk.y as int);
                lemma_fmul_zero(0);
                assert(r == spec_get_ray(*self, u as int, v as int, spec_zero_disk()));
            }
        }
        r
    }
}

impl Default for Camera {
    /// The fixed pinhole frame of the early-chapter renders: origin at
    /// zero, a 4x2 viewport one unit ahead, no lens.
    fn default() -> (r: Camera)
        ensures
            r == (Camera {
                origin: Vector4 { x: 0, y: 0, z: 0, w: 0 },
                lower_left: Vector4 { x: -2_000_000i64, y: -1_000_000i64, z: -1_000_000i64, w: 0 },
                horizontal: Vector4 { x: 4_000_000, y: 0, z: 0, w: 0 },
                vertical: Vector4 { x: 0, y: 2_000_000, z: 0, w: 0 },
                u: Vector4 { x: ONE, y: 0, z: 0, w: 0 },
                v: Vector4 { x: 0, y: ONE, z: 0, w: 0 },
                lens_radius: 0,
            }),
    {
        Camera {
            origin: Vector4::new3(0i64, 0, 0),
            lower_left: Vector4::new3(-2_000_000i64, -1_000_000, -1_000_000),
            horizontal: Vector4::new3(4_000_000i64, 0, 0),
            vertical: Vector4::new3(0i64, 2_000_000, 0),
            u: Vector4::new3(ONE, 0, 0),
            v: Vector4::new3(0i64, ONE, 0),
            lens_radius: 0,
        }
    }
}

} // verus!
