//! The colour estimate and the top-level render loop.
//!
//! A ray's colour is traced recursively through the scene: each hit
//! scatters at most one continuation and tints it by the material's
//! attenuation; a miss ends in the sky gradient; the recursion depth
//! is capped, so a ray bouncing forever inside a mirrored cavity is
//! eventually absorbed as black.

use crate::camera::{spec_get_ray, Camera};
use crate::fixed::{
    fadd,
    from_count,
    fdiv,
    fmul,
    fsqrt,
    fsub,
    fx_add,
    fx_div,
    fx_from_usize,
    fx_mul,
    fx_sqrt,
    fx_sub,
    ONE,
    SCALE,
};
use crate::material::{spec_scatter_outcome, Material, SurfaceMaterial};
use crate::ray::Ray;
use crate::renderable::{spec_scene_hit, IntersectionRecord, Renderable, Scene};
use crate::sampling::random_unit_scalar;
use crate::sphere::Sphere;
use crate::vector::{spec_add, spec_div, spec_dot3, spec_mul, spec_scale, spec_unit, Vector4};
use vstd::prelude::*;

verus! {

/// The recursion bound: no path scatters more than this many times.
pub const MAX_DEPTH: u32 = 50;

/// The lower end of every colour query's distance window, suppressing
/// immediate self-intersection.
pub const HIT_EPSILON: i64 = 1_000;

/// Fixed-point 0.5, the sky gradient's blend midpoint factor.
pub const HALF: i64 = 500_000;

/// White, the sky gradient's ground value.
pub open spec fn spec_sky_white() -> Vector4 {
    Vector4 { x: ONE, y: ONE, z: ONE, w: 0 }
}

/// Sky blue, the gradient's zenith value.
pub open spec fn spec_sky_blue() -> Vector4 {
    Vector4 { x: 500_000, y: 700_000, z: 1_000_000, w: 0 }
}

/// Black: absorbed, no radiance.
pub open spec fn spec_black() -> Vector4 {
    Vector4 { x: 0, y: 0, z: 0, w: 0 }
}

/// The sky gradient a ray escapes into: white blended towards blue by
/// the normalized vertical component of its unit direction.
pub open spec fn spec_sky(ray: Ray) -> Vector4 {
    let unit_direction = spec_unit(ray.direction);
    let t = fmul(HALF as int, fadd(unit_direction.y as int, ONE as int));
    spec_add(spec_scale(spec_sky_white(), fsub(ONE as int, t)), spec_scale(spec_sky_blue(), t))
}

/// A ray whose unit direction is level (vertical component zero) sees
/// the exact midpoint of the sky gradient: half white plus half blue,
/// (0.75, 0.85, 1.0).
pub proof fn lemma_sky_midpoint(ray: Ray)
    requires
        spec_unit(ray.direction).y == 0,
    ensures
        spec_sky(ray) == (Vector4 { x: 750_000i64, y: 850_000i64, z: 1_000_000i64, w: 0i64 }),
{
    crate::fixed::lemma_fmul_nonneg_exact(HALF as int, ONE as int);
    crate::fixed::lemma_fmul_nonneg_exact(ONE as int, HALF as int);
    crate::fixed::lemma_fmul_nonneg_exact(500_000, 500_000);
    crate::fixed::lemma_fmul_nonneg_exact(700_000, 500_000);
    crate::fixed::lemma_fmul_zero(HALF as int);
    assert(500_000int * 1_000_000 == 500_000_000_000) by (nonlinear_arith);
    assert(1_000_000int * 500_000 == 500_000_000_000) by (nonlinear_arith);
    assert(500_000int * 500_000 == 250_000_000_000) by (nonlinear_arith);
    assert(700_000int * 500_000 == 350_000_000_000) by (nonlinear_arith);
    assert(500_000_000_000int / 1_000_000 == 500_000) by (nonlinear_arith);
    assert(250_000_000_000int / 1_000_000 == 250_000) by (nonlinear_arith);
    assert(350_000_000_000int / 1_000_000 == 350_000) by (nonlinear_arith);
}

/// Every value the colour estimate can return for this ray at this
/// depth: the exact sky on a miss; exact black once the depth bound is
/// reached; and below the bound either absorption black (possible only
/// on a metal surface) or one scattering step followed by a deeper
/// outcome.
#[verifier::opaque]
pub open spec fn spec_colour_outcome(
    spheres: Seq<Sphere>,
    ray: Ray,
    depth: u32,
    r: Vector4,
) -> bool
    decreases MAX_DEPTH - depth, 1int,
{
    match spec_scene_hit(spheres, ray, HIT_EPSILON, i64::MAX) {
        None => r == spec_sky(ray),
        Some(h) => if depth >= MAX_DEPTH {
            r == spec_black()
        } else {
            (r == spec_black() && h.material matches SurfaceMaterial::Metal(_))
                || spec_step_outcome(spheres, ray, depth, h, r)
        },
    }
}

/// One scattering step below the depth bound: `r` is the componentwise
/// product of a scattering outcome's attenuation with a value the
/// estimate can return for the continuation one level deeper.
#[verifier::opaque]
pub open spec fn spec_step_outcome(
    spheres: Seq<Sphere>,
    ray: Ray,
    depth: u32,
    h: IntersectionRecord,
    r: Vector4,
) -> bool
    decreases MAX_DEPTH - depth, 0int,
{
    depth < MAX_DEPTH && (exists|scattered: Ray, attenuation: Vector4, continuation: Vector4|
        #[trigger] spec_scatter_outcome(h.material, ray, h, Some((scattered, attenuation)))
            && spec_colour_outcome(spheres, scattered, (depth + 1) as u32, continuation) && r
            == #[trigger] spec_mul(attenuation, continuation))
}

/// A miss is always coloured the exact sky.
proof fn lemma_colour_outcome_miss(spheres: Seq<Sphere>, ray: Ray, depth: u32, r: Vector4)
    requires
        spec_scene_hit(spheres, ray, HIT_EPSILON, i64::MAX) is None,
        r == spec_sky(ray),
    ensures
        spec_colour_outcome(spheres, ray, depth, r),
{
    reveal(spec_colour_outcome);
}

/// Black is a possible outcome at any hit once the depth bound is
/// reached, and below it on a metal surface (absorption).
proof fn lemma_colour_outcome_black(
    spheres: Seq<Sphere>,
    ray: Ray,
    depth: u32,
    h: IntersectionRecord,
    r: Vector4,
)
    requires
        spec_scene_hit(spheres, ray, HIT_EPSILON, i64::MAX) == Some(h),
        depth >= MAX_DEPTH || h.material matches SurfaceMaterial::Metal(_),
        r == spec_black(),
    ensures
        spec_colour_outcome(spheres, ray, depth, r),
{
    reveal(spec_colour_outcome);
}

/// Below the depth bound, tinting any outcome of the continuation by a
/// scattering outcome's attenuation is itself an outcome.
#[verifier::rlimit(100)]
#[verifier::spinoff_prover]
proof fn lemma_colour_outcome_step(
    spheres: Seq<Sphere>,
    ray: Ray,
    depth: u32,
    h: IntersectionRecord,
    scattered: Ray,
    attenuation: Vector4,
    continuation: Vector4,
)
    requires
        spec_scene_hit(spheres, ray, HIT_EPSILON, i64::MAX) == Some(h),
        depth < MAX_DEPTH,
        spec_scatter_outcome(h.material, ray, h, Some((scattered, attenuation))),
        spec_colour_outcome(spheres, scattered, (depth + 1) as u32, continuation),
    ensures
        spec_colour_outcome(spheres, ray, depth, spec_mul(attenuation, continuation)),
{
    let r = spec_mul(attenuation, continuation);
    assert(spec_step_outcome(spheres, ray, depth, h, r)) by {
        reveal(spec_step_outcome);
        reveal(spec_colour_outcome);
        assert(spec_scatter_outcome(h.material, ray, h, Some((scattered, attenuation))));
        assert(spec_colour_outcome(spheres, scattered, (depth + 1) as u32, continuation));
        assert(r == spec_mul(attenuation, continuation));
    }
    assert(spec_colour_outcome(spheres, ray, depth, r)) by {
        reveal(spec_colour_outcome);
    }
}

/// The colour carried back along one ray, recursively: the sky exactly
/// on a miss, black exactly once the depth bound is reached, and
/// otherwise the scattered continuation tinted by the attenuation (or
/// black on absorption), as the outcome predicate states.  The
/// `decreases` measure is the proof that no path ever nests more than
/// `MAX_DEPTH` scatters.
pub fn colour(ray: &Ray, scene: &Scene, depth: u32) -> (r: Vector4)
    ensures
        spec_colour_outcome(scene.renderables@, *ray, depth, r),
        spec_scene_hit(scene.renderables@, *ray, HIT_EPSILON, i64::MAX) is None ==> r == spec_sky(
            *ray,
        ),
        (spec_scene_hit(scene.renderables@, *ray, HIT_EPSILON, i64::MAX) is Some && depth
            >= MAX_DEPTH) ==> r == spec_black(),
    decreases MAX_DEPTH - depth,
{
    if let Some(intersection) = scene.intersects(ray, HIT_EPSILON, i64::MAX) {
        if depth < MAX_DEPTH {
            if let Some((scattered, attenuation)) = intersection.material.scatter(
                ray,
                &intersection,
            ) {
                let continuation = colour(&scattered, scene, depth + 1);
                let tinted = attenuation.mul(continuation);
                proof {
                    lemma_colour_outcome_step(
                        scene.renderables@,
                        *ray,
                        depth,
                        intersection,
                        scattered,
                        attenuation,
                        continuation,
                    );
                }
                return tinted;
            }
        }
        let absorbed = Vector4::new3(0i64, 0, 0);
        proof {
            lemma_colour_outcome_black(scene.renderables@, *ray, depth, intersection, absorbed);
        }
        absorbed
    } else {
        // Make the direction unit length so its vertical component
        // lies in (-1, 1), then blend white towards blue over it.
        let unit_direction = ray.direction().unit_vector();
        let t = fx_mul(HALF, fx_add(unit_direction.y, ONE));
        let sky = Vector4::new3(ONE, ONE, ONE).scale(fx_sub(ONE, t)).add(
            Vector4::new3(500_000i64, 700_000, 1_000_000).scale(t),
        );
        proof {
            lemma_colour_outcome_miss(scene.renderables@, *ray, depth, sky);
        }
        sky
    }
}

/// Zero-clamping: negative radiance is discarded before gamma
/// correction, the way the writer's byte conversion would anyway.
pub open spec fn spec_clamp_zero(v: int) -> int {
    if v < 0 {
        0
    } else {
        v
    }
}

/// Whether `coord` is a jittered normalized screen coordinate for cell
/// `index` of an axis whose fixed-point extent is `extent_fx`.
pub open spec fn spec_coord_in_pixel(index: int, coord: int, extent_fx: int) -> bool {
    exists|jitter: int|
        0 <= jitter < SCALE && coord == #[trigger] fdiv(
            fadd(from_count(index), jitter),
            extent_fx,
        )
}

/// Whether `ray` is one the camera can cast for screen coordinates
/// (u, v): the lens sample is some point of the unit disk.
pub open spec fn spec_camera_sample_ray(cam: Camera, u: int, v: int, ray: Ray) -> bool {
    exists|disk: Vector4|
        spec_dot3(disk, disk) < SCALE && disk.z == 0 && ray == #[trigger] spec_get_ray(
            cam,
            u,
            v,
            disk,
        )
}

/// Whether `c` is a colour one anti-aliasing sample of pixel (x, y)
/// can produce: a camera ray for jittered coordinates inside the
/// pixel, and an outcome of the colour estimate for that ray.
pub open spec fn spec_sample_colour(
    cam: Camera,
    spheres: Seq<Sphere>,
    x: int,
    y: int,
    width_fx: int,
    height_fx: int,
    c: Vector4,
) -> bool {
    exists|u: int, v: int, ray: Ray|
        #[trigger] spec_coord_in_pixel(x, u, width_fx) && #[trigger] spec_coord_in_pixel(
            y,
            v,
            height_fx,
        ) && #[trigger] spec_camera_sample_ray(cam, u, v, ray) && spec_colour_outcome(
            spheres,
            ray,
            0,
            c,
        )
}

/// The running left-fold of sample colours, as the sample loop sums
/// them.
pub open spec fn spec_fold_colours(cols: Seq<Vector4>) -> Vector4
    decreases cols.len(),
{
    if cols.len() == 0 {
        spec_black()
    } else {
        spec_add(spec_fold_colours(cols.drop_last()), cols.last())
    }
}

/// Whether (red, green, blue) is a channel triple one pixel's loop can
/// produce: each channel is the square root of the zero-clamped
/// average of `samples` sample colours, every one of them a possible
/// sample colour of that pixel.
pub open spec fn spec_pixel_outcome(
    cam: Camera,
    spheres: Seq<Sphere>,
    x: int,
    y: int,
    width_fx: int,
    height_fx: int,
    samples_fx: int,
    samples: int,
    red: i64,
    green: i64,
    blue: i64,
) -> bool {
    exists|cols: Seq<Vector4>|
        {
            let average = spec_div(spec_fold_colours(cols), samples_fx);
            &&& #[trigger] cols.len() == samples
            &&& (forall|i: int|
                0 <= i < cols.len() ==> spec_sample_colour(
                    cam,
                    spheres,
                    x,
                    y,
                    width_fx,
                    height_fx,
                    #[trigger] cols[i],
                ))
            &&& red == fsqrt(spec_clamp_zero(average.x as int))
            &&& green == fsqrt(spec_clamp_zero(average.y as int))
            &&& blue == fsqrt(spec_clamp_zero(average.z as int))
        }
}

/// The channel triple of pixel (x, y) inside the finished buffer: the
/// screen is traversed from the top row down, so row y of the screen
/// sits `height - 1 - y` rows into the buffer.
pub open spec fn spec_pixel_at(
    cam: Camera,
    spheres: Seq<Sphere>,
    x: int,
    y: int,
    width: int,
    height: int,
    samples: int,
    buf: Seq<i64>,
) -> bool {
    let base = 3 * ((height - 1 - y) * width + x);
    spec_pixel_outcome(
        cam,
        spheres,
        x,
        y,
        from_count(width),
        from_count(height),
        from_count(samples),
        samples,
        buf[base],
        buf[base + 1],
        buf[base + 2],
    )
}

/// One pixel of the image: `samples_per_pixel` jittered camera rays,
/// their colours averaged and gamma-corrected per channel.
fn render_pixel(
    camera: &Camera,
    scene: &Scene,
    x: usize,
    y: usize,
    width_fx: i64,
    height_fx: i64,
    samples_fx: i64,
    samples_per_pixel: usize,
) -> (rgb: (i64, i64, i64))
    ensures
        spec_pixel_outcome(
            *camera,
            scene.renderables@,
            x as int,
            y as int,
            width_fx as int,
            height_fx as int,
            samples_fx as int,
            samples_per_pixel as int,
            rgb.0,
            rgb.1,
            rgb.2,
        ),
        rgb.0 >= 0 && rgb.1 >= 0 && rgb.2 >= 0,
{
    let ghost spheres = scene.renderables@;
    let mut anti_aliased_colour = Vector4::new3(0i64, 0, 0);
    let ghost mut cols: Seq<Vector4> = Seq::empty();
    let mut sample: usize = 0;
    while sample < samples_per_pixel
        invariant
            sample <= samples_per_pixel,
            spheres == scene.renderables@,
            cols.len() == sample,
            forall|i: int|
                0 <= i < cols.len() ==> spec_sample_colour(
                    *camera,
                    spheres,
                    x as int,
                    y as int,
                    width_fx as int,
                    height_fx as int,
                    #[trigger] cols[i],
                ),
            anti_aliased_colour == spec_fold_colours(cols),
        decreases samples_per_pixel - sample,
    {
        let ju = random_unit_scalar();
        let jv = random_unit_scalar();
        let u = fx_div(fx_add(fx_from_usize(x), ju), width_fx);
        let v = fx_div(fx_add(fx_from_usize(y), jv), height_fx);

        let ray = camera.get_ray(u, v);
        let c = colour(&ray, scene, 0);
        proof {
            assert(spec_coord_in_pixel(x as int, u as int, width_fx as int)) by {
                assert(u == fdiv(fadd(from_count(x as int), ju as int), width_fx as int));
            }
            assert(spec_coord_in_pixel(y as int, v as int, height_fx as int)) by {
                assert(v == fdiv(fadd(from_count(y as int), jv as int), height_fx as int));
            }
            assert(spec_camera_sample_ray(*camera, u as int, v as int, ray));
            assert(spec_sample_colour(
                *camera,
                spheres,
                x as int,
                y as int,
                width_fx as int,
                height_fx as int,
                c,
            ));
            let ghost previous = cols;
            cols = cols.push(c);
            assert(cols.drop_last() =~= previous);
            assert(spec_fold_colours(cols) == spec_add(spec_fold_colours(previous), c));
        }
        anti_aliased_colour.add_assign(c);
        sample = sample + 1;
    }

    let col = anti_aliased_colour.div(samples_fx);

    // Gamma correction; radiance is clamped at zero first, the way the
    // writer's byte conversion would discard it anyway.
    let red = fx_sqrt(if col.x < 0 { 0 } else { col.x });
    let green = fx_sqrt(if col.y < 0 { 0 } else { col.y });
    let blue = fx_sqrt(if col.z < 0 { 0 } else { col.z });
    proof {
        assert(spec_pixel_outcome(
            *camera,
            spheres,
            x as int,
            y as int,
            width_fx as int,
            height_fx as int,
            samples_fx as int,
            samples_per_pixel as int,
            red,
            green,
            blue,
        )) by {
            assert(cols.len() == samples_per_pixel as int);
        }
    }
    (red, green, blue)
}

/// Render the scene through the camera into a flat, row-major (bottom
/// row last, left to right) buffer of gamma-corrected colour channel
/// triples, averaging `samples_per_pixel` jittered samples per pixel.
/// Every channel written is non-negative, and every pixel's triple is
/// a possible outcome of its own sampling loop.
pub fn render(
    camera: &Camera,
    scene: &Scene,
    width: usize,
    height: usize,
    samples_per_pixel: usize,
) -> (r: Vec<i64>)
    ensures
        r@.len() == 3 * width * height,
        forall|k: int| 0 <= k < r@.len() ==> r@[k] >= 0,
        forall|px: int, py: int|
            0 <= px < width && 0 <= py < height ==> #[trigger] spec_pixel_at(
                *camera,
                scene.renderables@,
                px,
                py,
                width as int,
                height as int,
                samples_per_pixel as int,
                r@,
            ),
{
    let ghost spheres = scene.renderables@;
    let mut image_data: Vec<i64> = Vec::new();

    let width_fx = fx_from_usize(width);
    let height_fx = fx_from_usize(height);
    let samples_fx = fx_from_usize(samples_per_pixel);

    // The screen is traversed from the top row down, each row from the
    // left, so the buffer runs bottom-to-top in screen space.
    let mut y = height;
    while y > 0
        invariant
            y <= height,
            spheres == scene.renderables@,
            width_fx == from_count(width as int),
            height_fx == from_count(height as int),
            samples_fx == from_count(samples_per_pixel as int),
            image_data@.len() == 3 * width * (height - y),
            forall|k: int| 0 <= k < image_data@.len() ==> image_data@[k] >= 0,
            forall|px: int, py: int|
                0 <= px < width && y <= py < height ==> #[trigger] spec_pixel_at(
                    *camera,
                    spheres,
                    px,
                    py,
                    width as int,
                    height as int,
                    samples_per_pixel as int,
                    image_data@,
                ),
        decreases y,
    {
        y = y - 1;
        let mut x: usize = 0;
        while x < width
            invariant
                x <= width,
                y < height,
                spheres == scene.renderables@,
                width_fx == from_count(width as int),
                height_fx == from_count(height as int),
                samples_fx == from_count(samples_per_pixel as int),
                image_data@.len() == 3 * width * (height - y - 1) + 3 * x,
                forall|k: int| 0 <= k < image_data@.len() ==> image_data@[k] >= 0,
                forall|px: int, py: int|
                    0 <= px < width && y < py < height ==> #[trigger] spec_pixel_at(
                        *camera,
                        spheres,
                        px,
                        py,
                        width as int,
                        height as int,
                        samples_per_pixel as int,
                        image_data@,
                    ),
                forall|px: int|
                    0 <= px < x ==> #[trigger] spec_pixel_at(
                        *camera,
                        spheres,
                        px,
                        y as int,
                        width as int,
                        height as int,
                        samples_per_pixel as int,
                        image_data@,
                    ),
            decreases width - x,
        {
            let ghost before = image_data@;
            let (red, green, blue) = render_pixel(
                camera,
                scene,
                x,
                y,
                width_fx,
                height_fx,
                samples_fx,
                samples_per_pixel,
            );
            image_data.push(red);
            image_data.push(green);
            image_data.push(blue);
            proof {
                let ghost after = image_data@;
                assert(3 * width * (height - y - 1) == 3 * (((height - 1 - y) as int) * width))
                    by (nonlinear_arith)
                    requires
                        y < height,
                ;
                // The new pixel's triple sits right at the old end.
                assert(spec_pixel_at(
                    *camera,
                    spheres,
                    x as int,
                    y as int,
                    width as int,
                    height as int,
                    samples_per_pixel as int,
                    after,
                ));
                // Rows written earlier sit strictly below the old end,
                // so the three pushes leave their triples untouched.
                assert forall|px: int, py: int|
                    0 <= px < width && y < py < height implies #[trigger] spec_pixel_at(
                    *camera,
                    spheres,
                    px,
                    py,
                    width as int,
                    height as int,
                    samples_per_pixel as int,
                    after,
                ) by {
                    let base = 3 * ((height - 1 - py) * width + px);
                    assert(((height - 1 - py) as int) * width + px + 1 <= ((height - 1 - y) as int)
                        * width) by (nonlinear_arith)
                        requires
                            0 <= px < width,
                            y < py < height,
                    ;
                    assert(base + 2 < before.len());
                    assert(after[base] == before[base] && after[base + 1] == before[base + 1]
                        && after[base + 2] == before[base + 2]);
                    assert(spec_pixel_at(
                        *camera,
                        spheres,
                        px,
                        py,
                        width as int,
                        height as int,
                        samples_per_pixel as int,
                        before,
                    ));
                }
                // And so do this row's earlier pixels.
                assert forall|px: int| 0 <= px < x implies #[trigger] spec_pixel_at(
                    *camera,
                    spheres,
                    px,
                    y as int,
                    width as int,
                    height as int,
                    samples_per_pixel as int,
                    after,
                ) by {
                    let base = 3 * ((height - 1 - y) * width + px);
                    assert(base + 2 < before.len());
                    assert(after[base] == before[base] && after[base + 1] == before[base + 1]
                        && after[base + 2] == before[base + 2]);
                    assert(spec_pixel_at(
                        *camera,
                        spheres,
                        px,
                        y as int,
                        width as int,
                        height as int,
                        samples_per_pixel as int,
                        before,
                    ));
                }
            }
            x = x + 1;
        }
        proof {
            assert(3 * width * (height - y - 1) + 3 * width == 3 * width * (height - y))
                by (nonlinear_arith)
                requires
                    y < height,
            ;
        }
    }

    image_data
}

} // verus!
