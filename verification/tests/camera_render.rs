//! Camera ray generation, the sky gradient, the recursion bound and a
//! small end-to-end render.

use weekendraytracer::camera::Camera;
use weekendraytracer::material::{Lambertian, Metal, SurfaceMaterial};
use weekendraytracer::ray::Ray;
use weekendraytracer::render::{colour, render};
use weekendraytracer::renderable::{Renderable, Scene};
use weekendraytracer::sphere::Sphere;
use weekendraytracer::vector::Vector4;

const ONE: i64 = 1_000_000;

fn grey() -> SurfaceMaterial {
    SurfaceMaterial::Lambertian(Lambertian::new(Vector4::new3(500_000, 500_000, 500_000)))
}

#[test]
fn pinhole_camera_rays_are_deterministic() {
    let camera = Camera::default();
    // The default frame spans [-2, 2] x [-1, 1] one unit ahead.
    let corner = camera.get_ray(0, 0);
    assert_eq!(corner.origin(), Vector4::new3(0, 0, 0));
    assert_eq!(corner.direction(), Vector4::new3(-2 * ONE, -ONE, -ONE));

    let center = camera.get_ray(500_000, 500_000);
    assert_eq!(center.direction(), Vector4::new3(0, 0, -ONE));
}

#[test]
fn camera_frame_from_axis_aligned_parameters() {
    let camera = Camera::new(
        Vector4::new3(0, 0, 0),
        Vector4::new3(0, 0, -ONE),
        Vector4::new3(0, ONE, 0),
        90 * ONE,
        2 * ONE,
        0,
        ONE,
    );
    assert_eq!(camera.origin, Vector4::new3(0, 0, 0));
    assert_eq!(camera.lens_radius, 0);
    assert_eq!(camera.u, Vector4::new3(ONE, 0, 0));
    assert_eq!(camera.v, Vector4::new3(0, ONE, 0));
}

#[test]
fn sky_midpoint_for_level_rays() {
    // No hit and a level direction: the exact blend midpoint.
    let scene = Scene::new();
    let ray = Ray::new(Vector4::new3(0, 0, 0), Vector4::new3(ONE, 0, 0));
    assert_eq!(colour(&ray, &scene, 0), Vector4::new3(750_000, 850_000, ONE));
}

#[test]
fn pinhole_grid_of_a_centered_sphere_matches_hand_computed_hits() {
    // A 2x2 pinhole view of a sphere on the optical axis, one
    // deterministic sample per pixel at the pixel centers.  A radius
    // of 0.9 catches all four center rays; a radius of 0.1 misses all
    // four, leaving the sky, whose exact values follow from each
    // row's vertical direction component.
    let camera = Camera::default();
    let mut scene = Scene::new();
    scene.push(Sphere::new(Vector4::new3(0, 0, -ONE), 900_000, grey()));
    let mut thin = Scene::new();
    thin.push(Sphere::new(Vector4::new3(0, 0, -ONE), 100_000, grey()));

    let red = Vector4::new3(ONE, 0, 0);
    let bottom_sky = Vector4::new3(833_333, 900_000, ONE);
    let top_sky = Vector4::new3(666_667, 800_000, ONE);

    for py in 0..2usize {
        for px in 0..2usize {
            let u = (2 * px as i64 + 1) * 250_000;
            let v = (2 * py as i64 + 1) * 250_000;
            let ray = camera.get_ray(u, v);

            let wide = if scene.intersects(&ray, 1_000, i64::MAX).is_some() {
                red
            } else {
                sky_of(&ray)
            };
            assert_eq!(wide, red);

            let narrow = if thin.intersects(&ray, 1_000, i64::MAX).is_some() {
                red
            } else {
                sky_of(&ray)
            };
            assert_eq!(narrow, if py == 0 { bottom_sky } else { top_sky });
        }
    }
}

fn sky_of(ray: &Ray) -> Vector4 {
    colour(ray, &Scene::new(), 0)
}

#[test]
fn colour_recursion_terminates_in_a_mirrored_cavity() {
    // Two facing mirrors bounce the ray back and forth until the
    // depth bound absorbs it as black; reaching this assertion at all
    // is the termination half of the property.
    let mirror = SurfaceMaterial::Metal(Metal::new(Vector4::new3(ONE, ONE, ONE), 0));
    let mut scene = Scene::new();
    scene.push(Sphere::new(Vector4::new3(0, 0, -5 * ONE), ONE, mirror));
    scene.push(Sphere::new(Vector4::new3(0, 0, 5 * ONE), ONE, mirror));

    let ray = Ray::new(Vector4::new3(0, 0, 0), Vector4::new3(0, 0, -ONE));
    assert_eq!(colour(&ray, &scene, 0), Vector4::new3(0, 0, 0));
}

#[test]
fn render_fills_the_buffer_with_nonnegative_channels() {
    let camera = Camera::default();
    let mut scene = Scene::new();
    scene.push(Sphere::new(Vector4::new3(0, 0, -ONE), 500_000, grey()));

    let image = render(&camera, &scene, 4, 2, 2);
    assert_eq!(image.len(), 24);
    for channel in image {
        assert!(channel >= 0);
        assert!(channel <= ONE);
    }
}
