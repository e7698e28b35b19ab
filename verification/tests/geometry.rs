//! Ray/sphere intersection and scene nearest-hit composition.

use weekendraytracer::material::{Lambertian, SurfaceMaterial};
use weekendraytracer::ray::Ray;
use weekendraytracer::renderable::{Renderable, Scene};
use weekendraytracer::sphere::Sphere;
use weekendraytracer::vector::Vector4;

const ONE: i64 = 1_000_000;

fn grey() -> SurfaceMaterial {
    SurfaceMaterial::Lambertian(Lambertian::new(Vector4::new3(500_000, 500_000, 500_000)))
}

#[test]
fn head_on_hit_distance_and_unit_normal() {
    // A ray aimed straight at a sphere's center from outside hits at
    // distance |origin - center| - radius, with the outward unit
    // normal pointing straight back.
    let ray = Ray::new(Vector4::new3(0, 0, 0), Vector4::new3(0, 0, -ONE));
    let sphere = Sphere::new(Vector4::new3(0, 0, -5 * ONE), ONE, grey());

    let hit = sphere.intersects(&ray, 1_000, i64::MAX).expect("head-on ray must hit");
    assert_eq!(hit.distance, 4 * ONE);
    assert_eq!(hit.intersection_point, Vector4::new3(0, 0, -4 * ONE));
    assert_eq!(hit.normal, Vector4::new3(0, 0, ONE));
    assert_eq!(hit.normal.length(), ONE);
}

#[test]
fn perpendicular_offset_beyond_radius_misses() {
    // Perpendicular offset 3 against radius 1: no real root.
    let ray = Ray::new(Vector4::new3(0, 0, 0), Vector4::new3(0, 0, -ONE));
    let sphere = Sphere::new(Vector4::new3(0, 3 * ONE, -5 * ONE), ONE, grey());

    assert!(sphere.intersects(&ray, 1_000, i64::MAX).is_none());
}

#[test]
fn hit_outside_window_is_rejected() {
    let ray = Ray::new(Vector4::new3(0, 0, 0), Vector4::new3(0, 0, -ONE));
    let sphere = Sphere::new(Vector4::new3(0, 0, -5 * ONE), ONE, grey());

    // Both roots (4 and 6) lie beyond the window.
    assert!(sphere.intersects(&ray, 1_000, 3 * ONE).is_none());
    // The near root is below the window; the far root is taken.
    let far = sphere.intersects(&ray, 5 * ONE, i64::MAX).expect("far root inside window");
    assert_eq!(far.distance, 6 * ONE);
}

#[test]
fn scene_returns_nearest_hit_regardless_of_order() {
    let ray = Ray::new(Vector4::new3(0, 0, 0), Vector4::new3(0, 0, -ONE));
    let near = Sphere::new(Vector4::new3(0, 0, -3 * ONE), ONE, grey());
    let far = Sphere::new(Vector4::new3(0, 0, -8 * ONE), ONE, grey());

    let mut forward = Scene::new();
    forward.push(near);
    forward.push(far);
    let hit = forward.intersects(&ray, 1_000, i64::MAX).expect("scene must hit");
    assert_eq!(hit.distance, 2 * ONE);

    let mut backward = Scene::new();
    backward.push(far);
    backward.push(near);
    let hit = backward.intersects(&ray, 1_000, i64::MAX).expect("scene must hit");
    assert_eq!(hit.distance, 2 * ONE);
}

#[test]
fn empty_scene_never_hits() {
    let ray = Ray::new(Vector4::new3(0, 0, 0), Vector4::new3(0, 0, -ONE));
    let scene = Scene::new();
    assert_eq!(scene.len(), 0);
    assert!(scene.intersects(&ray, 1_000, i64::MAX).is_none());
}

#[test]
fn ray_evaluation() {
    let ray = Ray::new(Vector4::new3(ONE, 0, 0), Vector4::new3(0, 0, -ONE));
    assert_eq!(ray.origin(), Vector4::new3(ONE, 0, 0));
    assert_eq!(ray.direction(), Vector4::new3(0, 0, -ONE));
    assert_eq!(ray.point_at_distance(2 * ONE), Vector4::new3(ONE, 0, -2 * ONE));
}
