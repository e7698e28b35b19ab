//! Scattering policies: diffuse, specular and refractive.

use weekendraytracer::material::{
    refract,
    Dielectric,
    Lambertian,
    Material,
    Metal,
    SurfaceMaterial,
};
use weekendraytracer::ray::Ray;
use weekendraytracer::renderable::IntersectionRecord;
use weekendraytracer::vector::Vector4;

const ONE: i64 = 1_000_000;

fn flat_hit(material: SurfaceMaterial) -> IntersectionRecord {
    IntersectionRecord::new(
        ONE,
        Vector4::new3(0, 0, -ONE),
        Vector4::new3(0, ONE, 0),
        material,
    )
}

#[test]
fn lambertian_always_scatters_from_the_hit_point() {
    let albedo = Vector4::new3(800_000, 300_000, 300_000);
    let lambertian = Lambertian::new(albedo);
    let ray = Ray::new(Vector4::new3(0, ONE, 0), Vector4::new3(0, -ONE, -ONE));
    let hit = flat_hit(SurfaceMaterial::Lambertian(lambertian));

    for _ in 0..32 {
        let (scattered, attenuation) = lambertian.scatter(&ray, &hit).expect(
            "diffuse surfaces always scatter",
        );
        assert_eq!(attenuation, albedo);
        assert_eq!(scattered.origin(), hit.intersection_point);
    }
}

#[test]
fn smooth_metal_reproduces_exact_mirror_reflection() {
    // Incoming at 45 degrees onto a flat-equivalent (level) normal.
    let albedo = Vector4::new3(800_000, 600_000, 200_000);
    let metal = Metal::new(albedo, 0);
    let ray = Ray::new(Vector4::new3(-ONE, ONE, 0), Vector4::new3(ONE, -ONE, 0));
    let hit = flat_hit(SurfaceMaterial::Metal(metal));

    let (scattered, attenuation) = metal.scatter(&ray, &hit).expect(
        "a grazing-free mirror bounce must scatter",
    );
    assert_eq!(attenuation, albedo);
    // unit(1, -1, 0) lands on (707107, -707107, 0); mirroring about
    // the y axis flips the vertical component exactly.
    assert_eq!(scattered.direction(), Vector4::new3(707_107, 707_107, 0));

    let mirrored = ray.direction().unit_vector().reflect(hit.normal);
    assert_eq!(scattered.direction().dot3(hit.normal), mirrored.dot3(hit.normal));
}

#[test]
fn metal_absorbs_rays_pushed_into_the_surface() {
    // A smooth metal seen from behind the normal reflects into the
    // surface and is absorbed: the one "no scatter" case.
    let metal = Metal::new(Vector4::new3(ONE, ONE, ONE), 0);
    let ray = Ray::new(Vector4::new3(0, -ONE, 0), Vector4::new3(0, ONE, 0));
    let hit = flat_hit(SurfaceMaterial::Metal(metal));

    assert!(metal.scatter(&ray, &hit).is_none());
}

#[test]
fn refraction_vanishes_exactly_at_total_internal_reflection() {
    // With ratio 2, the Snell coefficient crosses zero where the
    // squared cosine of incidence passes a quarter; these two
    // directions straddle that critical angle by one grid step.
    let normal = Vector4::new3(0, 0, ONE);
    let ratio = 2 * ONE;

    let just_beyond = Vector4::new3(500_000, 0, -866_025);
    assert!(refract(just_beyond, normal, ratio).is_none());

    let just_within = Vector4::new3(500_000, 0, -866_026);
    assert!(refract(just_within, normal, ratio).is_some());
}

#[test]
fn head_on_refraction_passes_straight_through() {
    let normal = Vector4::new3(0, 0, ONE);
    // Entering the medium head on: ratio 1/1.5.
    let refracted = refract(Vector4::new3(0, 0, -ONE), normal, 666_666).expect(
        "head-on refraction always exists",
    );
    assert_eq!(refracted, Vector4::new3(0, 0, -ONE));
}

#[test]
fn dielectric_reflects_or_refracts_and_never_absorbs() {
    let dielectric = Dielectric::new(1_500_000);
    let ray = Ray::new(Vector4::new3(0, 0, 0), Vector4::new3(0, 0, -ONE));
    let hit = IntersectionRecord::new(
        ONE,
        Vector4::new3(0, 0, -ONE),
        Vector4::new3(0, 0, ONE),
        SurfaceMaterial::Dielectric(dielectric),
    );

    let reflected = Vector4::new3(0, 0, ONE);
    let through = Vector4::new3(0, 0, -ONE);
    let mut seen_refraction = false;
    for _ in 0..64 {
        let (scattered, attenuation) = dielectric.scatter(&ray, &hit).expect(
            "dielectrics never absorb",
        );
        assert_eq!(attenuation, Vector4::new3(ONE, ONE, ONE));
        assert_eq!(scattered.origin(), hit.intersection_point);
        let direction = scattered.direction();
        assert!(direction == reflected || direction == through);
        if direction == through {
            seen_refraction = true;
        }
    }
    // Head-on incidence has a tiny Schlick reflectance (4% at index
    // 1.5), so refraction must show up well within 64 draws.
    assert!(seen_refraction);
}

#[test]
fn surface_material_dispatches_to_the_wrapped_variant() {
    let lambertian = SurfaceMaterial::Lambertian(Lambertian::new(Vector4::new3(ONE, 0, 0)));
    let ray = Ray::new(Vector4::new3(0, ONE, 0), Vector4::new3(0, -ONE, 0));
    let hit = flat_hit(lambertian);

    let (_, attenuation) = lambertian.scatter(&ray, &hit).expect(
        "diffuse surfaces always scatter",
    );
    assert_eq!(attenuation, Vector4::new3(ONE, 0, 0));
}
