//! What a ray can hit, and the record of one hit.

use crate::material::SurfaceMaterial;
use crate::ray::Ray;
use crate::sphere::{
    lemma_sphere_hit_shape,
    lemma_sphere_window_shrink,
    lemma_sphere_window_widen,
    Sphere,
};
use crate::vector::Vector4;
use vstd::prelude::*;

verus! {

/// Everything known about the point where a ray met a surface.
#[derive(Clone, Copy, PartialEq, Eq, Structural, Debug)]
pub struct IntersectionRecord {
    pub distance: i64,
    pub intersection_point: Vector4,
    pub normal: Vector4,
    pub material: SurfaceMaterial,
}

impl IntersectionRecord {
    /// Assemble a hit record from its parts.
    pub fn new(
        distance: i64,
        intersection_point: Vector4,
        normal: Vector4,
        material: SurfaceMaterial,
    ) -> (r: IntersectionRecord)
        ensures
            r == (IntersectionRecord { distance, intersection_point, normal, material }),
    {
        IntersectionRecord { distance, intersection_point, normal, material }
    }
}

/// The walk a scene query makes over its members, from member `i` on:
/// each accepted hit shrinks the window's upper bound to its distance,
/// so a later member must beat the best hit so far strictly.
pub open spec fn spec_scene_hit_from(
    spheres: Seq<Sphere>,
    ray: Ray,
    distance_min: i64,
    closest: i64,
    best: Option<IntersectionRecord>,
    i: int,
) -> Option<IntersectionRecord>
    decreases spheres.len() - i,
{
    if i < 0 || i >= spheres.len() {
        best
    } else {
        match spheres[i].spec_intersects(ray, distance_min, closest) {
            Some(h) => spec_scene_hit_from(spheres, ray, distance_min, h.distance, Some(h), i + 1),
            None => spec_scene_hit_from(spheres, ray, distance_min, closest, best, i + 1),
        }
    }
}

/// The nearest hit of a whole scene inside the window.
pub open spec fn spec_scene_hit(
    spheres: Seq<Sphere>,
    ray: Ray,
    distance_min: i64,
    distance_max: i64,
) -> Option<IntersectionRecord> {
    spec_scene_hit_from(spheres, ray, distance_min, distance_max, None, 0)
}

/// What the scene walk returns, stated against each member's own query
/// over the walk's current window: the walk yields a hit exactly when
/// the best so far or some remaining member has one; any returned hit
/// is one of theirs; and it beats every remaining member's hit.
#[verifier::rlimit(50)]
pub proof fn lemma_scene_hit_from(
    spheres: Seq<Sphere>,
    ray: Ray,
    distance_min: i64,
    closest: i64,
    best: Option<IntersectionRecord>,
    i: int,
)
    requires
        0 <= i <= spheres.len(),
        best matches Some(b) ==> distance_min < b.distance && b.distance == closest,
    ensures
        ({
            let r = spec_scene_hit_from(spheres, ray, distance_min, closest, best, i);
            &&& (r is Some <==> (best is Some || exists|j: int|
                i <= j < spheres.len() && #[trigger] spheres[j].spec_intersects(
                    ray,
                    distance_min,
                    closest,
                ) is Some))
            &&& (r matches Some(h) ==> best == Some(h) || exists|j: int|
                i <= j < spheres.len() && #[trigger] spheres[j].spec_intersects(
                    ray,
                    distance_min,
                    closest,
                ) == Some(h))
            &&& (r matches Some(h) ==> distance_min < h.distance <= closest)
            &&& (r matches Some(h) ==> forall|j: int|
                i <= j < spheres.len() ==> (#[trigger] spheres[j].spec_intersects(
                    ray,
                    distance_min,
                    closest,
                ) matches Some(hj) ==> h.distance <= hj.distance))
        }),
    decreases spheres.len() - i,
{
    if i < spheres.len() {
        let r = spec_scene_hit_from(spheres, ray, distance_min, closest, best, i);
        match spheres[i].spec_intersects(ray, distance_min, closest) {
            Some(hi) => {
                lemma_sphere_hit_shape(spheres[i], ray, distance_min, closest);
                lemma_scene_hit_from(spheres, ray, distance_min, hi.distance, Some(hi), i + 1);
                let rr = spec_scene_hit_from(
                    spheres,
                    ray,
                    distance_min,
                    hi.distance,
                    Some(hi),
                    i + 1,
                );
                assert(r == rr);
                if let Some(h) = rr {
                    // The walk's result came from the best so far or a
                    // later member under the shrunk window; widen that
                    // window back to the current one.
                    if h != hi {
                        let j = choose|j: int|
                            i + 1 <= j < spheres.len() && #[trigger] spheres[j].spec_intersects(
                                ray,
                                distance_min,
                                hi.distance,
                            ) == Some(h);
                        lemma_sphere_window_widen(
                            spheres[j],
                            ray,
                            distance_min,
                            hi.distance,
                            closest,
                        );
                        assert(spheres[j].spec_intersects(ray, distance_min, closest) == Some(h));
                    }
                    // Minimality over the remaining members under the
                    // current window: a nearer hit would have survived
                    // the shrunk window too.
                    assert forall|j: int|
                        i <= j < spheres.len() && #[trigger] spheres[j].spec_intersects(
                            ray,
                            distance_min,
                            closest,
                        ) is Some implies h.distance <= spheres[j].spec_intersects(
                        ray,
                        distance_min,
                        closest,
                    )->Some_0.distance by {
                        let hj = spheres[j].spec_intersects(ray, distance_min, closest)->Some_0;
                        if j > i && hj.distance < hi.distance {
                            lemma_sphere_window_shrink(
                                spheres[j],
                                ray,
                                distance_min,
                                hi.distance,
                                closest,
                            );
                            assert(spheres[j].spec_intersects(ray, distance_min, hi.distance)
                                == Some(hj));
                        }
                    }
                }
            },
            None => {
                lemma_scene_hit_from(spheres, ray, distance_min, closest, best, i + 1);
            },
        }
    }
}

/// Nearest-hit composition is insertion-order independent: for two
/// spheres that both intersect one ray inside the window, the scene
/// returns a hit at the smaller of the two distances, whichever order
/// the spheres stand in.
pub proof fn lemma_scene_two_spheres_nearest(
    s1: Sphere,
    s2: Sphere,
    ray: Ray,
    distance_min: i64,
    distance_max: i64,
    h1: IntersectionRecord,
    h2: IntersectionRecord,
)
    requires
        s1.spec_intersects(ray, distance_min, distance_max) == Some(h1),
        s2.spec_intersects(ray, distance_min, distance_max) == Some(h2),
    ensures
        ({
            let forward = spec_scene_hit(seq![s1, s2], ray, distance_min, distance_max);
            let backward = spec_scene_hit(seq![s2, s1], ray, distance_min, distance_max);
            let nearer = if h1.distance <= h2.distance {
                h1.distance
            } else {
                h2.distance
            };
            &&& forward is Some
            &&& backward is Some
            &&& forward->Some_0.distance == nearer
            &&& backward->Some_0.distance == nearer
        }),
{
    let fwd = seq![s1, s2];
    let bwd = seq![s2, s1];
    assert(fwd[0] == s1 && fwd[1] == s2 && bwd[0] == s2 && bwd[1] == s1);
    lemma_sphere_hit_shape(s1, ray, distance_min, distance_max);
    lemma_sphere_hit_shape(s2, ray, distance_min, distance_max);

    // The first sphere of each order is tested against the full window
    // and hits; the second is tested against the window shrunk to that
    // hit, where it survives exactly when its own hit is nearer.
    assert(spec_scene_hit_from(fwd, ray, distance_min, distance_max, None, 0)
        == spec_scene_hit_from(fwd, ray, distance_min, h1.distance, Some(h1), 1));
    if h2.distance < h1.distance {
        lemma_sphere_window_shrink(s2, ray, distance_min, h1.distance, distance_max);
        assert(s2.spec_intersects(ray, distance_min, h1.distance) == Some(h2));
        assert(spec_scene_hit_from(fwd, ray, distance_min, h1.distance, Some(h1), 1)
            == spec_scene_hit_from(fwd, ray, distance_min, h2.distance, Some(h2), 2));
        assert(spec_scene_hit_from(fwd, ray, distance_min, h2.distance, Some(h2), 2) == Some(h2));
    } else {
        if s2.spec_intersects(ray, distance_min, h1.distance) is Some {
            lemma_sphere_window_widen(s2, ray, distance_min, h1.distance, distance_max);
            lemma_sphere_hit_shape(s2, ray, distance_min, h1.distance);
            assert(false);
        }
        assert(spec_scene_hit_from(fwd, ray, distance_min, h1.distance, Some(h1), 1)
            == spec_scene_hit_from(fwd, ray, distance_min, h1.distance, Some(h1), 2));
        assert(spec_scene_hit_from(fwd, ray, distance_min, h1.distance, Some(h1), 2) == Some(h1));
    }

    assert(spec_scene_hit_from(bwd, ray, distance_min, distance_max, None, 0)
        == spec_scene_hit_from(bwd, ray, distance_min, h2.distance, Some(h2), 1));
    if h1.distance < h2.distance {
        lemma_sphere_window_shrink(s1, ray, distance_min, h2.distance, distance_max);
        assert(s1.spec_intersects(ray, distance_min, h2.distance) == Some(h1));
        assert(spec_scene_hit_from(bwd, ray, distance_min, h2.distance, Some(h2), 1)
            == spec_scene_hit_from(bwd, ray, distance_min, h1.distance, Some(h1), 2));
        assert(spec_scene_hit_from(bwd, ray, distance_min, h1.distance, Some(h1), 2) == Some(h1));
    } else {
        if s1.spec_intersects(ray, distance_min, h2.distance) is Some {
            lemma_sphere_window_widen(s1, ray, distance_min, h2.distance, distance_max);
            lemma_sphere_hit_shape(s1, ray, distance_min, h2.distance);
            assert(false);
        }
        assert(spec_scene_hit_from(bwd, ray, distance_min, h2.distance, Some(h2), 1)
            == spec_scene_hit_from(bwd, ray, distance_min, h2.distance, Some(h2), 2));
        assert(spec_scene_hit_from(bwd, ray, distance_min, h2.distance, Some(h2), 2) == Some(h2));
    }
}

/// A geometric primitive that a ray can intersect.  The executable
/// query agrees exactly with the implementor's spec-level account.
pub trait Renderable {
    /// The mathematical account of the intersection query.
    spec fn spec_intersects(&self, ray: Ray, distance_min: i64, distance_max: i64) -> Option<
        IntersectionRecord,
    >;

    /// Nearest hit strictly inside the window, or none.
    fn intersects(&self, ray: &Ray, distance_min: i64, distance_max: i64) -> (r: Option<
        IntersectionRecord,
    >)
        ensures
            r == self.spec_intersects(*ray, distance_min, distance_max),
    ;
}

/// An ordered collection of primitives, tested by linear scan.  Built
/// once per image; immutable while rendering.
#[derive(Debug)]
pub struct Scene {
    pub renderables: Vec<Sphere>,
}

impl Scene {
    /// An empty scene.
    pub fn new() -> (r: Scene)
        ensures
            r.renderables@ == Seq::<Sphere>::empty(),
    {
        Scene { renderables: Vec::new() }
    }

    /// Append one primitive; it is tested after all earlier ones.
    pub fn push(&mut self, sphere: Sphere)
        ensures
            final(self).renderables@ == old(self).renderables@.push(sphere),
    {
        self.renderables.push(sphere);
    }

    /// How many primitives the scene holds.
    pub fn len(&self) -> (r: usize)
        ensures
            r == self.renderables@.len(),
    {
        self.renderables.len()
    }
}

impl Renderable for Scene {
    open spec fn spec_intersects(&self, ray: Ray, distance_min: i64, distance_max: i64) -> Option<
        IntersectionRecord,
    > {
        spec_scene_hit(self.renderables@, ray, distance_min, distance_max)
    }

    /// The linear scan, shrinking the window's upper bound to each
    /// accepted hit so only the globally nearest hit survives.
    fn intersects(&self, ray: &Ray, distance_min: i64, distance_max: i64) -> (r: Option<
        IntersectionRecord,
    >)
        ensures
            r is None ==> forall|j: int|
                0 <= j < self.renderables@.len()
                    ==> #[trigger] self.renderables@[j].spec_intersects(
                    *ray,
                    distance_min,
                    distance_max,
                ) is None,
            r matches Some(h) ==> exists|j: int|
                0 <= j < self.renderables@.len() && #[trigger] self.renderables@[j].spec_intersects(
                    *ray,
                    distance_min,
                    distance_max,
                ) == Some(h),
            r matches Some(h) ==> distance_min < h.distance < distance_max,
            r matches Some(h) ==> forall|j: int|
                0 <= j < self.renderables@.len() ==> (
                #[trigger] self.renderables@[j].spec_intersects(
                    *ray,
                    distance_min,
                    distance_max,
                ) matches Some(hj) ==> h.distance <= hj.distance),
    {
        let ghost spheres = self.renderables@;
        let mut closest_so_far = distance_max;
        let mut record: Option<IntersectionRecord> = None;
        let mut idx: usize = 0;

        while idx < self.renderables.len()
            invariant
                0 <= idx <= spheres.len(),
                spheres == self.renderables@,
                record matches Some(b) ==> distance_min < b.distance && b.distance
                    == closest_so_far,
                record is None ==> closest_so_far == distance_max,
                spec_scene_hit_from(spheres, *ray, distance_min, closest_so_far, record, idx as int)
                    == spec_scene_hit(spheres, *ray, distance_min, distance_max),
            decreases spheres.len() - idx,
        {
            let sphere = self.renderables[idx];
            let intersection = sphere.intersects(ray, distance_min, closest_so_far);

            if let Some(intersection_record) = intersection {
                proof {
                    lemma_sphere_hit_shape(spheres[idx as int], *ray, distance_min, closest_so_far);
                }
                closest_so_far = intersection_record.distance;
                record = Some(intersection_record);
            }
            idx = idx + 1;
        }

        proof {
            lemma_scene_hit_from(spheres, *ray, distance_min, distance_max, None, 0);
            if let Some(h) = record {
                let j = choose|j: int|
                    0 <= j < spheres.len() && #[trigger] spheres[j].spec_intersects(
                        *ray,
                        distance_min,
                        distance_max,
                    ) == Some(h);
                lemma_sphere_hit_shape(spheres[j], *ray, distance_min, distance_max);
            }
        }
        record
    }
}

} // verus!
