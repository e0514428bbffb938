use vstd::prelude::*;
use crate::fixed::Fx;
use crate::material::Material;
use crate::ray::Ray;
use crate::sphere::{sphere_hit_s, Sphere};
use crate::vec3::Vec3;

verus! {

/// The point of contact between a ray and a material.
#[derive(Clone, Copy, Debug)]
pub struct HitPoint {
    /// The distance along the ray where the contact happens: it
    /// satisfies `ray.origin + t * ray.direction() = p`.
    pub t: Fx,
    /// The actual 3D contact point.
    pub p: Vec3,
    /// The normal vector on the material surface in point `p`.
    pub normal: Vec3,
    /// Describes material properties; useful for determining what
    /// happens to the ray after contact.
    pub material: Material,
}

/// A `Hitable` object is anything that can be hit by a `Ray`,
/// resulting in a `HitPoint`.
pub trait Hitable {
    /// Well-formedness of the object's geometry and materials.
    spec fn hwf(&self) -> bool;

    /// The hit the object yields, as a function of the ray and the
    /// admitted parameter range.
    spec fn hit_s(&self, ray: Ray, t_min: int, t_max: int) -> Option<HitPoint>;

    /// Returns the `HitPoint` (if any) of a given `Ray` that hits the
    /// object at a `t` strictly inside `(t_min, t_max)`. If there are
    /// multiple such hit points, the closest one (smallest `t`) is
    /// used.
    fn hit(&self, ray: &Ray, t_min: Fx, t_max: Fx) -> (r: Option<HitPoint>)
        requires
            self.hwf(),
        ensures
            r == self.hit_s(*ray, t_min.sv(), t_max.sv()),
            r matches Some(h) ==> h.material.wf(),
    ;
}

/// The nearest hit over a sequence of spheres, scanned in order; on a
/// tie the earlier sphere wins, as a minimum taken by a linear scan
/// does.
pub open spec fn list_hit_s(spheres: Seq<Sphere>, ray: Ray, t_min: int, t_max: int) -> Option<
    HitPoint,
>
    decreases spheres.len(),
{
    if spheres.len() == 0 {
        None
    } else {
        let prev = list_hit_s(spheres.drop_last(), ray, t_min, t_max);
        let last = sphere_hit_s(spheres.last(), ray, t_min, t_max);
        match (prev, last) {
            (None, l) => l,
            (Some(h), None) => Some(h),
            (Some(h), Some(h2)) => if h.t.sv() <= h2.t.sv() {
                Some(h)
            } else {
                Some(h2)
            },
        }
    }
}

/// An empty scene never hits anything: with the contract of
/// `Ray::color`, every ray traced against it picks up exactly the
/// sky gradient.
pub proof fn lemma_empty_scene_misses(ray: Ray, t_min: int, t_max: int)
    ensures
        list_hit_s(Seq::<Sphere>::empty(), ray, t_min, t_max) is None,
{
}

impl Hitable for Vec<Sphere> {
    open spec fn hwf(&self) -> bool {
        forall|i: int| 0 <= i < self@.len() ==> (#[trigger] self@[i]).wf()
    }

    open spec fn hit_s(&self, ray: Ray, t_min: int, t_max: int) -> Option<HitPoint> {
        list_hit_s(self@, ray, t_min, t_max)
    }

    /// Returns the closest hitpoint (smallest `t`) of all the spheres
    /// contained in the `Vec`.
    fn hit(&self, ray: &Ray, t_min: Fx, t_max: Fx) -> (r: Option<HitPoint>) {
        let mut best: Option<HitPoint> = None;
        let mut i: usize = 0;
        while i < self.len()
            invariant
                i <= self@.len(),
                self.hwf(),
                best == list_hit_s(self@.subrange(0, i as int), *ray, t_min.sv(), t_max.sv()),
                best matches Some(h) ==> h.material.wf(),
            decreases self@.len() - i,
        {
            let cur = self[i].hit(ray, t_min, t_max);
            best = match (best, cur) {
                (None, c) => c,
                (Some(h), None) => Some(h),
                (Some(h), Some(h2)) => if h.t.units <= h2.t.units {
                    Some(h)
                } else {
                    Some(h2)
                },
            };
            proof {
                assert(self@.subrange(0, (i + 1) as int).drop_last() =~= self@.subrange(
                    0,
                    i as int,
                ));
                assert(self@.subrange(0, (i + 1) as int).last() == self@[i as int]);
            }
            i = i + 1;
        }
        proof {
            assert(self@.subrange(0, self@.len() as int) =~= self@);
        }
        best
    }
}

} // verus!
