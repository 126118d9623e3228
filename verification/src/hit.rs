//! Intersections of rays with surfaces.

use vstd::prelude::*;
use crate::fixed::{lemma_neg_view, Fixed};
use crate::material::Material;
use crate::ray::Ray;
use crate::vec::{lemma_dot_neg, Point3, Vec3};

verus! {

/// Where and how a ray met a surface.
#[derive(Clone, Copy, Debug)]
pub struct HitRecord {
    /// The point of intersection.
    pub p: Point3,
    /// The surface normal there, turned against the incoming ray.
    pub normal: Vec3,
    /// The material of the surface.
    pub mat: Material,
    /// The ray parameter of the intersection.
    pub t: Fixed,
    /// Whether the ray came from outside the surface.
    pub front_face: bool,
}

impl HitRecord {
    /// This record with its normal and face set from the outward normal of
    /// the surface: the ray comes from outside if it runs against that
    /// normal, and else the stored normal is the inward one.
    pub open spec fn spec_face_normal(self, r: Ray, outward_normal: Vec3) -> HitRecord {
        let front_face = r.direction.spec_dot(outward_normal)@ < 0;
        HitRecord {
            front_face,
            normal: if front_face {
                outward_normal
            } else {
                outward_normal.spec_neg()
            },
            ..self
        }
    }

    /// The stored normal never points along the ray.
    pub proof fn lemma_face_normal_opposes(self, r: Ray, outward_normal: Vec3)
        ensures
            r.direction.spec_dot(self.spec_face_normal(r, outward_normal).normal)@ <= 0,
    {
        lemma_dot_neg(r.direction, outward_normal);
        lemma_neg_view(r.direction.spec_dot(outward_normal));
    }

    /// Sets the normal and the face of this record from the outward normal
    /// of the surface, so that the stored normal opposes the ray `r`.
    pub fn set_face_normal(&mut self, r: &Ray, outward_normal: Vec3)
        ensures
            *final(self) == old(self).spec_face_normal(*r, outward_normal),
            r.direction.spec_dot(final(self).normal)@ <= 0,
    {
        proof {
            self.lemma_face_normal_opposes(*r, outward_normal);
        }
        self.front_face = r.direction().dot(&outward_normal).lt(Fixed::from_int(0));
        self.normal = if self.front_face {
            outward_normal
        } else {
            outward_normal.neg()
        };
    }
}

/// The result of a hit test when the search ends at `bound` instead of the
/// upper end it was made with: the same hit if it lies within the bound,
/// and none otherwise.
pub open spec fn restrict(found: Option<HitRecord>, bound: Fixed) -> Option<HitRecord> {
    match found {
        Some(h) => if h.t@ <= bound@ {
            Some(h)
        } else {
            None
        },
        None => None,
    }
}

/// A surface that a ray can be tested against.
pub trait Hit {
    /// The hit that `hit` reports for a ray on the interval `[t_min, t_max]`.
    spec fn spec_hit(&self, r: Ray, t_min: Fixed, t_max: Fixed) -> Option<HitRecord>;

    /// A reported hit lies in the interval, and its normal opposes the ray.
    proof fn lemma_hit_valid(&self, r: Ray, t_min: Fixed, t_max: Fixed)
        ensures
            self.spec_hit(r, t_min, t_max) matches Some(h) ==> {
                &&& t_min@ <= h.t@ <= t_max@
                &&& r.direction.spec_dot(h.normal)@ <= 0
            },
    ;

    /// The reported hit is the first along the ray: with a smaller upper end
    /// the same hit is reported if it is still inside, and none otherwise.
    proof fn lemma_hit_restrict(&self, r: Ray, t_min: Fixed, t_max: Fixed, bound: Fixed)
        requires
            bound@ <= t_max@,
        ensures
            self.spec_hit(r, t_min, bound) == restrict(self.spec_hit(r, t_min, t_max), bound),
    ;

    /// The nearest intersection of the ray with this surface at a parameter
    /// in `[t_min, t_max]`, if there is one.
    fn hit(&self, r: &Ray, t_min: Fixed, t_max: Fixed) -> (res: Option<HitRecord>)
        ensures
            res == self.spec_hit(*r, t_min, t_max),
            res matches Some(h) ==> {
                &&& t_min@ <= h.t@ <= t_max@
                &&& r.direction.spec_dot(h.normal)@ <= 0
            },
    ;
}

/// The nearer of two hits; the first one where they are equally near.
pub open spec fn nearer(first: Option<HitRecord>, second: Option<HitRecord>) -> Option<HitRecord> {
    match (first, second) {
        (Some(a), Some(b)) => if b.t@ < a.t@ {
            Some(b)
        } else {
            Some(a)
        },
        (Some(a), None) => Some(a),
        (None, b) => b,
    }
}

/// The nearest of the hits that the objects report one by one on the whole
/// interval; among equally near ones, that of the object that comes first.
pub open spec fn nearest<T: Hit>(objects: Seq<T>, r: Ray, t_min: Fixed, t_max: Fixed) -> Option<
    HitRecord,
>
    decreases objects.len(),
{
    if objects.len() == 0 {
        None
    } else {
        nearer(
            nearest(objects.drop_last(), r, t_min, t_max),
            objects.last().spec_hit(r, t_min, t_max),
        )
    }
}

/// The nearest hit is the hit of one of the objects.
pub proof fn lemma_nearest_is_reported<T: Hit>(
    objects: Seq<T>,
    r: Ray,
    t_min: Fixed,
    t_max: Fixed,
)
    ensures
        nearest(objects, r, t_min, t_max) is Some ==> exists|i: int|
            0 <= i < objects.len() && #[trigger] objects[i].spec_hit(r, t_min, t_max) == nearest(
                objects,
                r,
                t_min,
                t_max,
            ),
    decreases objects.len(),
{
    if objects.len() > 0 {
        let front = objects.drop_last();
        lemma_nearest_is_reported(front, r, t_min, t_max);
        let found = nearest(objects, r, t_min, t_max);
        if found is Some {
            if found == objects.last().spec_hit(r, t_min, t_max) {
                assert(objects[objects.len() - 1].spec_hit(r, t_min, t_max) == found);
            } else {
                let i = choose|i: int|
                    0 <= i < front.len() && #[trigger] front[i].spec_hit(r, t_min, t_max) == found;
                assert(objects[i] == front[i]);
            }
        }
    }
}

/// No object reports a hit that is nearer than the nearest hit, and none
/// that comes earlier reports one that is as near.
pub proof fn lemma_nearest_is_least<T: Hit>(
    objects: Seq<T>,
    r: Ray,
    t_min: Fixed,
    t_max: Fixed,
    i: int,
)
    requires
        0 <= i < objects.len(),
        objects[i].spec_hit(r, t_min, t_max) is Some,
    ensures
        nearest(objects, r, t_min, t_max) matches Some(found) && found.t@
            <= objects[i].spec_hit(r, t_min, t_max)->0.t@,
    decreases objects.len(),
{
    let front = objects.drop_last();
    if i < front.len() {
        assert(objects[i] == front[i]);
        lemma_nearest_is_least(front, r, t_min, t_max, i);
    }
}

/// The nearest hit lies in the interval, and its normal opposes the ray.
pub proof fn lemma_nearest_valid<T: Hit>(objects: Seq<T>, r: Ray, t_min: Fixed, t_max: Fixed)
    ensures
        nearest(objects, r, t_min, t_max) matches Some(h) ==> {
            &&& t_min@ <= h.t@ <= t_max@
            &&& r.direction.spec_dot(h.normal)@ <= 0
        },
    decreases objects.len(),
{
    if objects.len() > 0 {
        lemma_nearest_valid(objects.drop_last(), r, t_min, t_max);
        objects.last().lemma_hit_valid(r, t_min, t_max);
    }
}

/// With a smaller upper end the nearest hit stays if it is still inside, and
/// there is none otherwise.
pub proof fn lemma_nearest_restrict<T: Hit>(
    objects: Seq<T>,
    r: Ray,
    t_min: Fixed,
    t_max: Fixed,
    bound: Fixed,
)
    requires
        bound@ <= t_max@,
    ensures
        nearest(objects, r, t_min, bound) == restrict(nearest(objects, r, t_min, t_max), bound),
    decreases objects.len(),
{
    if objects.len() > 0 {
        lemma_nearest_restrict(objects.drop_last(), r, t_min, t_max, bound);
        objects.last().lemma_hit_restrict(r, t_min, t_max, bound);
    }
}

/// A scene: the objects in the order in which they are tested.
pub type World = Vec<crate::sphere::Sphere>;

impl<T: Hit> Hit for Vec<T> {
    open spec fn spec_hit(&self, r: Ray, t_min: Fixed, t_max: Fixed) -> Option<HitRecord> {
        nearest(self@, r, t_min, t_max)
    }

    proof fn lemma_hit_valid(&self, r: Ray, t_min: Fixed, t_max: Fixed) {
        lemma_nearest_valid(self@, r, t_min, t_max);
    }

    proof fn lemma_hit_restrict(&self, r: Ray, t_min: Fixed, t_max: Fixed, bound: Fixed) {
        lemma_nearest_restrict(self@, r, t_min, t_max, bound);
    }

    /// Tests the objects in order, each on the interval that ends at the
    /// nearest hit found so far, and keeps a later hit only if it is
    /// strictly nearer.
    fn hit(&self, r: &Ray, t_min: Fixed, t_max: Fixed) -> (res: Option<HitRecord>)
        ensures
            forall|i: int|
                0 <= i < self@.len() && (#[trigger] self@[i].spec_hit(*r, t_min, t_max)) is Some
                    ==> res is Some && res->0.t@ <= self@[i].spec_hit(*r, t_min, t_max)->0.t@,
            res is Some ==> exists|i: int|
                0 <= i < self@.len() && #[trigger] self@[i].spec_hit(*r, t_min, t_max) == res,
    {
        proof {
            lemma_nearest_valid(self@, *r, t_min, t_max);
        }
        let mut found: Option<HitRecord> = None;
        let mut closest_so_far = t_max;
        let mut i: usize = 0;
        while i < self.len()
            invariant
                i <= self@.len(),
                found == nearest(self@.take(i as int), *r, t_min, t_max),
                closest_so_far == (match found {
                    Some(h) => h.t,
                    None => t_max,
                }),
            decreases self@.len() - i,
        {
            proof {
                lemma_nearest_valid(self@.take(i as int), *r, t_min, t_max);
                self@[i as int].lemma_hit_restrict(*r, t_min, t_max, closest_so_far);
                assert(self@.take(i + 1).drop_last() == self@.take(i as int));
            }
            if let Some(rec) = self[i].hit(r, t_min, closest_so_far) {
                if found.is_none() || rec.t.lt(closest_so_far) {
                    closest_so_far = rec.t;
                    found = Some(rec);
                }
            }
            i += 1;
        }
        proof {
            assert(self@.take(i as int) == self@);
            lemma_nearest_is_reported(self@, *r, t_min, t_max);
            assert forall|j: int|
                0 <= j < self@.len() && (#[trigger] self@[j].spec_hit(
                    *r,
                    t_min,
                    t_max,
                )) is Some implies found is Some && found->0.t@ <= self@[j].spec_hit(
                *r,
                t_min,
                t_max,
            )->0.t@ by {
                lemma_nearest_is_least(self@, *r, t_min, t_max, j);
            }
        }
        found
    }
}

} // verus!
