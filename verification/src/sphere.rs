//! The sphere, the one geometric primitive.

use vstd::prelude::*;
use crate::fixed::{lemma_div_monotone, lemma_sqrt_nonneg, lemma_sub_le_add, Fixed};
use crate::hit::{Hit, HitRecord};
use crate::material::Material;
use crate::ray::Ray;
use crate::arith::{lemma_quot_bounds, lemma_quot_monotone, magnitude, max_raw, quot, scale};
use crate::vec::{lemma_dot_self_nonneg, Point3, Vec3};

verus! {

/// A sphere with a material.
#[derive(Clone, Copy, Debug)]
pub struct Sphere {
    pub center: Point3,
    pub radius: Fixed,
    pub mat: Material,
}

impl Sphere {
    /// The vector from the centre to the ray's origin.
    pub open spec fn spec_oc(self, r: Ray) -> Vec3 {
        r.origin.spec_sub(self.center)
    }

    /// Leading coefficient of the quadratic in the ray parameter: the
    /// squared length of the direction.
    pub open spec fn spec_a(r: Ray) -> Fixed {
        r.direction.spec_dot(r.direction)
    }

    /// Half of the linear coefficient.
    pub open spec fn spec_half_b(self, r: Ray) -> Fixed {
        self.spec_oc(r).spec_dot(r.direction)
    }

    /// Constant coefficient.
    pub open spec fn spec_c(self, r: Ray) -> Fixed {
        self.spec_oc(r).spec_dot(self.spec_oc(r)).spec_sub(self.radius.spec_mul(self.radius))
    }

    /// A quarter of the discriminant of the quadratic.
    pub open spec fn spec_discriminant(self, r: Ray) -> Fixed {
        self.spec_half_b(r).spec_mul(self.spec_half_b(r)).spec_sub(
            Self::spec_a(r).spec_mul(self.spec_c(r)),
        )
    }

    /// The smaller root of the quadratic.
    pub open spec fn spec_near_root(self, r: Ray) -> Fixed {
        self.spec_half_b(r).spec_neg().spec_sub(self.spec_discriminant(r).spec_sqrt()).spec_div(
            Self::spec_a(r),
        )
    }

    /// The larger root of the quadratic.
    pub open spec fn spec_far_root(self, r: Ray) -> Fixed {
        self.spec_half_b(r).spec_neg().spec_add(self.spec_discriminant(r).spec_sqrt()).spec_div(
            Self::spec_a(r),
        )
    }

    /// The outward normal of the sphere at the point `p` of its surface.
    pub open spec fn spec_outward_normal(self, p: Point3) -> Vec3 {
        p.spec_sub(self.center).spec_div(self.radius)
    }

    /// The record of the intersection at the ray parameter `root`, before
    /// its normal is set.
    pub open spec fn spec_blank_record(self, r: Ray, root: Fixed) -> HitRecord {
        HitRecord {
            t: root,
            p: r.spec_at(root),
            mat: self.mat,
            normal: Vec3::spec_zero(),
            front_face: false,
        }
    }

    /// The record of the intersection at the ray parameter `root`.
    pub open spec fn spec_record(self, r: Ray, root: Fixed) -> HitRecord {
        self.spec_blank_record(r, root).spec_face_normal(
            r,
            self.spec_outward_normal(r.spec_at(root)),
        )
    }

    /// Whether `t` lies in the closed interval from `t_min` to `t_max`.
    pub open spec fn within(t: Fixed, t_min: Fixed, t_max: Fixed) -> bool {
        t_min@ <= t@ <= t_max@
    }

    /// The smaller root never exceeds the larger one.
    pub proof fn lemma_roots_ordered(self, r: Ray)
        ensures
            self.spec_near_root(r)@ <= self.spec_far_root(r)@,
    {
        let minus_b = self.spec_half_b(r).spec_neg();
        let root = self.spec_discriminant(r).spec_sqrt();
        lemma_sqrt_nonneg(self.spec_discriminant(r));
        lemma_sub_le_add(minus_b, root);
        lemma_dot_self_nonneg(r.direction);
        lemma_div_monotone(minus_b.spec_sub(root), minus_b.spec_add(root), Self::spec_a(r));
    }

    /// The ray parameter of the point of the ray that is nearest to the
    /// centre of the sphere.
    pub open spec fn spec_nearest_approach(self, r: Ray) -> Fixed {
        self.spec_half_b(r).spec_neg().spec_div(Self::spec_a(r))
    }

    /// The two roots lie on either side of the point of the ray that is
    /// nearest to the centre, equally far from it: their sum is twice the
    /// parameter of that point, up to three units of the last place. This
    /// holds wherever the direction has a squared length above zero and
    /// neither the roots nor their numerators are out of range.
    pub proof fn lemma_roots_symmetric(self, r: Ray)
        requires
            Self::spec_a(r)@ > 0,
            magnitude(self.spec_half_b(r)@) + self.spec_discriminant(r).spec_sqrt()@ <= max_raw(),
            magnitude(self.spec_near_root(r)@) < max_raw(),
            magnitude(self.spec_far_root(r)@) < max_raw(),
        ensures
            magnitude(
                self.spec_near_root(r)@ + self.spec_far_root(r)@ - 2 * self.spec_nearest_approach(
                    r,
                )@,
            ) <= 3,
    {
        reveal(Fixed::spec_add);
        reveal(Fixed::spec_sub);
        reveal(Fixed::spec_neg);
        reveal(Fixed::spec_div);
        let a = Self::spec_a(r)@;
        let root = self.spec_discriminant(r).spec_sqrt();
        lemma_sqrt_nonneg(self.spec_discriminant(r));
        let m = -self.spec_half_b(r)@;
        let x = (m - root@) * scale();
        let y = (m + root@) * scale();
        let z = m * scale();
        assert(self.spec_near_root(r)@ == quot(x, a));
        assert(self.spec_far_root(r)@ == quot(y, a));
        lemma_quot_monotone(x, z, a);
        lemma_quot_monotone(z, y, a);
        assert(self.spec_nearest_approach(r)@ == quot(z, a));
        lemma_quot_bounds(x, a);
        lemma_quot_bounds(y, a);
        lemma_quot_bounds(z, a);
        let k = quot(x, a) + quot(y, a) - 2 * quot(z, a);
        assert(a * k == a * quot(x, a) + a * quot(y, a) - 2 * (a * quot(z, a)))
            by (nonlinear_arith)
            requires
                k == quot(x, a) + quot(y, a) - 2 * quot(z, a),
        ;
        assert(-4 < k < 4) by (nonlinear_arith)
            requires
                -4 * a < a * k < 4 * a,
                a > 0,
        ;
    }

    /// The sphere around `center` with the given radius and material.
    pub fn new(center: Point3, radius: Fixed, mat: Material) -> (res: Sphere)
        ensures
            res == (Sphere { center, radius, mat }),
    {
        Sphere { center, radius, mat }
    }
}

impl Hit for Sphere {
    /// No hit if the discriminant is negative. Otherwise the smaller root if
    /// it lies in the interval, else the larger root if that one does.
    open spec fn spec_hit(&self, r: Ray, t_min: Fixed, t_max: Fixed) -> Option<HitRecord> {
        if self.spec_discriminant(r)@ < 0 {
            None
        } else if Sphere::within(self.spec_near_root(r), t_min, t_max) {
            Some(self.spec_record(r, self.spec_near_root(r)))
        } else if Sphere::within(self.spec_far_root(r), t_min, t_max) {
            Some(self.spec_record(r, self.spec_far_root(r)))
        } else {
            None
        }
    }

    proof fn lemma_hit_valid(&self, r: Ray, t_min: Fixed, t_max: Fixed) {
        let near = self.spec_near_root(r);
        let far = self.spec_far_root(r);
        self.spec_blank_record(r, near).lemma_face_normal_opposes(
            r,
            self.spec_outward_normal(r.spec_at(near)),
        );
        self.spec_blank_record(r, far).lemma_face_normal_opposes(
            r,
            self.spec_outward_normal(r.spec_at(far)),
        );
    }

    proof fn lemma_hit_restrict(&self, r: Ray, t_min: Fixed, t_max: Fixed, bound: Fixed) {
        self.lemma_roots_ordered(r);
    }

    fn hit(&self, r: &Ray, t_min: Fixed, t_max: Fixed) -> (res: Option<HitRecord>)
        ensures
            self.spec_discriminant(*r)@ < 0 ==> res is None,
    {
        proof {
            self.lemma_hit_valid(*r, t_min, t_max);
        }
        let oc = r.origin().sub(self.center);
        let a = r.direction().dot(&r.direction());
        let half_b = oc.dot(&r.direction());
        let c = oc.dot(&oc).sub(self.radius.mul(self.radius));

        let discriminant = half_b.mul(half_b).sub(a.mul(c));
        if discriminant.lt(Fixed::from_int(0)) {
            return None;
        }

        // The nearest root that lies in the acceptable range.
        let mut root = half_b.neg().sub(discriminant.sqrt()).div(a);
        if root.lt(t_min) || root.gt(t_max) {
            root = half_b.neg().add(discriminant.sqrt()).div(a);
            if root.lt(t_min) || root.gt(t_max) {
                return None;
            }
        }
        let p = r.at(root);
        let mut rec = HitRecord {
            t: root,
            p,
            mat: self.mat,
            normal: Vec3::zero(),
            front_face: false,
        };

        let outward_normal = rec.p.sub(self.center).div(self.radius);
        rec.set_face_normal(r, outward_normal);

        Some(rec)
    }
}

} // verus!
