//! A thin-lens camera.

use vstd::prelude::*;
use crate::fixed::Fixed;
use crate::ray::Ray;
use crate::vec::{Point3, Vec3};

verus! {

/// A camera, as derived from where it stands and what it looks at.
#[derive(Clone, Copy, Debug)]
pub struct Camera {
    pub origin: Point3,
    pub lower_left_corner: Point3,
    pub horizontal: Vec3,
    pub vertical: Vec3,
    pub cu: Vec3,
    pub cv: Vec3,
    pub lens_radius: Fixed,
}

impl Camera {
    /// The number two.
    pub open spec fn two() -> Fixed {
        Fixed::of(2 * crate::arith::scale())
    }

    /// The axis that points from the target back to the eye.
    pub open spec fn spec_cw(look_from: Point3, look_at: Point3) -> Vec3 {
        look_from.spec_sub(look_at).spec_normalized()
    }

    /// The axis that points to the right.
    pub open spec fn spec_cu(look_from: Point3, look_at: Point3, vup: Vec3) -> Vec3 {
        vup.spec_cross(Self::spec_cw(look_from, look_at)).spec_normalized()
    }

    /// The axis that points up.
    pub open spec fn spec_cv(look_from: Point3, look_at: Point3, vup: Vec3) -> Vec3 {
        Self::spec_cw(look_from, look_at).spec_cross(Self::spec_cu(look_from, look_at, vup))
    }

    /// The camera that stands at `look_from` and looks at `look_at`, with
    /// `vup` pointing up. The viewport is twice `half_height` high at
    /// distance one, and `aspect_ratio` times as wide; it is laid out in the
    /// plane of focus, at distance `focus_dist`.
    pub open spec fn spec_new(
        look_from: Point3,
        look_at: Point3,
        vup: Vec3,
        half_height: Fixed,
        aspect_ratio: Fixed,
        aperture: Fixed,
        focus_dist: Fixed,
    ) -> Camera {
        let viewport_height = Self::two().spec_mul(half_height);
        let viewport_width = aspect_ratio.spec_mul(viewport_height);
        let cw = Self::spec_cw(look_from, look_at);
        let cu = Self::spec_cu(look_from, look_at, vup);
        let cv = Self::spec_cv(look_from, look_at, vup);
        let horizontal = cu.spec_scale(focus_dist.spec_mul(viewport_width));
        let vertical = cv.spec_scale(focus_dist.spec_mul(viewport_height));
        Camera {
            origin: look_from,
            horizontal,
            vertical,
            lower_left_corner: look_from.spec_sub(horizontal.spec_div(Self::two())).spec_sub(
                vertical.spec_div(Self::two()),
            ).spec_sub(cw.spec_scale(focus_dist)),
            cu,
            cv,
            lens_radius: aperture.spec_div(Self::two()),
        }
    }

    /// The ray through the point `(s, t)` of the viewport that leaves the
    /// lens at the point `lens` of the unit disk.
    pub open spec fn spec_ray(self, s: Fixed, t: Fixed, lens: Vec3) -> Ray {
        let rd = lens.spec_scale(self.lens_radius);
        let offset = self.cu.spec_scale(rd.x).spec_add(self.cv.spec_scale(rd.y));
        Ray {
            origin: self.origin.spec_add(offset),
            direction: self.lower_left_corner.spec_add(self.horizontal.spec_scale(s)).spec_add(
                self.vertical.spec_scale(t),
            ).spec_sub(self.origin).spec_sub(offset),
        }
    }

    /// A camera without a lens is a pinhole camera: every ray leaves the
    /// eye, whatever point of the lens was drawn, and there is no blur.
    pub proof fn lemma_pinhole(self, s: Fixed, t: Fixed, lens: Vec3)
        requires
            self.lens_radius@ == 0,
        ensures
            self.spec_ray(s, t, lens).origin@ == self.origin@,
            self.spec_ray(s, t, lens).direction@ == self.spec_ray(s, t, Vec3::spec_zero()).direction@,
    {
        reveal(Fixed::spec_mul);
        reveal(Fixed::spec_add);
        reveal(Fixed::spec_sub);
        let rd = lens.spec_scale(self.lens_radius);
        assert(lens.x@ * 0 == 0 && lens.y@ * 0 == 0 && lens.z@ * 0 == 0);
        assert(rd@ == (0int, 0int, 0int));
        let offset = self.cu.spec_scale(rd.x).spec_add(self.cv.spec_scale(rd.y));
        assert(self.cu.x@ * 0 == 0 && self.cu.y@ * 0 == 0 && self.cu.z@ * 0 == 0);
        assert(self.cv.x@ * 0 == 0 && self.cv.y@ * 0 == 0 && self.cv.z@ * 0 == 0);
        assert(offset@ == (0int, 0int, 0int));
        let still = Vec3::spec_zero().spec_scale(self.lens_radius);
        assert(still@ == (0int, 0int, 0int));
        let none = self.cu.spec_scale(still.x).spec_add(self.cv.spec_scale(still.y));
        assert(none@ == (0int, 0int, 0int));
    }

    /// Builds the camera. `half_height` is the tangent of half the vertical
    /// field of view.
    pub fn new(
        look_from: Point3,
        look_at: Point3,
        vup: Vec3,
        half_height: Fixed,
        aspect_ratio: Fixed,
        aperture: Fixed,
        focus_dist: Fixed,
    ) -> (res: Camera)
        ensures
            res == Camera::spec_new(
                look_from,
                look_at,
                vup,
                half_height,
                aspect_ratio,
                aperture,
                focus_dist,
            ),
    {
        let two = Fixed::from_int(2);
        let viewport_height = two.mul(half_height);
        let viewport_width = aspect_ratio.mul(viewport_height);

        // The camera's own axes.
        let cw = look_from.sub(look_at).normalized();
        let cu = vup.cross(&cw).normalized();
        let cv = cw.cross(&cu);

        let horizontal = cu.scale(focus_dist.mul(viewport_width));
        let vertical = cv.scale(focus_dist.mul(viewport_height));

        let lower_left_corner = look_from.sub(horizontal.div(two)).sub(vertical.div(two)).sub(
            cw.scale(focus_dist),
        );

        Camera {
            origin: look_from,
            horizontal,
            vertical,
            lower_left_corner,
            cu,
            cv,
            lens_radius: aperture.div(two),
        }
    }

    /// As `get_ray`, with a given point of the unit disk in place of a
    /// random one.
    pub fn get_ray_through(&self, s: Fixed, t: Fixed, lens: Vec3) -> (res: Ray)
        ensures
            res == self.spec_ray(s, t, lens),
    {
        let rd = lens.scale(self.lens_radius);
        let offset = self.cu.scale(rd.x()).add(self.cv.scale(rd.y()));

        Ray::new(
            self.origin.add(offset),
            self.lower_left_corner.add(self.horizontal.scale(s)).add(self.vertical.scale(t)).sub(
                self.origin,
            ).sub(offset),
        )
    }

    /// The ray through the point `(s, t)` of the viewport, both between zero
    /// and one, from a random point of the lens.
    pub fn get_ray(&self, s: Fixed, t: Fixed) -> (res: Ray)
        ensures
            exists|lens: Vec3|
                lens.in_unit_ball() && lens.z@ == 0 && res == #[trigger] self.spec_ray(s, t, lens),
    {
        let lens = Vec3::random_in_unit_disk();
        self.get_ray_through(s, t, lens)
    }
}

} // verus!
