//! Surface materials: how a ray that hits a surface is scattered.
//!
//! Scattering is random. Each material says what it does with the random
//! point that was drawn (`scatter_with`); `scatter` draws the point.

use vstd::prelude::*;
use crate::fixed::Fixed;
use crate::hit::HitRecord;
use crate::ray::Ray;
use crate::vec::{Color, Vec3};

verus! {

/// What a material makes of an incoming ray.
pub trait Scatter {
    /// The attenuation and the outgoing ray for the hit `rec` of the ray
    /// `r_in`, when `sample` is the random point drawn from the unit ball;
    /// `None` if the ray is absorbed.
    spec fn spec_scatter(&self, r_in: Ray, rec: HitRecord, sample: Vec3) -> Option<(Color, Ray)>;

    /// Scatters with a given point of the unit ball in place of a random one.
    fn scatter_with(&self, r_in: &Ray, rec: &HitRecord, sample: Vec3) -> (res: Option<
        (Color, Ray),
    >)
        ensures
            res == self.spec_scatter(*r_in, *rec, sample),
    ;

    /// Scatters the ray `r_in` at the hit `rec`. The result is that of
    /// `scatter_with` for some point strictly inside the unit ball.
    fn scatter(&self, r_in: &Ray, rec: &HitRecord) -> (res: Option<(Color, Ray)>)
        ensures
            exists|sample: Vec3|
                sample.in_unit_ball() && res == #[trigger] self.spec_scatter(*r_in, *rec, sample),
    {
        let sample = Vec3::random_in_unit_sphere();
        self.scatter_with(r_in, rec, sample)
    }
}

/// A matte surface that scatters in all directions around the normal.
#[derive(Clone, Copy, Debug)]
pub struct Lambertian {
    pub albedo: Color,
}

/// A mirror-like surface; `fuzz`, between zero and one, widens the
/// reflection into a cone.
#[derive(Clone, Copy, Debug)]
pub struct Metal {
    pub albedo: Color,
    pub fuzz: Fixed,
}

/// The materials a surface can be made of.
#[derive(Clone, Copy, Debug)]
pub enum Material {
    Lambertian(Lambertian),
    Metal(Metal),
}

impl Lambertian {
    /// The direction of the scattered ray: the normal plus the sample scaled
    /// to length one, or the bare normal where that sum is nearly zero.
    pub open spec fn spec_direction(rec: HitRecord, sample: Vec3) -> Vec3 {
        let direction = rec.normal.spec_add(sample.spec_normalized());
        if direction.spec_near_zero() {
            rec.normal
        } else {
            direction
        }
    }

    /// The matte material that reflects the share `a` of each channel.
    pub fn new(a: Color) -> (res: Lambertian)
        ensures
            res == (Lambertian { albedo: a }),
    {
        Lambertian { albedo: a }
    }
}

impl Scatter for Lambertian {
    /// Never absorbs: the ray leaves the point of the hit in the direction
    /// `spec_direction`, attenuated by the albedo.
    open spec fn spec_scatter(&self, r_in: Ray, rec: HitRecord, sample: Vec3) -> Option<
        (Color, Ray),
    > {
        Some((self.albedo, Ray { origin: rec.p, direction: Lambertian::spec_direction(rec, sample) }))
    }

    fn scatter_with(&self, _r_in: &Ray, rec: &HitRecord, sample: Vec3) -> (res: Option<
        (Color, Ray),
    >)
        ensures
            res matches Some((attenuation, scattered)) && attenuation == self.albedo
                && scattered.origin == rec.p && (!rec.normal.spec_near_zero()
                ==> !scattered.direction.spec_near_zero()),
    {
        let mut scatter_direction = rec.normal.add(sample.normalized());
        if scatter_direction.near_zero() {
            // catch the degenerate direction
            scatter_direction = rec.normal;
        }
        let scattered = Ray::new(rec.p, scatter_direction);

        Some((self.albedo, scattered))
    }
}

impl Metal {
    /// The direction of the scattered ray: the mirror image of the incoming
    /// direction, scaled to length one before it is mirrored, plus the
    /// sample scaled by the fuzz.
    pub open spec fn spec_direction(self, r_in: Ray, rec: HitRecord, sample: Vec3) -> Vec3 {
        r_in.direction.spec_normalized().spec_reflect(rec.normal).spec_add(
            sample.spec_scale(self.fuzz),
        )
    }

    /// The metal that reflects the share `albedo` of each channel, with the
    /// given fuzz.
    pub fn new(albedo: Color, fuzz: Fixed) -> (res: Metal)
        ensures
            res == (Metal { albedo, fuzz }),
    {
        Metal { albedo, fuzz }
    }
}

impl Scatter for Metal {
    /// The ray leaves the point of the hit in the direction `spec_direction`,
    /// attenuated by the albedo, unless that direction points into the
    /// surface or along it: then the ray is absorbed.
    open spec fn spec_scatter(&self, r_in: Ray, rec: HitRecord, sample: Vec3) -> Option<
        (Color, Ray),
    > {
        let direction = self.spec_direction(r_in, rec, sample);
        if direction.spec_dot(rec.normal)@ > 0 {
            Some((self.albedo, Ray { origin: rec.p, direction }))
        } else {
            None
        }
    }

    fn scatter_with(&self, r_in: &Ray, rec: &HitRecord, sample: Vec3) -> (res: Option<
        (Color, Ray),
    >)
        ensures
            res matches Some((attenuation, scattered)) ==> attenuation == self.albedo
                && scattered.origin == rec.p && scattered.direction.spec_dot(rec.normal)@ > 0,
    {
        let reflected = r_in.direction().normalized().refect(&rec.normal);
        let scattered = Ray::new(rec.p, reflected.add(sample.scale(self.fuzz)));
        if scattered.direction().dot(&rec.normal).gt(Fixed::from_int(0)) {
            Some((self.albedo, scattered))
        } else {
            None
        }
    }
}

impl Scatter for Material {
    open spec fn spec_scatter(&self, r_in: Ray, rec: HitRecord, sample: Vec3) -> Option<
        (Color, Ray),
    > {
        match *self {
            Material::Lambertian(m) => m.spec_scatter(r_in, rec, sample),
            Material::Metal(m) => m.spec_scatter(r_in, rec, sample),
        }
    }

    fn scatter_with(&self, r_in: &Ray, rec: &HitRecord, sample: Vec3) -> (res: Option<
        (Color, Ray),
    >) {
        match self {
            Material::Lambertian(m) => m.scatter_with(r_in, rec, sample),
            Material::Metal(m) => m.scatter_with(r_in, rec, sample),
        }
    }
}

} // verus!
