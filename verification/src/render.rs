//! The integrator: what light arrives along a ray, and the colour of a pixel.

use vstd::prelude::*;
use crate::arith::{max_raw, quot, scale};
use crate::camera::Camera;
use crate::fixed::{Fixed, MAX_RAW, ONE_RAW};
use crate::hit::{Hit, HitRecord, World};
use crate::material::Scatter;
use crate::ray::Ray;
use crate::rng::gen_range;
use crate::vec::{lemma_zero_in_unit_ball, Color, Vec3};

verus! {

/// Raw pattern of the parameter below which a hit is ignored, `0.0001`.
pub const T_MIN_RAW: i64 = 429_496;

/// Raw pattern of the green share of the sky's blue, `0.7`.
pub const SKY_GREEN_RAW: i64 = 3_006_477_107;

/// The parameter below which a hit is ignored: a ray that leaves a surface
/// must not hit that surface again at once.
pub open spec fn t_min() -> Fixed {
    Fixed::of(quot(scale(), 10_000))
}

/// The largest number: the search for a hit has no upper end.
pub open spec fn t_max() -> Fixed {
    Fixed::of(max_raw())
}

/// The number one.
pub open spec fn one() -> Fixed {
    Fixed::of(scale())
}

/// One half.
pub open spec fn half() -> Fixed {
    Fixed::of(scale() / 2)
}

/// White: `(1, 1, 1)`.
pub open spec fn white() -> Color {
    Vec3 { x: one(), y: one(), z: one() }
}

/// The blue of the sky: `(0.5, 0.7, 1)`.
pub open spec fn sky_blue() -> Color {
    Vec3 { x: half(), y: Fixed::of(quot(7 * scale(), 10)), z: one() }
}

/// The background behind the scene: white at the bottom, blue at the top,
/// blended along the height `t = (y + 1) / 2` of the ray's direction scaled
/// to length one.
pub open spec fn spec_background(r: Ray) -> Color {
    let unit_direction = r.direction.spec_normalized();
    let t = half().spec_mul(unit_direction.y.spec_add(one()));
    white().spec_scale(one().spec_sub(t)).spec_add(sky_blue().spec_scale(t))
}

/// The light that arrives along the ray `r`, when `samples` holds the
/// random points that the materials are given, one for each bounce that is
/// allowed. With none left the ray carries no light. A ray that hits
/// nothing sees the background. A ray that hits a surface is scattered by
/// its material, and carries the light along the scattered ray attenuated
/// channel by channel, or none if it is absorbed.
pub open spec fn spec_ray_color(r: Ray, world: World, samples: Seq<Vec3>) -> Color
    decreases samples.len(),
{
    if samples.len() == 0 {
        Vec3::spec_zero()
    } else {
        match world.spec_hit(r, t_min(), t_max()) {
            Some(rec) => match rec.mat.spec_scatter(r, rec, samples[0]) {
                Some((attenuation, scattered)) => attenuation.spec_mul(
                    spec_ray_color(scattered, world, samples.drop_first()),
                ),
                None => Vec3::spec_zero(),
            },
            None => spec_background(r),
        }
    }
}

/// Whether every vector of the sequence lies inside the unit ball.
pub open spec fn all_in_unit_ball(samples: Seq<Vec3>) -> bool {
    forall|k: int| 0 <= k < samples.len() ==> (#[trigger] samples[k]).in_unit_ball()
}

/// The colours that the background blends.
fn palette() -> (res: (Color, Color))
    ensures
        res.0 == white(),
        res.1 == sky_blue(),
{
    let one = Fixed::from_int(1);
    let half = Fixed::from_raw(ONE_RAW / 2);
    assert(quot(7 * scale(), 10) == SKY_GREEN_RAW) by {
        assert(7 * scale() == 30_064_771_072);
        assert(30_064_771_072int / 10 == 3_006_477_107);
    }
    (Vec3::new(one, one, one), Vec3::new(half, Fixed::from_raw(SKY_GREEN_RAW), one))
}

/// The background colour for the ray `r`.
pub fn background(r: &Ray) -> (res: Color)
    ensures
        res == spec_background(*r),
{
    let one = Fixed::from_int(1);
    let half = Fixed::from_raw(ONE_RAW / 2);
    let unit_direction = r.direction().normalized();
    let t = half.mul(unit_direction.y().add(one));
    let (white, blue) = palette();
    white.scale(one.sub(t)).add(blue.scale(t))
}

/// The nearest hit of the ray with the scene, from just off its origin on.
fn first_hit(r: &Ray, world: &World) -> (res: Option<HitRecord>)
    ensures
        res == world.spec_hit(*r, t_min(), t_max()),
{
    assert(quot(scale(), 10_000) == T_MIN_RAW) by {
        assert(scale() / 10_000 == 429_496);
    }
    world.hit(r, Fixed::from_raw(T_MIN_RAW), Fixed::from_raw(MAX_RAW))
}

/// Traces with the samples from index `from` on.
fn trace_from(r: &Ray, world: &World, samples: &Vec<Vec3>, from: usize) -> (res: Color)
    requires
        from <= samples@.len(),
    ensures
        res == spec_ray_color(*r, *world, samples@.skip(from as int)),
    decreases samples@.len() - from,
{
    if from == samples.len() {
        return Vec3::zero();
    }
    proof {
        assert(samples@.skip(from as int).drop_first() == samples@.skip(from + 1));
    }
    if let Some(rec) = first_hit(r, world) {
        if let Some((attenuation, scattered)) = rec.mat.scatter_with(r, &rec, samples[from]) {
            attenuation.mul(trace_from(&scattered, world, samples, from + 1))
        } else {
            Vec3::zero()
        }
    } else {
        background(r)
    }
}

/// The light along the ray `r` for given random points: `samples` holds
/// one point of the unit ball for each bounce that is allowed.
pub fn ray_color_with(r: &Ray, world: &World, samples: &Vec<Vec3>) -> (res: Color)
    ensures
        res == spec_ray_color(*r, *world, samples@),
{
    assert(samples@.skip(0) == samples@);
    trace_from(r, world, samples, 0)
}

/// Traces the ray and records the random points that were used.
fn ray_color_recorded(r: &Ray, world: &World, depth: u64) -> (res: (Color, Ghost<Seq<Vec3>>))
    ensures
        res.1@.len() == depth,
        all_in_unit_ball(res.1@),
        res.0 == spec_ray_color(*r, *world, res.1@),
    decreases depth,
{
    let ghost unused = Seq::new(depth as nat, |k: int| Vec3::spec_zero());
    proof {
        lemma_zero_in_unit_ball();
    }
    if depth == 0 {
        // The bounce limit is reached: no more light is gathered.
        return (Vec3::zero(), Ghost(unused));
    }
    if let Some(rec) = first_hit(r, world) {
        let scattering = rec.mat.scatter(r, &rec);
        let ghost sample = choose|sample: Vec3|
            sample.in_unit_ball() && scattering == #[trigger] rec.mat.spec_scatter(*r, rec, sample);
        if let Some((attenuation, scattered)) = scattering {
            let (incoming, Ghost(later)) = ray_color_recorded(&scattered, world, (depth - 1) as u64);
            let ghost samples = seq![sample] + later;
            proof {
                assert(samples.drop_first() == later);
            }
            (attenuation.mul(incoming), Ghost(samples))
        } else {
            let ghost samples = unused.update(0, sample);
            (Vec3::zero(), Ghost(samples))
        }
    } else {
        (background(r), Ghost(unused))
    }
}

/// The light that arrives along the ray `r` after at most `depth` bounces,
/// the materials scattering at random. With `depth` zero it is black,
/// whatever the scene. In general it is what `spec_ray_color` gives for
/// some `depth` points of the unit ball.
pub fn ray_color(r: &Ray, world: &World, depth: u64) -> (res: Color)
    ensures
        depth == 0 ==> res == Vec3::spec_zero(),
        exists|samples: Seq<Vec3>|
            samples.len() == depth && all_in_unit_ball(samples) && res == #[trigger] spec_ray_color(
                *r,
                *world,
                samples,
            ),
{
    let (color, Ghost(samples)) = ray_color_recorded(r, world, depth);
    color
}

/// The random numbers that one sample of a pixel uses.
pub struct PixelDraws {
    /// Where in the pixel the ray passes, across: in `[0, 1)`.
    pub du: Fixed,
    /// Where in the pixel the ray passes, upward: in `[0, 1)`.
    pub dv: Fixed,
    /// Where the ray leaves the lens: a point of the unit disk.
    pub lens: Vec3,
    /// The points of the unit ball for the bounces.
    pub bounces: Seq<Vec3>,
}

impl PixelDraws {
    /// Whether the numbers are such as can be drawn for `depth` bounces.
    pub open spec fn valid(self, depth: u64) -> bool {
        &&& 0 <= self.du@ < scale()
        &&& 0 <= self.dv@ < scale()
        &&& self.lens.in_unit_ball()
        &&& self.lens.z@ == 0
        &&& self.bounces.len() == depth
        &&& all_in_unit_ball(self.bounces)
    }
}

/// The coordinate in the viewport, across or upward, of a point of the
/// pixel with the given index, of `extent` in that direction:
/// `(index + jitter) / (extent - 1)`.
pub open spec fn spec_pixel_coordinate(index: u64, jitter: Fixed, extent: u64) -> Fixed {
    Fixed::of(index * scale()).spec_add(jitter).spec_div(Fixed::of((extent - 1) * scale()))
}

/// The colour of one sample of the pixel in column `i` and row `j`.
pub open spec fn spec_sample(
    camera: Camera,
    world: World,
    i: u64,
    j: u64,
    image_width: u64,
    image_height: u64,
    draws: PixelDraws,
) -> Color {
    spec_ray_color(
        camera.spec_ray(
            spec_pixel_coordinate(i, draws.du, image_width),
            spec_pixel_coordinate(j, draws.dv, image_height),
            draws.lens,
        ),
        world,
        draws.bounces,
    )
}

/// Whether `color` is a sample of the pixel for some random numbers.
pub open spec fn is_sample(
    color: Color,
    camera: Camera,
    world: World,
    i: u64,
    j: u64,
    image_width: u64,
    image_height: u64,
    max_depth: u64,
) -> bool {
    exists|draws: PixelDraws|
        draws.valid(max_depth) && color == #[trigger] spec_sample(
            camera,
            world,
            i,
            j,
            image_width,
            image_height,
            draws,
        )
}

/// The sum of the colours, from the left.
pub open spec fn spec_sum(colors: Seq<Color>) -> Color
    decreases colors.len(),
{
    if colors.len() == 0 {
        Vec3::spec_zero()
    } else {
        spec_sum(colors.drop_last()).spec_add(colors.last())
    }
}

/// The coordinate in the viewport of a point of a pixel.
pub fn pixel_coordinate(index: u64, jitter: Fixed, extent: u64) -> (res: Fixed)
    requires
        extent >= 1,
    ensures
        res == spec_pixel_coordinate(index, jitter, extent),
{
    Fixed::from_count(index).add(jitter).div(Fixed::from_count(extent - 1))
}

/// One sample of the pixel in column `i` and row `j` of an image of the
/// given size: the light along a ray through a random point of the pixel.
pub fn sample_pixel(
    camera: &Camera,
    world: &World,
    i: u64,
    j: u64,
    image_width: u64,
    image_height: u64,
    max_depth: u64,
) -> (res: Color)
    requires
        image_width >= 1,
        image_height >= 1,
    ensures
        is_sample(res, *camera, *world, i, j, image_width, image_height, max_depth),
{
    let mut rng = rand::thread_rng();
    let du = Fixed::from_raw(gen_range(&mut rng, 0, ONE_RAW));
    let dv = Fixed::from_raw(gen_range(&mut rng, 0, ONE_RAW));

    let u = pixel_coordinate(i, du, image_width);
    let v = pixel_coordinate(j, dv, image_height);

    let ray = camera.get_ray(u, v);
    let color = ray_color(&ray, world, max_depth);
    proof {
        let lens = choose|lens: Vec3|
            lens.in_unit_ball() && lens.z@ == 0 && ray == #[trigger] camera.spec_ray(u, v, lens);
        let bounces = choose|samples: Seq<Vec3>|
            samples.len() == max_depth && all_in_unit_ball(samples) && color
                == #[trigger] spec_ray_color(ray, *world, samples);
        let draws = PixelDraws { du, dv, lens, bounces };
        assert(draws.valid(max_depth));
        assert(color == spec_sample(*camera, *world, i, j, image_width, image_height, draws));
    }
    color
}

/// Whether `color` is the sum of `samples_per_pixel` samples of the pixel
/// for some random numbers.
pub open spec fn is_pixel_color(
    color: Color,
    camera: Camera,
    world: World,
    i: u64,
    j: u64,
    image_width: u64,
    image_height: u64,
    samples_per_pixel: u64,
    max_depth: u64,
) -> bool {
    exists|samples: Seq<Color>|
        {
            &&& samples.len() == samples_per_pixel
            &&& forall|k: int|
                0 <= k < samples.len() ==> is_sample(
                    #[trigger] samples[k],
                    camera,
                    world,
                    i,
                    j,
                    image_width,
                    image_height,
                    max_depth,
                )
            &&& color == #[trigger] spec_sum(samples)
        }
}

/// The colour of the pixel in column `i` and row `j`: the sum of
/// `samples_per_pixel` samples. Without samples it is black.
pub fn pixel_color(
    camera: &Camera,
    world: &World,
    i: u64,
    j: u64,
    image_width: u64,
    image_height: u64,
    samples_per_pixel: u64,
    max_depth: u64,
) -> (res: Color)
    requires
        image_width >= 1,
        image_height >= 1,
    ensures
        is_pixel_color(
            res,
            *camera,
            *world,
            i,
            j,
            image_width,
            image_height,
            samples_per_pixel,
            max_depth,
        ),
        samples_per_pixel == 0 ==> res == Vec3::spec_zero(),
{
    let mut pixel_color = Vec3::zero();
    let ghost mut samples: Seq<Color> = Seq::empty();
    let mut n: u64 = 0;
    while n < samples_per_pixel
        invariant
            n <= samples_per_pixel,
            image_width >= 1,
            image_height >= 1,
            samples.len() == n,
            forall|k: int|
                0 <= k < samples.len() ==> is_sample(
                    #[trigger] samples[k],
                    *camera,
                    *world,
                    i,
                    j,
                    image_width,
                    image_height,
                    max_depth,
                ),
            pixel_color == spec_sum(samples),
        decreases samples_per_pixel - n,
    {
        let sample = sample_pixel(camera, world, i, j, image_width, image_height, max_depth);
        proof {
            assert(samples.push(sample).drop_last() == samples);
            samples = samples.push(sample);
        }
        pixel_color.add_assign(sample);
        n += 1;
    }
    pixel_color
}

/// The colours of the pixels of row `j`, from the left to the right.
pub fn scanline(
    camera: &Camera,
    world: &World,
    j: u64,
    image_width: u64,
    image_height: u64,
    samples_per_pixel: u64,
    max_depth: u64,
) -> (res: Vec<Color>)
    requires
        image_width >= 1,
        image_height >= 1,
    ensures
        res@.len() == image_width,
        forall|i: int|
            0 <= i < image_width ==> is_pixel_color(
                #[trigger] res@[i],
                *camera,
                *world,
                i as u64,
                j,
                image_width,
                image_height,
                samples_per_pixel,
                max_depth,
            ),
{
    let mut row: Vec<Color> = Vec::new();
    let mut i: u64 = 0;
    while i < image_width
        invariant
            i <= image_width,
            image_width >= 1,
            image_height >= 1,
            row@.len() == i,
            forall|k: int|
                0 <= k < i ==> is_pixel_color(
                    #[trigger] row@[k],
                    *camera,
                    *world,
                    k as u64,
                    j,
                    image_width,
                    image_height,
                    samples_per_pixel,
                    max_depth,
                ),
        decreases image_width - i,
    {
        let color = pixel_color(
            camera,
            world,
            i,
            j,
            image_width,
            image_height,
            samples_per_pixel,
            max_depth,
        );
        row.push(color);
        i += 1;
    }
    row
}

} // verus!
