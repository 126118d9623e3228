use pathtracer::camera::Camera;
use pathtracer::fixed::{Fixed, MAX_RAW, ONE_RAW};
use pathtracer::hit::World;
use pathtracer::material::{Lambertian, Material, Metal};
use pathtracer::ray::Ray;
use pathtracer::render::{
    background, pixel_color, pixel_coordinate, ray_color, ray_color_with, sample_pixel, scanline,
};
use pathtracer::sphere::Sphere;
use pathtracer::text::{append_decimal, append_space, image_header};
use pathtracer::vec::Vec3;

fn fx(x: f64) -> Fixed {
    Fixed::from_raw((x * 4294967296.0).round() as i64)
}

fn v(x: f64, y: f64, z: f64) -> Vec3 {
    Vec3::new(fx(x), fx(y), fx(z))
}

fn raw(a: Vec3) -> (i64, i64, i64) {
    (a.x().to_raw(), a.y().to_raw(), a.z().to_raw())
}

fn grey_ball() -> World {
    vec![Sphere::new(v(0.0, 0.0, -1.0), fx(0.5), Material::Lambertian(Lambertian::new(v(0.5, 0.5, 0.5))))]
}

fn camera() -> Camera {
    Camera::new(v(0.0, 0.0, 0.0), v(0.0, 0.0, -1.0), v(0.0, 1.0, 0.0), fx(1.0), fx(2.0), fx(0.0), fx(1.0))
}

#[test]
fn ray_color_without_depth_is_black() {
    let world = grey_ball();
    let hitting = Ray::new(v(0.0, 0.0, 0.0), v(0.0, 0.0, -1.0));
    let missing = Ray::new(v(0.0, 0.0, 0.0), v(0.0, 1.0, 0.0));
    assert_eq!(raw(ray_color(&hitting, &world, 0)), (0, 0, 0));
    assert_eq!(raw(ray_color(&missing, &world, 0)), (0, 0, 0));
    assert_eq!(raw(ray_color(&missing, &Vec::new(), 0)), (0, 0, 0));
    assert_eq!(raw(ray_color_with(&missing, &world, &Vec::new())), (0, 0, 0));
}

#[test]
fn missing_ray_sees_the_gradient() {
    let world = grey_ball();
    let down = Ray::new(v(0.0, 0.0, 0.0), v(0.0, -1.0, 0.0));
    assert_eq!(raw(ray_color(&down, &world, 5)), (ONE_RAW, ONE_RAW, ONE_RAW));
    let up = Ray::new(v(0.0, 0.0, 0.0), v(0.0, 1.0, 0.0));
    assert_eq!(raw(ray_color(&up, &world, 5)), (ONE_RAW / 2, 3_006_477_107, ONE_RAW));
    let sideways = Ray::new(v(0.0, 0.0, 0.0), v(1.0, 0.0, 0.0));
    assert_eq!(raw(ray_color(&sideways, &world, 1)), (3_221_225_472, 3_650_722_201, ONE_RAW));
}

#[test]
fn background_blends_white_and_blue() {
    assert_eq!(raw(background(&Ray::new(v(0.0, 0.0, 0.0), v(0.0, -3.0, 0.0)))), (ONE_RAW, ONE_RAW, ONE_RAW));
    assert_eq!(raw(background(&Ray::new(v(1.0, 1.0, 1.0), v(0.0, 0.25, 0.0)))), (ONE_RAW / 2, 3_006_477_107, ONE_RAW));
    assert_eq!(raw(background(&Ray::new(v(0.0, 0.0, 0.0), v(0.0, 1.0, 1.0)))), (2_461_975_347, 3_195_172_126, ONE_RAW));
    assert_eq!(raw(background(&Ray::new(v(0.0, 0.0, 0.0), v(0.0, 0.0, 0.0)))), (3_221_225_472, 3_650_722_201, ONE_RAW));
}

#[test]
fn one_bounce_off_a_matte_ball() {
    let world = grey_ball();
    let r = Ray::new(v(0.0, 0.0, 0.0), v(0.0, 0.0, -1.0));
    let two = vec![v(0.0, 0.5, 0.0), Vec3::zero()];
    assert_eq!(raw(ray_color_with(&r, &world, &two)), (1_230_987_673, 1_597_586_063, 2_147_483_648));
    let one = vec![v(0.0, 0.5, 0.0)];
    assert_eq!(raw(ray_color_with(&r, &world, &one)), (0, 0, 0));
}

#[test]
fn absorbed_ray_is_black() {
    let world: World = vec![Sphere::new(v(0.0, 0.0, -1.0), fx(0.5), Material::Metal(Metal::new(v(1.0, 1.0, 1.0), fx(1.0))))];
    let r = Ray::new(v(0.0, 0.0, 0.0), v(0.0, 0.0, -1.0));
    let samples = vec![v(0.0, 0.0, -1.0), Vec3::zero(), Vec3::zero()];
    assert_eq!(raw(ray_color_with(&r, &world, &samples)), (0, 0, 0));
}

#[test]
fn mirror_shows_the_sky() {
    let world: World = vec![Sphere::new(v(0.0, 0.0, -1.0), fx(0.5), Material::Metal(Metal::new(v(0.8, 0.6, 0.2), fx(0.0))))];
    let r = Ray::new(v(0.0, 0.0, 0.0), v(0.0, 0.0, -1.0));
    let seen = ray_color(&r, &world, 3);
    let sky = background(&Ray::new(v(0.0, 0.0, -0.5), v(0.0, 0.0, 1.0)));
    assert_eq!(raw(seen), raw(v(0.8, 0.6, 0.2).mul(sky)));
}

#[test]
fn ray_color_stays_within_the_attenuated_sky() {
    let world = grey_ball();
    let r = Ray::new(v(0.0, 0.0, 0.0), v(0.0, 0.0, -1.0));
    for _ in 0..50 {
        let c = ray_color(&r, &world, 4);
        for channel in [c.x(), c.y(), c.z()] {
            assert!(channel.ge(Fixed::from_int(0)) && channel.le(fx(0.5)));
        }
    }
}

#[test]
fn pixel_coordinate_spreads_over_the_image() {
    assert_eq!(pixel_coordinate(3, fx(0.5), 8).to_raw(), fx(0.5).to_raw());
    assert_eq!(pixel_coordinate(0, fx(0.0), 8).to_raw(), 0);
    assert_eq!(pixel_coordinate(7, fx(0.0), 8).to_raw(), ONE_RAW);
    assert_eq!(pixel_coordinate(511, fx(0.0), 512).to_raw(), ONE_RAW);
    assert_eq!(pixel_coordinate(2, fx(0.25), 1).to_raw(), MAX_RAW);
    assert_eq!(pixel_coordinate(0, fx(0.0), 1).to_raw(), 0);
}

#[test]
fn pixel_without_samples_is_black() {
    assert_eq!(raw(pixel_color(&camera(), &grey_ball(), 3, 4, 16, 8, 0, 5)), (0, 0, 0));
}

#[test]
fn pixel_sums_its_samples() {
    let empty: World = Vec::new();
    let c = pixel_color(&camera(), &empty, 8, 4, 16, 8, 10, 5);
    assert!(c.z().to_raw() == 10 * ONE_RAW);
    assert!(c.x().ge(Fixed::from_int(5)) && c.x().le(Fixed::from_int(10)));
    assert!(c.y().ge(Fixed::from_int(7)) && c.y().le(Fixed::from_int(10)));
    assert_eq!(raw(pixel_color(&camera(), &empty, 8, 4, 16, 8, 10, 0)), (0, 0, 0));
}

#[test]
fn pixel_sample_of_the_sky() {
    let empty: World = Vec::new();
    let mut differs = false;
    let first = sample_pixel(&camera(), &empty, 8, 7, 16, 8, 5);
    for _ in 0..50 {
        let c = sample_pixel(&camera(), &empty, 8, 7, 16, 8, 5);
        assert_eq!(c.z().to_raw(), ONE_RAW);
        assert!(c.x().ge(fx(0.5)) && c.x().le(fx(1.0)));
        differs = differs || raw(c) != raw(first);
    }
    assert!(differs);
}

#[test]
fn rendered_pixel_formats_to_levels() {
    let empty: World = Vec::new();
    let text = pixel_color(&camera(), &empty, 8, 4, 16, 8, 4, 5).format_color(4);
    let levels: Vec<u32> = text.split(' ').map(|s| s.parse().unwrap()).collect();
    assert_eq!(levels.len(), 3);
    assert_eq!(levels[2], 255);
    assert!(levels[0] >= 181 && levels[0] <= 255);
}

#[test]
fn scanline_has_a_colour_for_each_column() {
    let empty: World = Vec::new();
    let row = scanline(&camera(), &empty, 0, 6, 4, 3, 5);
    assert_eq!(row.len(), 6);
    for c in row {
        assert_eq!(c.z().to_raw(), 3 * ONE_RAW);
        assert!(c.x().ge(fx(1.5)) && c.x().le(fx(3.0)));
    }
    let top = scanline(&camera(), &empty, 3, 1, 4, 2, 5);
    assert_eq!(top.len(), 1);
    let black = scanline(&camera(), &grey_ball(), 2, 5, 4, 0, 5);
    assert_eq!(black.len(), 5);
    for c in black {
        assert_eq!(raw(c), (0, 0, 0));
    }
}

#[test]
fn image_header_names_format_size_and_depth() {
    assert_eq!(image_header(512, 288), "P3\n512 288\n255");
    assert_eq!(image_header(1, 1), "P3\n1 1\n255");
    assert_eq!(image_header(0, 10), "P3\n0 10\n255");
    assert_eq!(image_header(u64::MAX, 1000), "P3\n18446744073709551615 1000\n255");
}

#[test]
fn decimal_text_is_appended() {
    let mut text = String::from("n=");
    append_decimal(&mut text, 0);
    append_space(&mut text);
    append_decimal(&mut text, 9);
    append_space(&mut text);
    append_decimal(&mut text, 10);
    append_space(&mut text);
    append_decimal(&mut text, 1234567890);
    assert_eq!(text, "n=0 9 10 1234567890");
}

#[test]
fn small_image_of_four_spheres() {
    let world: World = vec![
        Sphere::new(v(0.0, -100.5, -1.0), fx(100.0), Material::Lambertian(Lambertian::new(v(0.8, 0.8, 0.0)))),
        Sphere::new(v(0.0, 0.0, -1.0), fx(0.5), Material::Lambertian(Lambertian::new(v(0.7, 0.3, 0.3)))),
        Sphere::new(v(-1.0, 0.0, -1.0), fx(0.5), Material::Metal(Metal::new(v(0.8, 0.8, 0.8), fx(0.3)))),
        Sphere::new(v(1.0, 0.0, -1.0), fx(0.5), Material::Metal(Metal::new(v(0.8, 0.6, 0.2), fx(1.0)))),
    ];
    let camera = Camera::new(v(0.0, 0.0, 0.0), v(0.0, 0.0, -1.0), v(0.0, 1.0, 0.0), fx(1.0), fx(16.0 / 9.0), fx(0.0), fx(1.0));
    let (width, height, samples) = (16, 9, 64);
    let mut image: Vec<Vec<(u64, u64, u64)>> = Vec::new();
    for j in (0..height).rev() {
        let row = scanline(&camera, &world, j, width, height, samples, 5);
        assert_eq!(row.len(), width as usize);
        image.push(row.iter().map(|c| c.to_levels(samples)).collect());
    }
    for row in image.iter() {
        for (r, g, b) in row.iter() {
            assert!(*r <= 255 && *g <= 255 && *b <= 255);
        }
    }
    // The sky at the top is brightest in blue.
    for (r, g, b) in image[0].iter() {
        assert!(*b >= 250 && b >= g && g >= r && *r >= 150);
    }
    // The ground at the bottom is yellow-green: little blue.
    for (r, g, b) in image[8].iter() {
        assert!(*r > 2 * *b && *g > 2 * *b);
    }
    // The ball in the middle is red.
    let (r, g, b) = image[4][8];
    assert!(r > g + 20 && r > b + 20);
}
