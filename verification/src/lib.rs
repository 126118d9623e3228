//! A small path tracer over saturating fixed-point arithmetic.
//!
//! Every quantity of the renderer (coordinates, directions, colours, ray
//! parameters) is a [`fixed::Fixed`]: a signed number with 32 fractional bits
//! whose operations round toward zero and saturate instead of overflowing.
//! No operation on numbers or vectors can fail, and the result of each is
//! stated exactly over the integers.
//!
//! - [`arith`] and [`fixed`] hold the numbers, [`vec`] and [`ray`] the
//!   vectors and rays, and [`unit`] what is proved of vectors of length one.
//! - [`hit`] and [`sphere`] find where a ray meets the scene, and
//!   [`material`] says how it is scattered there.
//! - [`camera`] makes the rays, [`render`] gathers the light along them,
//!   and [`color`] and [`text`] write the pixels.
//! - [`rng`] is the one place where randomness enters. Whatever draws
//!   random numbers has a twin that takes them as arguments, and says what
//!   it computes from them.

pub mod arith;
pub mod camera;
pub mod color;
pub mod fixed;
pub mod hit;
pub mod material;
pub mod ray;
pub mod render;
pub mod rng;
pub mod sphere;
pub mod text;
pub mod unit;
pub mod vec;
