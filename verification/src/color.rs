//! Colours as they are written to an image: levels from 0 to 255.

use vstd::prelude::*;
use vstd::arithmetic::div_mod::lemma_div_multiples_vanish;
use crate::arith::{quot, scale};
use crate::fixed::Fixed;
use crate::text::{append_decimal, append_space, decimal};
use crate::vec::Vec3;

verus! {

/// Raw pattern of the largest brightness of a channel, `0.999`.
pub const ALMOST_ONE_RAW: i64 = 4_290_672_328;

/// The largest brightness of a channel, `0.999`.
pub open spec fn almost_one() -> Fixed {
    Fixed::of(quot(999 * scale(), 1000))
}

/// The level, from 0 to 255, of a channel whose value `sum` is the sum of
/// `samples_per_pixels` samples: the average, gamma-corrected by a square
/// root, clamped to `[0, 0.999]`, times 256, without its fraction.
pub open spec fn spec_level(sum: Fixed, samples_per_pixels: u64) -> int {
    Fixed::of(256 * scale()).spec_mul(
        sum.spec_div(Fixed::of(samples_per_pixels * scale())).spec_sqrt().spec_clamp(
            Fixed::of(0),
            almost_one(),
        ),
    ).spec_trunc()
}

/// The level of a channel lies between 0 and 255.
pub proof fn lemma_level_range(sum: Fixed, samples_per_pixels: u64)
    ensures
        0 <= spec_level(sum, samples_per_pixels) <= 255,
{
    reveal(Fixed::spec_mul);
    let v = sum.spec_div(Fixed::of(samples_per_pixels * scale())).spec_sqrt().spec_clamp(
        Fixed::of(0),
        almost_one(),
    );
    assert(quot(999 * scale(), 1000) == ALMOST_ONE_RAW) by {
        assert(999 * scale() == 4_290_672_328_704);
        assert(4_290_672_328_704int / 1000 == 4_290_672_328);
    }
    assert(0 <= v@ <= ALMOST_ONE_RAW);
    assert(256 * scale() * v@ == (256 * v@) * scale()) by (nonlinear_arith);
    lemma_div_multiples_vanish(256 * v@, scale());
    assert(Fixed::of(256 * scale()).spec_mul(v)@ == 256 * v@);
    assert(0 <= (256 * v@) / scale() <= 255);
}

/// The text of a pixel: the three levels in decimal, separated by spaces.
pub open spec fn spec_pixel_text(red: int, green: int, blue: int) -> Seq<char> {
    decimal(red as nat).push(' ') + decimal(green as nat).push(' ') + decimal(blue as nat)
}

impl Vec3 {
    /// The level, from 0 to 255, of one channel.
    fn level(sum: Fixed, samples_per_pixels: u64) -> (res: u64)
        ensures
            res == spec_level(sum, samples_per_pixels),
            res <= 255,
    {
        proof {
            lemma_level_range(sum, samples_per_pixels);
            assert(quot(999 * scale(), 1000) == ALMOST_ONE_RAW) by {
                assert(999 * scale() == 4_290_672_328_704);
                assert(4_290_672_328_704int / 1000 == 4_290_672_328);
            }
        }
        let average = sum.div(Fixed::from_count(samples_per_pixels));
        let corrected = average.sqrt().clamp(Fixed::from_int(0), Fixed::from_raw(ALMOST_ONE_RAW));
        Fixed::from_int(256).mul(corrected).trunc() as u64
    }

    /// The levels of the three channels of a pixel whose colour `self` is
    /// the sum of `samples_per_pixels` samples.
    pub fn to_levels(&self, samples_per_pixels: u64) -> (res: (u64, u64, u64))
        ensures
            res.0 == spec_level(self.x, samples_per_pixels),
            res.1 == spec_level(self.y, samples_per_pixels),
            res.2 == spec_level(self.z, samples_per_pixels),
            res.0 <= 255 && res.1 <= 255 && res.2 <= 255,
    {
        (
            Vec3::level(self.x, samples_per_pixels),
            Vec3::level(self.y, samples_per_pixels),
            Vec3::level(self.z, samples_per_pixels),
        )
    }

    /// The line of text for a pixel whose colour `self` is the sum of
    /// `samples_per_pixels` samples.
    pub fn format_color(&self, samples_per_pixels: u64) -> (res: String)
        ensures
            res@ == spec_pixel_text(
                spec_level(self.x, samples_per_pixels),
                spec_level(self.y, samples_per_pixels),
                spec_level(self.z, samples_per_pixels),
            ),
    {
        let (ir, ig, ib) = self.to_levels(samples_per_pixels);
        let mut text = String::new();
        append_decimal(&mut text, ir);
        append_space(&mut text);
        append_decimal(&mut text, ig);
        append_space(&mut text);
        append_decimal(&mut text, ib);
        assert(text@ =~= spec_pixel_text(ir as int, ig as int, ib as int));
        text
    }
}

} // verus!
