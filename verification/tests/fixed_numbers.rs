use pathtracer::arith::isqrt_u128;
use pathtracer::fixed::{Fixed, MAX_RAW, ONE_RAW};

fn fx(x: f64) -> Fixed {
    Fixed::from_raw((x * 4294967296.0).round() as i64)
}

#[test]
fn integer_square_root_rounds_down() {
    assert_eq!(isqrt_u128(0), 0);
    assert_eq!(isqrt_u128(1), 1);
    assert_eq!(isqrt_u128(3), 1);
    assert_eq!(isqrt_u128(4), 2);
    assert_eq!(isqrt_u128(99), 9);
    assert_eq!(isqrt_u128(100), 10);
    assert_eq!(isqrt_u128(1 << 64), 1 << 32);
    assert_eq!(isqrt_u128((1 << 64) - 1), (1 << 32) - 1);
    assert_eq!(isqrt_u128(u128::MAX), u64::MAX);
}

#[test]
fn whole_numbers_have_exact_patterns() {
    assert_eq!(Fixed::from_int(0).to_raw(), 0);
    assert_eq!(Fixed::from_int(1).to_raw(), ONE_RAW);
    assert_eq!(Fixed::from_int(-3).to_raw(), -3 * ONE_RAW);
    assert_eq!(Fixed::from_count(7).to_raw(), 7 * ONE_RAW);
}

#[test]
fn whole_numbers_saturate() {
    assert_eq!(Fixed::from_int(1 << 31).to_raw(), MAX_RAW);
    assert_eq!(Fixed::from_int(-(1 << 31)).to_raw(), -MAX_RAW);
    assert_eq!(Fixed::from_int(i64::MIN).to_raw(), -MAX_RAW);
    assert_eq!(Fixed::from_count(u64::MAX).to_raw(), MAX_RAW);
}

#[test]
fn lowest_pattern_reads_as_lowest_number() {
    assert_eq!(Fixed::from_raw(i64::MIN).to_raw(), -MAX_RAW);
    assert_eq!(Fixed { raw: i64::MIN }.to_raw(), -MAX_RAW);
    assert_eq!(Fixed { raw: i64::MIN }.neg().to_raw(), MAX_RAW);
    assert!(Fixed { raw: i64::MIN }.le(Fixed::from_raw(-MAX_RAW)));
    assert!(Fixed { raw: i64::MIN }.ge(Fixed::from_raw(-MAX_RAW)));
}

#[test]
fn sums_and_differences_are_exact_in_range() {
    assert_eq!(fx(1.5).add(fx(2.25)).to_raw(), fx(3.75).to_raw());
    assert_eq!(fx(1.5).sub(fx(2.25)).to_raw(), fx(-0.75).to_raw());
    assert_eq!(fx(-1.5).neg().to_raw(), fx(1.5).to_raw());
    assert_eq!(fx(-1.5).abs().to_raw(), fx(1.5).to_raw());
    assert_eq!(fx(1.5).abs().to_raw(), fx(1.5).to_raw());
}

#[test]
fn sums_and_differences_saturate() {
    let max = Fixed::from_raw(MAX_RAW);
    let min = Fixed::from_raw(-MAX_RAW);
    assert_eq!(max.add(Fixed::from_raw(1)).to_raw(), MAX_RAW);
    assert_eq!(max.add(max).to_raw(), MAX_RAW);
    assert_eq!(min.sub(Fixed::from_raw(1)).to_raw(), -MAX_RAW);
    assert_eq!(min.add(min).to_raw(), -MAX_RAW);
    assert_eq!(max.add(min).to_raw(), 0);
}

#[test]
fn products_round_toward_zero() {
    assert_eq!(fx(1.5).mul(fx(2.0)).to_raw(), fx(3.0).to_raw());
    assert_eq!(fx(-1.5).mul(fx(2.0)).to_raw(), fx(-3.0).to_raw());
    assert_eq!(Fixed::from_raw(3).mul(fx(0.5)).to_raw(), 1);
    assert_eq!(Fixed::from_raw(-3).mul(fx(0.5)).to_raw(), -1);
    assert_eq!(Fixed::from_raw(-1).mul(fx(0.5)).to_raw(), 0);
    assert_eq!(Fixed::from_raw(1).mul(Fixed::from_raw(1)).to_raw(), 0);
}

#[test]
fn products_saturate() {
    let big = Fixed::from_int(1 << 20);
    assert_eq!(big.mul(big).to_raw(), MAX_RAW);
    assert_eq!(big.mul(big.neg()).to_raw(), -MAX_RAW);
    let max = Fixed::from_raw(MAX_RAW);
    assert_eq!(max.mul(max).to_raw(), MAX_RAW);
    assert_eq!(max.mul(Fixed::from_int(1)).to_raw(), MAX_RAW);
}

#[test]
fn quotients_round_toward_zero() {
    assert_eq!(fx(3.0).div(fx(2.0)).to_raw(), fx(1.5).to_raw());
    assert_eq!(Fixed::from_int(1).div(Fixed::from_int(10)).to_raw(), 429_496_729);
    assert_eq!(Fixed::from_int(1).div(Fixed::from_int(3)).to_raw(), 1_431_655_765);
    assert_eq!(Fixed::from_int(-1).div(Fixed::from_int(3)).to_raw(), -1_431_655_765);
    assert_eq!(Fixed::from_int(1).div(Fixed::from_int(-3)).to_raw(), -1_431_655_765);
    assert_eq!(Fixed::from_int(-1).div(Fixed::from_int(-3)).to_raw(), 1_431_655_765);
    assert_eq!(Fixed::from_int(7).div(Fixed::from_int(10)).to_raw(), 3_006_477_107);
}

#[test]
fn quotients_saturate() {
    let tiny = Fixed::from_raw(1);
    assert_eq!(Fixed::from_int(1 << 20).div(tiny).to_raw(), MAX_RAW);
    assert_eq!(Fixed::from_int(-(1 << 20)).div(tiny).to_raw(), -MAX_RAW);
}

#[test]
fn quotient_by_zero_saturates_by_sign() {
    let zero = Fixed::from_int(0);
    assert_eq!(fx(2.5).div(zero).to_raw(), MAX_RAW);
    assert_eq!(fx(-2.5).div(zero).to_raw(), -MAX_RAW);
    assert_eq!(zero.div(zero).to_raw(), 0);
}

#[test]
fn square_roots_round_down() {
    assert_eq!(Fixed::from_int(4).sqrt().to_raw(), Fixed::from_int(2).to_raw());
    assert_eq!(Fixed::from_int(1).sqrt().to_raw(), ONE_RAW);
    assert_eq!(fx(0.25).sqrt().to_raw(), fx(0.5).to_raw());
    assert_eq!(Fixed::from_int(2).sqrt().to_raw(), 6_074_000_999);
    assert_eq!(Fixed::from_raw(1).sqrt().to_raw(), 65_536);
    assert_eq!(Fixed::from_raw(MAX_RAW).sqrt().to_raw(), 199_032_864_766_430);
}

#[test]
fn square_root_of_nothing_positive_is_zero() {
    assert_eq!(Fixed::from_int(0).sqrt().to_raw(), 0);
    assert_eq!(Fixed::from_int(-4).sqrt().to_raw(), 0);
    assert_eq!(Fixed::from_raw(-1).sqrt().to_raw(), 0);
}

#[test]
fn comparisons_follow_the_values() {
    assert!(fx(1.0).lt(fx(1.5)));
    assert!(!fx(1.5).lt(fx(1.5)));
    assert!(fx(1.5).le(fx(1.5)));
    assert!(fx(-1.0).gt(fx(-1.5)));
    assert!(fx(-1.5).ge(fx(-1.5)));
    assert!(!fx(-1.5).gt(fx(-1.5)));
    assert!(Fixed::from_int(0).is_zero());
    assert!(!Fixed::from_raw(1).is_zero());
}

#[test]
fn clamp_moves_into_the_interval() {
    let lo = fx(0.0);
    let hi = fx(0.999);
    assert_eq!(fx(0.5).clamp(lo, hi).to_raw(), fx(0.5).to_raw());
    assert_eq!(fx(-0.5).clamp(lo, hi).to_raw(), 0);
    assert_eq!(fx(1.5).clamp(lo, hi).to_raw(), hi.to_raw());
}

#[test]
fn trunc_drops_the_fraction() {
    assert_eq!(fx(2.75).trunc(), 2);
    assert_eq!(fx(-2.75).trunc(), -2);
    assert_eq!(fx(0.999).trunc(), 0);
    assert_eq!(Fixed::from_int(255).trunc(), 255);
}
