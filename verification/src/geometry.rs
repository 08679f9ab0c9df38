//! Lengths on a surface.
//!
//! A length is a whole number of units, fine enough to hold every
//! single-precision coordinate of at least 1/32 pixel exactly.

use vstd::prelude::*;

verus! {

/// Units in one pixel.
pub const PIXEL: i64 = 268_435_456;

/// The largest length that is worked with: more than any surface measures.
pub const LENGTH_MAX: i64 = 1_152_921_504_606_846_976;

/// True of a length or a coordinate that stays clear of the machine limits.
pub open spec fn in_range(length: int) -> bool {
    -LENGTH_MAX <= length <= LENGTH_MAX
}

/// `pixels` whole pixels, as a length.
pub fn px(pixels: u32) -> (length: i64)
    ensures
        length == pixels * PIXEL,
        0 <= length <= LENGTH_MAX,
{
    (pixels as i64) * PIXEL
}

/// The larger of two numbers.
pub open spec fn larger(a: int, b: int) -> int {
    if a >= b {
        a
    } else {
        b
    }
}

/// The smaller of two numbers.
pub open spec fn smaller(a: int, b: int) -> int {
    if a <= b {
        a
    } else {
        b
    }
}

/// The larger of two lengths.
pub fn max_length(a: i64, b: i64) -> (length: i64)
    ensures
        length == larger(a as int, b as int),
{
    if a >= b {
        a
    } else {
        b
    }
}

/// The smaller of two lengths.
pub fn min_length(a: i64, b: i64) -> (length: i64)
    ensures
        length == smaller(a as int, b as int),
{
    if a <= b {
        a
    } else {
        b
    }
}

/// Half of a length, rounded down.
pub fn half(length: i64) -> (halved: i64)
    requires
        i64::MIN < length,
    ensures
        halved == length as int / 2,
{
    if length >= 0 {
        length / 2
    } else {
        let magnitude: i64 = -(length + 1);
        -(magnitude / 2) - 1
    }
}

/// A length in whole pixels, rounded to the nearest one, halves away from zero.
pub open spec fn nearest_pixel(length: int) -> int {
    if length >= 0 {
        (length + PIXEL / 2) / (PIXEL as int)
    } else {
        -((-length + PIXEL / 2) / (PIXEL as int))
    }
}

/// A number held between the limits of 32-bit integers.
pub open spec fn clamped_to_i32(value: int) -> int {
    smaller(larger(value, i32::MIN as int), i32::MAX as int)
}

/// A length in whole pixels, rounded to the nearest one and held between the
/// limits of the integers.
pub fn round_px(length: i64) -> (pixels: i32)
    ensures
        pixels == clamped_to_i32(nearest_pixel(length as int)),
{
    let wide: i128 = length as i128;
    let half_pixel: i128 = (PIXEL / 2) as i128;
    let rounded: i128 = if wide >= 0 {
        (wide + half_pixel) / (PIXEL as i128)
    } else {
        -((-wide + half_pixel) / (PIXEL as i128))
    };
    if rounded < (i32::MIN as i128) {
        i32::MIN
    } else if rounded > (i32::MAX as i128) {
        i32::MAX
    } else {
        rounded as i32
    }
}

/// The larger of two numbers is one of them and at least the other, and so the smaller
/// is one of them and at most the other.
pub proof fn the_larger_and_the_smaller(a: int, b: int)
    ensures
        larger(a, b) == a || larger(a, b) == b,
        larger(a, b) >= a && larger(a, b) >= b,
        smaller(a, b) == a || smaller(a, b) == b,
        smaller(a, b) <= a && smaller(a, b) <= b,
{
}

/// A length is rounded to the pixel it is nearest to, and away from zero where two are
/// equally near.
pub proof fn lengths_are_rounded_to_the_nearest_pixel(length: int)
    ensures
        ({
            let pixels = nearest_pixel(length);
            &&& length >= 0 ==> 2 * length - PIXEL < 2 * pixels * PIXEL <= 2 * length + PIXEL
            &&& length <= 0 ==> 2 * length - PIXEL <= 2 * pixels * PIXEL < 2 * length + PIXEL
        }),
{
}

/// A number that a 32-bit integer can hold stays as it is, and any other becomes the
/// one that is nearest.
pub proof fn numbers_are_held_between_the_limits(value: int)
    ensures
        i32::MIN <= value <= i32::MAX ==> clamped_to_i32(value) == value,
        value > i32::MAX ==> clamped_to_i32(value) == i32::MAX,
        value < i32::MIN ==> clamped_to_i32(value) == i32::MIN,
{
}

} // verus!
