//! Lengths as fixed-point integers, and sizes as the host names them.

use vstd::prelude::*;

verus! {

/// How many units of a [`PixelLength`] make one pixel: 2 to the power 22.
pub const UNITS_PER_PIXEL: i64 = 4194304;

/// How many units of a [`PixelLength`] make one sixty-fourth of a pixel.
pub const UNITS_PER_SIXTY_FOURTH: i64 = 65536;

/// A requested font size in points, held as the bits of its value in
/// double precision. The shaper never reads the number: two sizes are the
/// same exactly when their bits are.
#[derive(Clone, Copy, Debug, PartialEq, Eq, Structural)]
pub struct FontSize {
    pub bits: u64,
}

/// A length in pixels with sub-pixel precision, held as a count of
/// 1/4194304 pixel. Every value that a face reports in 26.6 or 16.16
/// fixed point has an exact image here.
#[derive(Clone, Copy, Debug, PartialEq, Eq, Structural)]
pub struct PixelLength {
    pub units: i64,
}

impl PixelLength {
    /// The length that `value` stands for in 26.6 fixed point: `value / 64` pixels.
    pub open spec fn spec_from_26_6(value: i32) -> PixelLength {
        PixelLength { units: (value * 65536) as i64 }
    }

    /// Converts a 26.6 fixed-point value: the result is `value / 64` pixels.
    pub fn from_26_6(value: i32) -> (r: PixelLength)
        ensures
            r == Self::spec_from_26_6(value),
            r.units == value * 65536,
    {
        let wide: i64 = value as i64;
        PixelLength { units: wide * UNITS_PER_SIXTY_FOURTH }
    }
}

} // verus!
