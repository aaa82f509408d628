//! The arithmetic that the layout engine needs from its unit of measure.

use vstd::prelude::*;

verus! {

/// A unit in which positions, extents and split weights are measured.
///
/// The editor performs three operations on its coordinates: it measures a
/// count of pixels, it scales an extent by a weight and it moves a position
/// forward by an extent. Each is a function of its arguments, so a layout is
/// a function of the tree and the container.
///
/// An implementation gives each operation twice: as the function that
/// contracts speak of (`of_pixels`, `scaled`, `advanced`) and as the method
/// that computes it (`from_pixels`, `scale`, `advance`).
pub trait Scalar: Copy {
    /// The measure of `pixels` physical pixels.
    spec fn of_pixels(pixels: u32) -> Self;

    /// `self`, taken as an extent, scaled by the proportion `weight`.
    spec fn scaled(self, weight: Self) -> Self;

    /// `self`, taken as a position, moved forward by `extent`.
    spec fn advanced(self, extent: Self) -> Self;

    /// Measures `pixels` physical pixels.
    fn from_pixels(pixels: u32) -> (r: Self)
        ensures
            r == Self::of_pixels(pixels),
    ;

    /// Scales the extent `self` by the proportion `weight`.
    fn scale(self, weight: Self) -> (r: Self)
        ensures
            r == self.scaled(weight),
    ;

    /// Moves the position `self` forward by `extent`.
    fn advance(self, extent: Self) -> (r: Self)
        ensures
            r == self.advanced(extent),
    ;
}

/// One whole, in thousandths.
pub const WHOLE: u64 = 1000;

/// A non-negative decimal fixed-point number with three fractional digits.
///
/// `raw` counts thousandths, so `Milli { raw: 1000 }` is one surface unit or
/// a weight of one whole. Arithmetic that leaves the range of `u64`
/// saturates at `u64::MAX`.
#[derive(Clone, Copy, Debug, PartialEq, Eq, Structural)]
pub struct Milli {
    pub raw: u64,
}

/// `v` clamped to what a `u64` holds.
pub open spec fn saturated(v: int) -> u64 {
    if v > u64::MAX {
        u64::MAX
    } else if v < 0 {
        0
    } else {
        v as u64
    }
}

impl Scalar for Milli {
    open spec fn of_pixels(pixels: u32) -> Milli {
        Milli { raw: (pixels * WHOLE) as u64 }
    }

    open spec fn scaled(self, weight: Milli) -> Milli {
        Milli { raw: saturated(self.raw * weight.raw / (WHOLE as int)) }
    }

    open spec fn advanced(self, extent: Milli) -> Milli {
        Milli { raw: saturated(self.raw + extent.raw) }
    }

    fn from_pixels(pixels: u32) -> (r: Milli) {
        Milli { raw: pixels as u64 * WHOLE }
    }

    fn scale(self, weight: Milli) -> (r: Milli) {
        assert(self.raw * weight.raw <= u64::MAX * u64::MAX) by (nonlinear_arith)
            requires
                self.raw <= u64::MAX,
                weight.raw <= u64::MAX,
        ;
        let product: u128 = (self.raw as u128) * (weight.raw as u128);
        let quotient: u128 = product / (WHOLE as u128);
        if quotient > u64::MAX as u128 {
            Milli { raw: u64::MAX }
        } else {
            Milli { raw: quotient as u64 }
        }
    }

    fn advance(self, extent: Milli) -> (r: Milli) {
        if extent.raw > u64::MAX - self.raw {
            Milli { raw: u64::MAX }
        } else {
            Milli { raw: self.raw + extent.raw }
        }
    }
}

} // verus!
