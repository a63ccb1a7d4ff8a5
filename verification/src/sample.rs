//! Audio samples as IEEE-754 single-precision bit patterns.
//!
//! Samples travel through the pipeline as normalized 32-bit floating-point
//! values.  Here a sample is held as the 32 bits of that value, so that the
//! few questions the pipeline asks of a sample (is it a number, is its
//! absolute value at or above a threshold) are questions about integers.

use vstd::prelude::*;

verus! {

/// Bit mask that clears the sign of a single-precision pattern.
pub const MAGNITUDE_MASK: u32 = 0x7FFF_FFFF;

/// Bit pattern of positive infinity; every larger magnitude is not a number.
pub const INFINITY_BITS: u32 = 0x7F80_0000;

/// Bit pattern of the sign alone (negative zero).
pub const SIGN_BIT: u32 = 0x8000_0000;

/// Bit pattern of `0.01`, the amplitude below which audio counts as silence.
pub const SILENCE_THRESHOLD_BITS: u32 = 0x3C23_D70A;

/// One normalized audio sample, held as its single-precision bit pattern.
#[derive(Clone, Copy, Debug, PartialEq, Eq, Structural)]
pub struct Sample {
    pub bits: u32,
}

impl Sample {
    /// The pattern of the sample's absolute value.
    pub open spec fn magnitude(self) -> u32 {
        self.bits & MAGNITUDE_MASK
    }

    /// The pattern encodes no number.
    pub open spec fn is_nan(self) -> bool {
        self.magnitude() > INFINITY_BITS
    }

    /// The pattern carries a set sign bit.
    pub open spec fn is_negative(self) -> bool {
        self.bits >= SIGN_BIT
    }

    /// `|self| >= threshold` as single-precision comparison decides it: false
    /// when either side is not a number, true against any negative threshold
    /// (negative zero included), and otherwise the order of the two
    /// non-negative patterns, which is the order of the numbers they encode.
    pub open spec fn reaches(self, threshold: Sample) -> bool {
        &&& !self.is_nan()
        &&& !threshold.is_nan()
        &&& (threshold.is_negative() || self.magnitude() >= threshold.bits)
    }

    /// The sample that holds the given bit pattern.
    pub fn from_bits(bits: u32) -> (s: Sample)
        ensures
            s.bits == bits,
    {
        Sample { bits }
    }

    /// The level below which audio counts as silence.
    pub fn silence_threshold() -> (s: Sample)
        ensures
            s.bits == SILENCE_THRESHOLD_BITS,
    {
        Sample { bits: SILENCE_THRESHOLD_BITS }
    }

    /// Whether the sample's absolute value is at or above `threshold`.
    pub fn at_or_above(self, threshold: Sample) -> (loud: bool)
        ensures
            loud == self.reaches(threshold),
    {
        let magnitude: u32 = self.bits & MAGNITUDE_MASK;
        let threshold_magnitude: u32 = threshold.bits & MAGNITUDE_MASK;
        if magnitude > INFINITY_BITS || threshold_magnitude > INFINITY_BITS {
            false
        } else if threshold.bits >= SIGN_BIT {
            true
        } else {
            magnitude >= threshold.bits
        }
    }
}

} // verus!
