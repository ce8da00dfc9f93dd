//! Scores, as the bits of IEEE 754 double-precision numbers.

use vstd::prelude::*;

verus! {

/// A score. It carries the bits of a double-precision number; what the library
/// needs of it is the order.
#[derive(Clone, Copy, Debug, PartialEq, Eq, Structural)]
pub struct Score {
    pub bits: u64,
}

impl Score {
    /// The magnitude: the bits without the sign.
    pub open spec fn magnitude(self) -> int {
        self.bits as int % 0x8000_0000_0000_0000
    }

    /// Not a number: the magnitude lies beyond that of infinity.
    pub open spec fn is_nan(self) -> bool {
        self.magnitude() > 0x7ff0_0000_0000_0000
    }

    /// An integer by which scores that are numbers are ordered as the numbers
    /// are. Both zeros have the rank 0.
    pub open spec fn rank(self) -> int {
        if self.bits >= 0x8000_0000_0000_0000 {
            -self.magnitude()
        } else {
            self.magnitude()
        }
    }

    /// Whether `self` is the greater number. Nothing is greater than what is not
    /// a number, and what is not a number is greater than nothing.
    pub open spec fn exceeds(self, other: Score) -> bool {
        !self.is_nan() && !other.is_nan() && self.rank() > other.rank()
    }

    /// The score zero.
    pub fn zero() -> (score: Score)
        ensures
            score == (Score { bits: 0 }),
            score.rank() == 0,
            !score.is_nan(),
    {
        Score { bits: 0 }
    }

    /// Whether the score is not a number.
    pub fn nan(&self) -> (nan: bool)
        ensures
            nan == self.is_nan(),
    {
        self.bits % 0x8000_0000_0000_0000 > 0x7ff0_0000_0000_0000
    }

    /// The integer by which scores are ordered.
    pub fn order_key(&self) -> (key: i128)
        ensures
            key == self.rank(),
    {
        let magnitude: i128 = (self.bits % 0x8000_0000_0000_0000) as i128;
        if self.bits >= 0x8000_0000_0000_0000 {
            -magnitude
        } else {
            magnitude
        }
    }

    /// Whether `self` is the greater number.
    pub fn is_greater_than(&self, other: &Score) -> (greater: bool)
        ensures
            greater == self.exceeds(*other),
    {
        !self.nan() && !other.nan() && self.order_key() > other.order_key()
    }
}

} // verus!
