//! The priority with which a server enters an election.

use vstd::prelude::*;

verus! {

/// A single-precision number, held as its IEEE 754 bit pattern: the sign bit,
/// then exponent and fraction, which together order numbers of one sign.
#[derive(Clone, Copy, Debug, PartialEq, Eq, Structural)]
pub struct Priority {
    pub bits: u32,
}

/// The lowest bit pattern with the sign bit.
pub const SIGN: u32 = 0x8000_0000;

/// The bit pattern of infinity; larger ones without the sign bit are not
/// numbers.
pub const INFINITY: u32 = 0x7f80_0000;

impl Priority {
    /// The bits without the sign.
    pub open spec fn magnitude(self) -> int {
        if self.bits >= SIGN {
            self.bits - SIGN
        } else {
            self.bits as int
        }
    }

    /// Whether this is a number, an infinity among them.
    pub open spec fn is_number(self) -> bool {
        self.magnitude() <= INFINITY
    }

    /// An integer that orders numbers as their values do; it is the same for
    /// both zeros.
    pub open spec fn rank(self) -> int {
        if self.bits >= SIGN {
            -self.magnitude()
        } else {
            self.magnitude()
        }
    }

    /// Whether this is the greater number. What is not a number is neither
    /// greater than anything nor less.
    pub open spec fn exceeds_spec(self, other: Priority) -> bool {
        self.is_number() && other.is_number() && self.rank() > other.rank()
    }

    /// Whether both are numbers of the same value.
    pub open spec fn equals_spec(self, other: Priority) -> bool {
        self.is_number() && other.is_number() && self.rank() == other.rank()
    }

    fn signed(self) -> (rank: i64)
        ensures
            rank == self.rank(),
    {
        if self.bits >= SIGN {
            -((self.bits - SIGN) as i64)
        } else {
            self.bits as i64
        }
    }

    fn counts(self) -> (number: bool)
        ensures
            number == self.is_number(),
    {
        if self.bits >= SIGN {
            self.bits - SIGN <= INFINITY
        } else {
            self.bits <= INFINITY
        }
    }

    /// Whether this is the greater number.
    pub fn exceeds(self, other: Priority) -> (greater: bool)
        ensures
            greater == self.exceeds_spec(other),
    {
        self.counts() && other.counts() && self.signed() > other.signed()
    }

    /// Whether both are numbers of the same value.
    pub fn equals(self, other: Priority) -> (equal: bool)
        ensures
            equal == self.equals_spec(other),
    {
        self.counts() && other.counts() && self.signed() == other.signed()
    }
}

} // verus!
