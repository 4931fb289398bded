//! The binary digit and its logic and arithmetic tables.
//!
//! Every operation is total over the two digits. The adder and subtractor
//! signals are specified by the integer equation they satisfy, so that the
//! digit-by-digit arithmetic of [`crate::num::unsigned`] can be proved from
//! them by linear reasoning alone.
use vstd::prelude::*;

verus! {

/// A binary digit.
#[derive(Clone, Copy, Debug, PartialEq, Eq, Structural)]
pub enum Bit {
    /// The digit `0`.
    B0,
    /// The digit `1`.
    B1,
}

impl Bit {
    /// The number that the digit stands for.
    pub open spec fn value(self) -> nat {
        match self {
            Bit::B0 => 0,
            Bit::B1 => 1,
        }
    }

    /// The digit that stands for the parity of `n`.
    pub open spec fn of(n: int) -> Bit {
        if n % 2 == 0 {
            Bit::B0
        } else {
            Bit::B1
        }
    }

    /// The other digit.
    pub open spec fn spec_not(self) -> Bit {
        Bit::of(1 - self.value())
    }

    /// `B1` exactly when both digits are `B1`.
    pub open spec fn spec_and(self, rhs: Bit) -> Bit {
        if self == Bit::B1 && rhs == Bit::B1 {
            Bit::B1
        } else {
            Bit::B0
        }
    }

    /// `B1` exactly when at least one digit is `B1`.
    pub open spec fn spec_or(self, rhs: Bit) -> Bit {
        if self == Bit::B1 || rhs == Bit::B1 {
            Bit::B1
        } else {
            Bit::B0
        }
    }

    /// `B1` exactly when the digits differ.
    pub open spec fn spec_xor(self, rhs: Bit) -> Bit {
        if self == rhs {
            Bit::B0
        } else {
            Bit::B1
        }
    }

    /// The sum digit of `self + rhs`.
    pub open spec fn spec_add(self, rhs: Bit) -> Bit {
        Bit::of((self.value() + rhs.value()) as int)
    }

    /// The carry out of `self + rhs`.
    pub open spec fn spec_carry(self, rhs: Bit) -> Bit {
        Bit::of(((self.value() + rhs.value()) / 2) as int)
    }

    /// The sum digit of `self + rhs + c`.
    pub open spec fn spec_full_add(self, rhs: Bit, c: Bit) -> Bit {
        Bit::of((self.value() + rhs.value() + c.value()) as int)
    }

    /// The carry out of `self + rhs + c`.
    pub open spec fn spec_full_carry(self, rhs: Bit, c: Bit) -> Bit {
        Bit::of(((self.value() + rhs.value() + c.value()) / 2) as int)
    }

    /// The difference digit of `self - rhs`.
    pub open spec fn spec_diff(self, rhs: Bit) -> Bit {
        Bit::of(self.value() - rhs.value())
    }

    /// The borrow out of `self - rhs`: `B1` exactly when `self < rhs`.
    pub open spec fn spec_borrow(self, rhs: Bit) -> Bit {
        if self.value() < rhs.value() {
            Bit::B1
        } else {
            Bit::B0
        }
    }

    /// The difference digit of `self - rhs - b`.
    pub open spec fn spec_full_diff(self, rhs: Bit, b: Bit) -> Bit {
        Bit::of(self.value() - rhs.value() - b.value())
    }

    /// The borrow out of `self - rhs - b`: `B1` exactly when
    /// `self < rhs + b`.
    pub open spec fn spec_full_borrow(self, rhs: Bit, b: Bit) -> Bit {
        if self.value() < rhs.value() + b.value() {
            Bit::B1
        } else {
            Bit::B0
        }
    }

    /// The digit as a machine integer.
    pub fn to_usize(self) -> (n: usize)
        ensures
            n == self.value(),
    {
        match self {
            Bit::B0 => 0,
            Bit::B1 => 1,
        }
    }

    /// Whether the digit is `B0`.
    pub fn is_zero(self) -> (z: bool)
        ensures
            z == (self == Bit::B0),
            z == (self.value() == 0),
    {
        match self {
            Bit::B0 => true,
            Bit::B1 => false,
        }
    }

    /// The other digit.
    pub fn not(self) -> (r: Bit)
        ensures
            r == self.spec_not(),
            r != self,
    {
        match self {
            Bit::B0 => Bit::B1,
            Bit::B1 => Bit::B0,
        }
    }

    /// Logical and.
    pub fn and(self, rhs: Bit) -> (r: Bit)
        ensures
            r == self.spec_and(rhs),
    {
        match self {
            Bit::B0 => Bit::B0,
            Bit::B1 => rhs,
        }
    }

    /// Logical or.
    pub fn or(self, rhs: Bit) -> (r: Bit)
        ensures
            r == self.spec_or(rhs),
    {
        match self {
            Bit::B0 => rhs,
            Bit::B1 => Bit::B1,
        }
    }

    /// Logical exclusive or.
    pub fn xor(self, rhs: Bit) -> (r: Bit)
        ensures
            r == self.spec_xor(rhs),
    {
        match self {
            Bit::B0 => rhs,
            Bit::B1 => rhs.not(),
        }
    }

    /// The sum digit of a half adder.
    pub fn add(self, rhs: Bit) -> (r: Bit)
        ensures
            r == self.spec_add(rhs),
            r == self.spec_xor(rhs),
    {
        self.xor(rhs)
    }

    /// The carry out of a half adder.
    pub fn carry(self, rhs: Bit) -> (r: Bit)
        ensures
            r == self.spec_carry(rhs),
            r == self.spec_and(rhs),
    {
        self.and(rhs)
    }

    /// The sum digit of a full adder with carry in `c`.
    pub fn full_add(self, rhs: Bit, c: Bit) -> (r: Bit)
        ensures
            r == self.spec_full_add(rhs, c),
            r == self.spec_xor(rhs).spec_xor(c),
    {
        self.add(rhs).add(c)
    }

    /// The carry out of a full adder with carry in `c`: the majority of the
    /// three digits.
    pub fn full_carry(self, rhs: Bit, c: Bit) -> (r: Bit)
        ensures
            r == self.spec_full_carry(rhs, c),
            r == Bit::B1 <==> self.value() + rhs.value() + c.value() >= 2,
    {
        self.add(rhs).carry(c).xor(self.carry(rhs))
    }

    /// The difference digit of a half subtractor.
    pub fn diff(self, rhs: Bit) -> (r: Bit)
        ensures
            r == self.spec_diff(rhs),
            r == self.spec_xor(rhs),
    {
        self.xor(rhs)
    }

    /// The borrow out of a half subtractor.
    pub fn borrow(self, rhs: Bit) -> (r: Bit)
        ensures
            r == self.spec_borrow(rhs),
    {
        match self {
            Bit::B0 => rhs,
            Bit::B1 => Bit::B0,
        }
    }

    /// The difference digit of a full subtractor with borrow in `b`.
    pub fn full_diff(self, rhs: Bit, b: Bit) -> (r: Bit)
        ensures
            r == self.spec_full_diff(rhs, b),
            r == self.spec_xor(rhs).spec_xor(b),
    {
        self.diff(rhs).diff(b)
    }

    /// The borrow out of a full subtractor with borrow in `b`.
    pub fn full_borrow(self, rhs: Bit, b: Bit) -> (r: Bit)
        ensures
            r == self.spec_full_borrow(rhs, b),
    {
        self.borrow(rhs).xor(self.diff(rhs).borrow(b))
    }

    /// A half adder computes `self + rhs`: the sum digit counts once and the
    /// carry counts twice.
    pub proof fn lemma_half_adder(self, rhs: Bit)
        ensures
            self.spec_add(rhs).value() + 2 * self.spec_carry(rhs).value() == self.value()
                + rhs.value(),
            self.spec_add(rhs) == self.spec_xor(rhs),
            self.spec_carry(rhs) == self.spec_and(rhs),
    {
    }

    /// A full adder computes `self + rhs + c`: the sum digit counts once and
    /// the carry counts twice.
    pub proof fn lemma_full_adder(self, rhs: Bit, c: Bit)
        ensures
            self.spec_full_add(rhs, c).value() + 2 * self.spec_full_carry(rhs, c).value()
                == self.value() + rhs.value() + c.value(),
            self.spec_full_add(rhs, c) == self.spec_xor(rhs).spec_xor(c),
            self.spec_full_carry(rhs, c) == self.spec_and(rhs).spec_or(
                c.spec_and(self.spec_xor(rhs)),
            ),
    {
    }

    /// A half subtractor computes `self - rhs`: the difference digit counts
    /// once and the borrow takes two away.
    pub proof fn lemma_half_subtractor(self, rhs: Bit)
        ensures
            self.spec_diff(rhs).value() - 2 * self.spec_borrow(rhs).value() == self.value()
                - rhs.value(),
            self.spec_diff(rhs) == self.spec_xor(rhs),
            self.spec_borrow(rhs) == self.spec_not().spec_and(rhs),
    {
    }

    /// A full subtractor computes `self - rhs - b`: the difference digit
    /// counts once and the borrow takes two away.
    pub proof fn lemma_full_subtractor(self, rhs: Bit, b: Bit)
        ensures
            self.spec_full_diff(rhs, b).value() - 2 * self.spec_full_borrow(rhs, b).value()
                == self.value() - rhs.value() - b.value(),
            self.spec_full_diff(rhs, b) == self.spec_xor(rhs).spec_xor(b),
            self.spec_full_borrow(rhs, b) == self.spec_not().spec_and(rhs).spec_or(
                b.spec_and(self.spec_xor(rhs).spec_not()),
            ),
    {
    }
}

} // verus!
