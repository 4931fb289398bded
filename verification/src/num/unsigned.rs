//! Unsigned integers as chains of binary digits, and the arithmetic on them.
//!
//! A number is either a single digit or a more significant prefix followed by
//! one more digit. Nothing bounds the length of the chain, so no operation
//! overflows: a carry out of the most significant digit becomes a new digit.
//!
//! Operations work on the chain as it is and may leave redundant leading
//! zero digits behind. [`Unsigned::rm_extra_bits`] brings a number to its
//! canonical form, the only form in which equal numbers are equal chains.
use crate::num::bit::Bit;
use crate::Invalid;
use vstd::arithmetic::power2::pow2;
use vstd::prelude::*;

verus! {

/// An unsigned integer, most significant digit outermost.
#[derive(Debug, PartialEq, Eq)]
pub enum Unsigned {
    /// A single digit: the most significant one of a longer chain, or the
    /// whole number.
    Last(Bit),
    /// A more significant prefix and the digit that follows it.
    UInt(Box<Unsigned>, Bit),
}

impl View for Unsigned {
    type V = nat;

    /// The number that the chain of digits stands for.
    open spec fn view(&self) -> nat {
        self.value()
    }
}

impl Clone for Unsigned {
    fn clone(&self) -> (r: Self)
        ensures
            r == *self,
        decreases self,
    {
        match self {
            Unsigned::Last(b) => Unsigned::Last(*b),
            Unsigned::UInt(m, b) => Unsigned::UInt(Box::new((**m).clone()), *b),
        }
    }
}

impl Unsigned {
    /// The number that the chain of digits stands for: a single digit stands
    /// for itself, and each further digit doubles what precedes it.
    pub open spec fn value(self) -> nat
        decreases self,
    {
        match self {
            Unsigned::Last(b) => b.value(),
            Unsigned::UInt(m, b) => 2 * m.value() + b.value(),
        }
    }

    /// The number of digits in the chain.
    pub open spec fn depth(self) -> nat
        decreases self,
    {
        match self {
            Unsigned::Last(_) => 1,
            Unsigned::UInt(m, _) => m.depth() + 1,
        }
    }

    /// Whether the chain has no redundant leading zero digit: no prefix is
    /// the single digit `B0`.
    pub open spec fn is_canonical(self) -> bool
        decreases self,
    {
        match self {
            Unsigned::Last(_) => true,
            Unsigned::UInt(m, _) => *m != Unsigned::Last(Bit::B0) && m.is_canonical(),
        }
    }

    /// The least significant digit.
    pub open spec fn spec_lsb(self) -> Bit {
        match self {
            Unsigned::Last(b) => b,
            Unsigned::UInt(_, b) => b,
        }
    }

    /// The successor: a trailing `B0` becomes `B1`; a trailing `B1` becomes
    /// `B0` and the carry goes into the prefix, or into a new leading digit
    /// where there is no prefix.
    pub open spec fn spec_inc(self) -> Unsigned
        decreases self,
    {
        match self {
            Unsigned::Last(Bit::B0) => Unsigned::Last(Bit::B1),
            Unsigned::Last(Bit::B1) => Unsigned::UInt(Box::new(Unsigned::Last(Bit::B1)), Bit::B0),
            Unsigned::UInt(m, Bit::B0) => Unsigned::UInt(m, Bit::B1),
            Unsigned::UInt(m, Bit::B1) => Unsigned::UInt(Box::new(m.spec_inc()), Bit::B0),
        }
    }

    /// The predecessor: a trailing `B1` becomes `B0`; a trailing `B0` becomes
    /// `B1` and the borrow is taken from the prefix. Where there is nothing
    /// left to borrow from, there is no result.
    pub open spec fn spec_dec(self) -> Result<Unsigned, Invalid>
        decreases self,
    {
        match self {
            Unsigned::Last(Bit::B0) => Err(Invalid),
            Unsigned::Last(Bit::B1) => Ok(Unsigned::Last(Bit::B0)),
            Unsigned::UInt(m, Bit::B1) => Ok(Unsigned::UInt(m, Bit::B0)),
            Unsigned::UInt(m, Bit::B0) => match m.spec_dec() {
                Ok(d) => Ok(Unsigned::UInt(Box::new(d), Bit::B1)),
                Err(e) => Err(e),
            },
        }
    }

    /// The double: one more trailing `B0`, except that the single digit
    /// `B0` stays as it is.
    pub open spec fn spec_bsl(self) -> Unsigned {
        match self {
            Unsigned::Last(Bit::B0) => Unsigned::Last(Bit::B0),
            _ => Unsigned::UInt(Box::new(self), Bit::B0),
        }
    }

    /// The half, rounded down: the chain without its trailing digit. A
    /// single digit leaves the single digit `B0`.
    pub open spec fn spec_bsr(self) -> Unsigned {
        match self {
            Unsigned::Last(_) => Unsigned::Last(Bit::B0),
            Unsigned::UInt(m, _) => *m,
        }
    }

    /// The chain with leading `B0` digits put before it until it has at
    /// least `n` digits.
    pub open spec fn spec_pad(self, n: nat) -> Unsigned
        decreases n,
    {
        if n <= self.depth() {
            self
        } else {
            match self {
                Unsigned::Last(b) => Unsigned::UInt(
                    Box::new(Unsigned::Last(Bit::B0).spec_pad((n - 1) as nat)),
                    b,
                ),
                Unsigned::UInt(m, b) => Unsigned::UInt(Box::new(m.spec_pad((n - 1) as nat)), b),
            }
        }
    }

    /// The ripple-carry sum of two chains of one length and a carry in.
    /// Each digit is the full-adder sum of the two digits at its place and
    /// the carry from the place after it; the carry out of the first place
    /// becomes a new leading digit.
    pub open spec fn spec_add_with_carry(self, rhs: Unsigned, c: Bit) -> Unsigned
        recommends
            self.depth() == rhs.depth(),
        decreases self,
    {
        match (self, rhs) {
            (Unsigned::Last(l), Unsigned::Last(r)) => Unsigned::UInt(
                Box::new(Unsigned::Last(l.spec_full_carry(r, c))),
                l.spec_full_add(r, c),
            ),
            (Unsigned::UInt(lm, l), Unsigned::UInt(rm, r)) => Unsigned::UInt(
                Box::new(lm.spec_add_with_carry(*rm, l.spec_full_carry(r, c))),
                l.spec_full_add(r, c),
            ),
            _ => arbitrary(),
        }
    }

    /// The sum. A single digit on the left leaves `rhs` as it is or
    /// increments it; otherwise both chains are padded to one length and
    /// added digit by digit.
    pub open spec fn spec_add(self, rhs: Unsigned) -> Unsigned {
        match self {
            Unsigned::Last(Bit::B0) => rhs,
            Unsigned::Last(Bit::B1) => rhs.spec_inc(),
            _ => self.spec_pad(rhs.depth()).spec_add_with_carry(
                rhs.spec_pad(self.depth()),
                Bit::B0,
            ),
        }
    }

    /// The ripple-borrow difference of two chains of one length and a borrow
    /// in. Each digit is the full-subtractor difference of the two digits at
    /// its place and the borrow from the place after it; the borrow out of
    /// the first place becomes a new leading digit.
    pub open spec fn spec_sub_with_borrow(self, rhs: Unsigned, b: Bit) -> Unsigned
        recommends
            self.depth() == rhs.depth(),
        decreases self,
    {
        match (self, rhs) {
            (Unsigned::Last(l), Unsigned::Last(r)) => Unsigned::UInt(
                Box::new(Unsigned::Last(l.spec_full_borrow(r, b))),
                l.spec_full_diff(r, b),
            ),
            (Unsigned::UInt(lm, l), Unsigned::UInt(rm, r)) => Unsigned::UInt(
                Box::new(lm.spec_sub_with_borrow(*rm, l.spec_full_borrow(r, b))),
                l.spec_full_diff(r, b),
            ),
            _ => arbitrary(),
        }
    }

    /// The canonical form: the same number without redundant leading zero
    /// digits.
    pub open spec fn spec_rm_extra_bits(self) -> Unsigned
        decreases self,
    {
        match self {
            Unsigned::Last(b) => Unsigned::Last(b),
            Unsigned::UInt(m, b) => {
                let prefix = m.spec_rm_extra_bits();
                if prefix == Unsigned::Last(Bit::B0) {
                    Unsigned::Last(b)
                } else {
                    Unsigned::UInt(Box::new(prefix), b)
                }
            },
        }
    }

    /// The difference in canonical form: both chains are padded to one
    /// length, subtracted digit by digit, and the result is brought to its
    /// canonical form.
    pub open spec fn spec_sub(self, rhs: Unsigned) -> Unsigned {
        self.spec_pad(rhs.depth()).spec_sub_with_borrow(
            rhs.spec_pad(self.depth()),
            Bit::B0,
        ).spec_rm_extra_bits()
    }

    /// The product by shifting and adding: the product of the prefix with
    /// `rhs`, doubled, plus `rhs` where the trailing digit is `B1`.
    pub open spec fn spec_mul(self, rhs: Unsigned) -> Unsigned
        decreases self,
    {
        match self {
            Unsigned::Last(Bit::B0) => Unsigned::Last(Bit::B0),
            Unsigned::Last(Bit::B1) => rhs,
            Unsigned::UInt(m, Bit::B0) => Unsigned::Last(Bit::B0).spec_add(
                m.spec_mul(rhs).spec_bsl(),
            ),
            Unsigned::UInt(m, Bit::B1) => rhs.spec_add(m.spec_mul(rhs).spec_bsl()),
        }
    }

    /// The number that a sequence of digits stands for, most significant
    /// digit first. The empty sequence stands for zero.
    pub open spec fn bits_value(bits: Seq<Bit>) -> nat
        decreases bits.len(),
    {
        if bits.len() == 0 {
            0
        } else {
            2 * Self::bits_value(bits.drop_last()) + bits.last().value()
        }
    }

    /// The number as a machine integer.
    pub fn to_usize(&self) -> (n: usize)
        requires
            self@ <= usize::MAX,
        ensures
            n == self@,
        decreases self,
    {
        match self {
            Unsigned::Last(b) => b.to_usize(),
            Unsigned::UInt(m, b) => 2 * m.to_usize() + b.to_usize(),
        }
    }

    /// The least significant digit.
    pub fn lsb(&self) -> (b: Bit)
        ensures
            b == self.spec_lsb(),
            b.value() == self@ % 2,
    {
        match self {
            Unsigned::Last(b) => *b,
            Unsigned::UInt(_, b) => *b,
        }
    }

    /// The prefix of more significant digits. A single digit has none.
    pub fn msb(&self) -> (r: Result<&Unsigned, Invalid>)
        ensures
            r is Err <==> self is Last,
            r matches Ok(m) ==> *self == Unsigned::UInt(Box::new(*m), self.spec_lsb()),
    {
        match self {
            Unsigned::Last(_) => Err(Invalid),
            Unsigned::UInt(m, _) => Ok(&**m),
        }
    }

    /// Whether the number is zero, whatever the length of the chain.
    pub fn is_zero(&self) -> (z: bool)
        ensures
            z == (self@ == 0),
        decreases self,
    {
        match self {
            Unsigned::Last(b) => b.is_zero(),
            Unsigned::UInt(m, b) => b.is_zero() && m.is_zero(),
        }
    }

    /// The successor.
    pub fn inc(&self) -> (r: Unsigned)
        ensures
            r == self.spec_inc(),
            r@ == self@ + 1,
            self.is_canonical() ==> r.is_canonical(),
        decreases self,
    {
        match self {
            Unsigned::Last(Bit::B0) => Unsigned::Last(Bit::B1),
            Unsigned::Last(Bit::B1) => Unsigned::UInt(Box::new(Unsigned::Last(Bit::B1)), Bit::B0),
            Unsigned::UInt(m, Bit::B0) => Unsigned::UInt(Box::new((**m).clone()), Bit::B1),
            Unsigned::UInt(m, Bit::B1) => Unsigned::UInt(Box::new(m.inc()), Bit::B0),
        }
    }

    /// The predecessor, or [`Invalid`] for zero.
    pub fn dec(&self) -> (r: Result<Unsigned, Invalid>)
        ensures
            r == self.spec_dec(),
            r is Err <==> self@ == 0,
            r matches Ok(d) ==> d@ == self@ - 1 && d.depth() == self.depth(),
        decreases self,
    {
        match self {
            Unsigned::Last(Bit::B0) => Err(Invalid),
            Unsigned::Last(Bit::B1) => Ok(Unsigned::Last(Bit::B0)),
            Unsigned::UInt(m, Bit::B1) => Ok(Unsigned::UInt(Box::new((**m).clone()), Bit::B0)),
            Unsigned::UInt(m, Bit::B0) => match m.dec() {
                Ok(d) => Ok(Unsigned::UInt(Box::new(d), Bit::B1)),
                Err(e) => Err(e),
            },
        }
    }

    /// The double.
    pub fn bsl(&self) -> (r: Unsigned)
        ensures
            r == self.spec_bsl(),
            r@ == 2 * self@,
            self.is_canonical() ==> r.is_canonical(),
    {
        match self {
            Unsigned::Last(Bit::B0) => Unsigned::Last(Bit::B0),
            _ => Unsigned::UInt(Box::new(self.clone()), Bit::B0),
        }
    }

    /// The half, rounded down.
    pub fn bsr(&self) -> (r: Unsigned)
        ensures
            r == self.spec_bsr(),
            r@ == self@ / 2,
            self.is_canonical() ==> r.is_canonical(),
    {
        match self {
            Unsigned::Last(_) => Unsigned::Last(Bit::B0),
            Unsigned::UInt(m, _) => (**m).clone(),
        }
    }

    /// The same number with leading `B0` digits put before it until the
    /// chain is as long as `other`. A chain that is long enough is returned
    /// as it is.
    pub fn pad_to(&self, other: &Unsigned) -> (r: Unsigned)
        ensures
            r == self.spec_pad(other.depth()),
            r@ == self@,
            r.depth() == if other.depth() <= self.depth() {
                self.depth()
            } else {
                other.depth()
            },
        decreases other,
    {
        proof {
            self.lemma_pad(other.depth());
            self.lemma_bound();
        }
        match other {
            Unsigned::Last(_) => self.clone(),
            Unsigned::UInt(om, _) => match self {
                Unsigned::Last(b) => Unsigned::UInt(
                    Box::new(Unsigned::Last(Bit::B0).pad_to(om)),
                    *b,
                ),
                Unsigned::UInt(m, b) => {
                    proof {
                        m.lemma_bound();
                    }
                    Unsigned::UInt(Box::new(m.pad_to(om)), *b)
                },
            },
        }
    }

    /// The sum of two chains of one length and a carry in, by a ripple-carry
    /// adder. The result has one digit more than each operand: its leading
    /// digit is the last carry.
    pub fn add_with_carry(&self, rhs: &Unsigned, c: Bit) -> (r: Unsigned)
        requires
            self.depth() == rhs.depth(),
        ensures
            r == self.spec_add_with_carry(*rhs, c),
            r@ == self@ + rhs@ + c.value(),
            r.depth() == self.depth() + 1,
        decreases self,
    {
        proof {
            self.lemma_add_with_carry(*rhs, c);
        }
        match self {
            Unsigned::Last(l) => match rhs {
                Unsigned::Last(r) => Unsigned::UInt(
                    Box::new(Unsigned::Last(l.full_carry(*r, c))),
                    l.full_add(*r, c),
                ),
                Unsigned::UInt(rm, _) => {
                    proof {
                        rm.lemma_bound();
                    }
                    unreached()
                },
            },
            Unsigned::UInt(lm, l) => match rhs {
                Unsigned::UInt(rm, r) => Unsigned::UInt(
                    Box::new(lm.add_with_carry(rm, l.full_carry(*r, c))),
                    l.full_add(*r, c),
                ),
                Unsigned::Last(_) => {
                    proof {
                        lm.lemma_bound();
                    }
                    unreached()
                },
            },
        }
    }

    /// The sum. The chains may differ in length.
    pub fn add(&self, rhs: &Unsigned) -> (r: Unsigned)
        ensures
            r == self.spec_add(*rhs),
            r@ == self@ + rhs@,
    {
        proof {
            self.lemma_add(*rhs);
        }
        match self {
            Unsigned::Last(Bit::B0) => rhs.clone(),
            Unsigned::Last(Bit::B1) => rhs.inc(),
            _ => self.pad_to(rhs).add_with_carry(&rhs.pad_to(self), Bit::B0),
        }
    }

    /// The difference of two chains of one length and a borrow in, by a
    /// ripple-borrow subtractor. The result has one digit more than each
    /// operand: its leading digit is the last borrow. Where that digit is
    /// `B1`, more was taken away than there was, and the result stands for
    /// the negative difference plus two to the number of its digits.
    pub fn sub_with_borrow(&self, rhs: &Unsigned, b: Bit) -> (r: Unsigned)
        requires
            self.depth() == rhs.depth(),
        ensures
            r == self.spec_sub_with_borrow(*rhs, b),
            r.depth() == self.depth() + 1,
            self@ >= rhs@ + b.value() ==> r@ == self@ - rhs@ - b.value(),
            self@ < rhs@ + b.value() ==> r@ == self@ - rhs@ - b.value() + pow2(self.depth() + 1),
        decreases self,
    {
        proof {
            self.lemma_sub_with_borrow(*rhs, b);
        }
        match self {
            Unsigned::Last(l) => match rhs {
                Unsigned::Last(r) => Unsigned::UInt(
                    Box::new(Unsigned::Last(l.full_borrow(*r, b))),
                    l.full_diff(*r, b),
                ),
                Unsigned::UInt(rm, _) => {
                    proof {
                        rm.lemma_bound();
                    }
                    unreached()
                },
            },
            Unsigned::UInt(lm, l) => match rhs {
                Unsigned::UInt(rm, r) => Unsigned::UInt(
                    Box::new(lm.sub_with_borrow(rm, l.full_borrow(*r, b))),
                    l.full_diff(*r, b),
                ),
                Unsigned::Last(_) => {
                    proof {
                        lm.lemma_bound();
                    }
                    unreached()
                },
            },
        }
    }

    /// The canonical form: the same number without redundant leading zero
    /// digits.
    pub fn rm_extra_bits(&self) -> (r: Unsigned)
        ensures
            r == self.spec_rm_extra_bits(),
            r.is_canonical(),
            r@ == self@,
        decreases self,
    {
        proof {
            self.lemma_rm_extra_bits();
        }
        match self {
            Unsigned::Last(b) => Unsigned::Last(*b),
            Unsigned::UInt(m, b) => {
                let prefix = m.rm_extra_bits();
                match prefix {
                    Unsigned::Last(Bit::B0) => Unsigned::Last(*b),
                    _ => Unsigned::UInt(Box::new(prefix), *b),
                }
            },
        }
    }

    /// The difference, in canonical form. The chains may differ in length.
    /// Where `rhs` is the greater, nothing reports it: the result then
    /// stands for the negative difference plus a power of two.
    pub fn sub(&self, rhs: &Unsigned) -> (r: Unsigned)
        ensures
            r == self.spec_sub(*rhs),
            r.is_canonical(),
            self@ >= rhs@ ==> r@ == self@ - rhs@,
            self@ < rhs@ ==> r@ == self@ - rhs@ + pow2(self.spec_pad(rhs.depth()).depth() + 1),
    {
        proof {
            self.lemma_sub(*rhs);
        }
        self.pad_to(rhs).sub_with_borrow(&rhs.pad_to(self), Bit::B0).rm_extra_bits()
    }

    /// The product, by shifting and adding.
    pub fn mul(&self, rhs: &Unsigned) -> (r: Unsigned)
        ensures
            r == self.spec_mul(*rhs),
            r@ == self@ * rhs@,
        decreases self,
    {
        proof {
            self.lemma_mul(*rhs);
        }
        match self {
            Unsigned::Last(Bit::B0) => Unsigned::Last(Bit::B0),
            Unsigned::Last(Bit::B1) => rhs.clone(),
            Unsigned::UInt(m, Bit::B0) => Unsigned::Last(Bit::B0).add(&m.mul(rhs).bsl()),
            Unsigned::UInt(m, Bit::B1) => rhs.add(&m.mul(rhs).bsl()),
        }
    }

    /// The canonical chain that stands for `n`.
    pub fn from_usize(n: usize) -> (r: Unsigned)
        ensures
            r@ == n,
            r.is_canonical(),
        decreases n,
    {
        if n == 0 {
            Unsigned::Last(Bit::B0)
        } else if n == 1 {
            Unsigned::Last(Bit::B1)
        } else {
            let low = if n % 2 == 0 {
                Bit::B0
            } else {
                Bit::B1
            };
            Unsigned::UInt(Box::new(Unsigned::from_usize(n / 2)), low)
        }
    }

    /// The canonical chain that stands for the digits in `bits`, most
    /// significant digit first. No digit at all stands for zero.
    pub fn from_bits(bits: &[Bit]) -> (r: Unsigned)
        ensures
            r@ == Unsigned::bits_value(bits@),
            r.is_canonical(),
    {
        let mut acc = Unsigned::Last(Bit::B0);
        let mut i: usize = 0;
        while i < bits.len()
            invariant
                i <= bits.len(),
                acc@ == Unsigned::bits_value(bits@.take(i as int)),
                acc.is_canonical(),
            decreases bits.len() - i,
        {
            let b = bits[i];
            proof {
                assert(bits@.take(i + 1).drop_last() == bits@.take(i as int));
                assert(bits@.take(i + 1).last() == b);
                if acc@ == 0 {
                    acc.lemma_canonical_zero();
                }
            }
            acc = match acc {
                Unsigned::Last(Bit::B0) => Unsigned::Last(b),
                _ => Unsigned::UInt(Box::new(acc), b),
            };
            i = i + 1;
        }
        proof {
            assert(bits@.take(bits.len() as int) == bits@);
        }
        acc
    }

    /// The number as a machine integer, or `None` where it is too large for
    /// one.
    pub fn checked_to_usize(&self) -> (r: Option<usize>)
        ensures
            r is Some <==> self@ <= usize::MAX,
            r matches Some(n) ==> n == self@,
        decreases self,
    {
        match self {
            Unsigned::Last(b) => Some(b.to_usize()),
            Unsigned::UInt(m, b) => match m.checked_to_usize() {
                None => None,
                Some(high) => {
                    let low = b.to_usize();
                    if high > (usize::MAX - low) / 2 {
                        None
                    } else {
                        Some(2 * high + low)
                    }
                },
            },
        }
    }
}

} // verus!
