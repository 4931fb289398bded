//! What holds of the arithmetic on [`Unsigned`]: the number that each
//! operation yields, the uniqueness of the canonical form, and the algebraic
//! laws that follow from the two.
use crate::num::bit::Bit;
use crate::num::unsigned::Unsigned;
use vstd::arithmetic::power2::{lemma2_to64, lemma_pow2_unfold, pow2};
use vstd::prelude::*;

verus! {

impl Unsigned {
    /// A chain has at least one digit, and its number is below two to the
    /// number of its digits.
    pub proof fn lemma_bound(self)
        ensures
            self.depth() >= 1,
            self@ < pow2(self.depth()),
        decreases self,
    {
        lemma2_to64();
        match self {
            Unsigned::Last(_) => {},
            Unsigned::UInt(m, _) => {
                m.lemma_bound();
                lemma_pow2_unfold(self.depth());
            },
        }
    }

    /// Two chains of one length that stand for one number are the same
    /// chain.
    pub proof fn lemma_same_depth_unique(self, other: Unsigned)
        requires
            self.depth() == other.depth(),
            self@ == other@,
        ensures
            self == other,
        decreases self,
    {
        self.lemma_bound();
        other.lemma_bound();
        match (self, other) {
            (Unsigned::UInt(m, _), Unsigned::UInt(n, _)) => {
                m.lemma_bound();
                n.lemma_bound();
                m.lemma_same_depth_unique(*n);
            },
            (Unsigned::UInt(m, _), Unsigned::Last(_)) => {
                m.lemma_bound();
            },
            (Unsigned::Last(_), Unsigned::UInt(n, _)) => {
                n.lemma_bound();
            },
            _ => {},
        }
    }

    /// The only canonical chain that stands for zero is the single digit
    /// `B0`.
    pub proof fn lemma_canonical_zero(self)
        requires
            self.is_canonical(),
            self@ == 0,
        ensures
            self == Unsigned::Last(Bit::B0),
        decreases self,
    {
        match self {
            Unsigned::Last(_) => {},
            Unsigned::UInt(m, _) => {
                m.lemma_canonical_zero();
            },
        }
    }

    /// Two canonical chains that stand for one number are the same chain.
    pub proof fn lemma_canonical_unique(self, other: Unsigned)
        requires
            self.is_canonical(),
            other.is_canonical(),
            self@ == other@,
        ensures
            self == other,
        decreases self,
    {
        match (self, other) {
            (Unsigned::UInt(m, _), Unsigned::UInt(n, _)) => {
                m.lemma_canonical_unique(*n);
            },
            (Unsigned::UInt(m, _), Unsigned::Last(_)) => {
                if m@ == 0 {
                    m.lemma_canonical_zero();
                }
            },
            (Unsigned::Last(_), Unsigned::UInt(n, _)) => {
                if n@ == 0 {
                    n.lemma_canonical_zero();
                }
            },
            _ => {},
        }
    }

    /// Canonicalization keeps the number, yields a canonical chain that is
    /// no longer than the given one, and leaves a canonical chain as it is.
    pub proof fn lemma_rm_extra_bits(self)
        ensures
            self.spec_rm_extra_bits()@ == self@,
            self.spec_rm_extra_bits().is_canonical(),
            self.spec_rm_extra_bits().depth() <= self.depth(),
            self.is_canonical() ==> self.spec_rm_extra_bits() == self,
        decreases self,
    {
        match self {
            Unsigned::Last(_) => {},
            Unsigned::UInt(m, _) => {
                m.lemma_rm_extra_bits();
            },
        }
    }

    /// Canonicalizing twice is canonicalizing once.
    pub proof fn lemma_rm_extra_bits_idempotent(self)
        ensures
            self.spec_rm_extra_bits().spec_rm_extra_bits() == self.spec_rm_extra_bits(),
    {
        self.lemma_rm_extra_bits();
        self.spec_rm_extra_bits().lemma_rm_extra_bits();
    }

    /// The successor stands for one more and is canonical where the given
    /// chain is; it has one digit more where every digit was `B1`, and as
    /// many as before otherwise.
    pub proof fn lemma_inc(self)
        ensures
            self.spec_inc()@ == self@ + 1,
            self.is_canonical() ==> self.spec_inc().is_canonical(),
            self.depth() <= self.spec_inc().depth() <= self.depth() + 1,
        decreases self,
    {
        match self {
            Unsigned::Last(_) => {},
            Unsigned::UInt(m, _) => {
                m.lemma_inc();
            },
        }
    }

    /// There is a predecessor exactly of the chains that do not stand for
    /// zero; it stands for one less and has as many digits.
    pub proof fn lemma_dec(self)
        ensures
            self.spec_dec() is Err <==> self@ == 0,
            self.spec_dec() matches Ok(d) ==> d@ == self@ - 1 && d.depth() == self.depth(),
        decreases self,
    {
        match self {
            Unsigned::Last(_) => {},
            Unsigned::UInt(m, _) => {
                m.lemma_dec();
            },
        }
    }

    /// Shifting left doubles, and keeps a canonical chain canonical.
    pub proof fn lemma_bsl(self)
        ensures
            self.spec_bsl()@ == 2 * self@,
            self.is_canonical() ==> self.spec_bsl().is_canonical(),
    {
    }

    /// Shifting right halves, rounding down, and keeps a canonical chain
    /// canonical.
    pub proof fn lemma_bsr(self)
        ensures
            self.spec_bsr()@ == self@ / 2,
            self.is_canonical() ==> self.spec_bsr().is_canonical(),
    {
    }

    /// Padding keeps the number and yields the longer of the given length
    /// and `n`.
    pub proof fn lemma_pad(self, n: nat)
        ensures
            self.spec_pad(n)@ == self@,
            self.spec_pad(n).depth() == if n <= self.depth() {
                self.depth()
            } else {
                n
            },
        decreases n,
    {
        if n > self.depth() {
            match self {
                Unsigned::Last(_) => {
                    Unsigned::Last(Bit::B0).lemma_pad((n - 1) as nat);
                },
                Unsigned::UInt(m, _) => {
                    m.lemma_pad((n - 1) as nat);
                },
            }
        }
    }

    /// The ripple-carry sum of two chains of one length stands for the sum
    /// of the two numbers and the carry, and has one digit more.
    pub proof fn lemma_add_with_carry(self, rhs: Unsigned, c: Bit)
        requires
            self.depth() == rhs.depth(),
        ensures
            self.spec_add_with_carry(rhs, c)@ == self@ + rhs@ + c.value(),
            self.spec_add_with_carry(rhs, c).depth() == self.depth() + 1,
        decreases self,
    {
        self.lemma_bound();
        rhs.lemma_bound();
        match (self, rhs) {
            (Unsigned::Last(l), Unsigned::Last(r)) => {
                l.lemma_full_adder(r, c);
            },
            (Unsigned::UInt(lm, l), Unsigned::UInt(rm, r)) => {
                l.lemma_full_adder(r, c);
                lm.lemma_add_with_carry(*rm, l.spec_full_carry(r, c));
            },
            (Unsigned::UInt(lm, _), Unsigned::Last(_)) => {
                lm.lemma_bound();
            },
            (Unsigned::Last(_), Unsigned::UInt(rm, _)) => {
                rm.lemma_bound();
            },
        }
    }

    /// The sum stands for the sum of the two numbers.
    pub proof fn lemma_add(self, rhs: Unsigned)
        ensures
            self.spec_add(rhs)@ == self@ + rhs@,
    {
        match self {
            Unsigned::Last(_) => {
                rhs.lemma_inc();
            },
            Unsigned::UInt(_, _) => {
                self.lemma_pad(rhs.depth());
                rhs.lemma_pad(self.depth());
                self.spec_pad(rhs.depth()).lemma_add_with_carry(
                    rhs.spec_pad(self.depth()),
                    Bit::B0,
                );
            },
        }
    }

    /// The ripple-borrow difference of two chains of one length has one
    /// digit more. Where nothing is left to borrow at the end, it stands for
    /// the difference of the two numbers less the borrow; otherwise it
    /// stands for that difference, which is negative, plus two to the number
    /// of its digits.
    pub proof fn lemma_sub_with_borrow(self, rhs: Unsigned, b: Bit)
        requires
            self.depth() == rhs.depth(),
        ensures
            self.spec_sub_with_borrow(rhs, b).depth() == self.depth() + 1,
            self@ >= rhs@ + b.value() ==> self.spec_sub_with_borrow(rhs, b)@ == self@ - rhs@
                - b.value(),
            self@ < rhs@ + b.value() ==> self.spec_sub_with_borrow(rhs, b)@ == self@ - rhs@
                - b.value() + pow2(self.depth() + 1),
        decreases self,
    {
        self.lemma_bound();
        rhs.lemma_bound();
        let res = self.spec_sub_with_borrow(rhs, b);
        match (self, rhs) {
            (Unsigned::Last(l), Unsigned::Last(r)) => {
                let borrow = l.spec_full_borrow(r, b);
                let diff = l.spec_full_diff(r, b);
                l.lemma_full_subtractor(r, b);
                assert(res == Unsigned::UInt(Box::new(Unsigned::Last(borrow)), diff));
                assert(Unsigned::Last(borrow)@ == borrow.value());
                assert(res@ == 2 * borrow.value() + diff.value());
                assert(Unsigned::Last(borrow).depth() == 1);
                assert(pow2(2) == 4) by {
                    lemma2_to64();
                }
            },
            (Unsigned::UInt(lm, l), Unsigned::UInt(rm, r)) => {
                let borrow = l.spec_full_borrow(r, b);
                let diff = l.spec_full_diff(r, b);
                let high = lm.spec_sub_with_borrow(*rm, borrow);
                l.lemma_full_subtractor(r, b);
                lm.lemma_sub_with_borrow(*rm, borrow);
                assert(res == Unsigned::UInt(Box::new(high), diff));
                assert(res@ == 2 * high@ + diff.value());
                assert(pow2(self.depth() + 1) == 2 * pow2(lm.depth() + 1)) by {
                    lemma_pow2_unfold(self.depth() + 1);
                }
            },
            (Unsigned::UInt(lm, _), Unsigned::Last(_)) => {
                lm.lemma_bound();
            },
            (Unsigned::Last(_), Unsigned::UInt(rm, _)) => {
                rm.lemma_bound();
            },
        }
    }

    /// The difference is canonical. Where `rhs` is not the greater, it
    /// stands for the difference of the two numbers; otherwise it stands for
    /// that difference, which is negative, plus two to the number of digits
    /// of the longer chain and one.
    pub proof fn lemma_sub(self, rhs: Unsigned)
        ensures
            self.spec_sub(rhs).is_canonical(),
            self@ >= rhs@ ==> self.spec_sub(rhs)@ == self@ - rhs@,
            self@ < rhs@ ==> self.spec_sub(rhs)@ == self@ - rhs@ + pow2(
                self.spec_pad(rhs.depth()).depth() + 1,
            ),
    {
        let l = self.spec_pad(rhs.depth());
        let r = rhs.spec_pad(self.depth());
        self.lemma_pad(rhs.depth());
        rhs.lemma_pad(self.depth());
        l.lemma_sub_with_borrow(r, Bit::B0);
        l.spec_sub_with_borrow(r, Bit::B0).lemma_rm_extra_bits();
    }

    /// The product stands for the product of the two numbers.
    pub proof fn lemma_mul(self, rhs: Unsigned)
        ensures
            self.spec_mul(rhs)@ == self@ * rhs@,
        decreases self,
    {
        match self {
            Unsigned::Last(b) => {
                assert(b.value() * rhs@ == if b == Bit::B0 {
                    0
                } else {
                    rhs@
                }) by (nonlinear_arith)
                    requires
                        b.value() == 0 || b.value() == 1,
                        b == Bit::B0 <==> b.value() == 0,
                ;
            },
            Unsigned::UInt(m, b) => {
                m.lemma_mul(rhs);
                let high = m.spec_mul(rhs).spec_bsl();
                m.spec_mul(rhs).lemma_bsl();
                Unsigned::Last(Bit::B0).lemma_add(high);
                rhs.lemma_add(high);
                assert((2 * m@ + b.value()) * rhs@ == 2 * (m@ * rhs@) + if b == Bit::B0 {
                    0
                } else {
                    rhs@
                }) by (nonlinear_arith)
                    requires
                        b.value() == 0 || b.value() == 1,
                        b == Bit::B0 <==> b.value() == 0,
                ;
            },
        }
    }

    /// Decrementing the successor of a canonical chain and canonicalizing
    /// gives the chain back.
    pub proof fn lemma_dec_inc(self)
        requires
            self.is_canonical(),
        ensures
            self.spec_inc().spec_dec() is Ok,
            self.spec_inc().spec_dec().unwrap().spec_rm_extra_bits() == self,
    {
        self.lemma_inc();
        self.spec_inc().lemma_dec();
        let d = self.spec_inc().spec_dec().unwrap();
        d.lemma_rm_extra_bits();
        d.spec_rm_extra_bits().lemma_canonical_unique(self);
    }

    /// Incrementing the predecessor of a canonical chain that does not stand
    /// for zero and canonicalizing gives the chain back.
    pub proof fn lemma_inc_dec(self)
        requires
            self.is_canonical(),
            self@ != 0,
        ensures
            self.spec_dec() is Ok,
            self.spec_dec().unwrap().spec_inc().spec_rm_extra_bits() == self,
    {
        self.lemma_dec();
        let d = self.spec_dec().unwrap();
        d.lemma_inc();
        d.spec_inc().lemma_rm_extra_bits();
        d.spec_inc().spec_rm_extra_bits().lemma_canonical_unique(self);
    }

    /// The canonical zero has no predecessor.
    pub proof fn lemma_dec_zero()
        ensures
            Unsigned::Last(Bit::B0).spec_dec() == Err::<Unsigned, crate::Invalid>(crate::Invalid),
    {
    }

    /// After canonicalization, addition is commutative.
    pub proof fn lemma_add_commutative(self, rhs: Unsigned)
        ensures
            self.spec_add(rhs).spec_rm_extra_bits() == rhs.spec_add(self).spec_rm_extra_bits(),
    {
        self.lemma_add(rhs);
        rhs.lemma_add(self);
        self.spec_add(rhs).lemma_rm_extra_bits();
        rhs.spec_add(self).lemma_rm_extra_bits();
        self.spec_add(rhs).spec_rm_extra_bits().lemma_canonical_unique(
            rhs.spec_add(self).spec_rm_extra_bits(),
        );
    }

    /// After canonicalization, addition is associative.
    pub proof fn lemma_add_associative(self, b: Unsigned, c: Unsigned)
        ensures
            self.spec_add(b).spec_add(c).spec_rm_extra_bits() == self.spec_add(
                b.spec_add(c),
            ).spec_rm_extra_bits(),
    {
        self.lemma_add(b);
        self.spec_add(b).lemma_add(c);
        b.lemma_add(c);
        self.lemma_add(b.spec_add(c));
        let left = self.spec_add(b).spec_add(c);
        let right = self.spec_add(b.spec_add(c));
        left.lemma_rm_extra_bits();
        right.lemma_rm_extra_bits();
        left.spec_rm_extra_bits().lemma_canonical_unique(right.spec_rm_extra_bits());
    }

    /// A chain less itself is the canonical zero.
    pub proof fn lemma_sub_self(self)
        ensures
            self.spec_sub(self) == Unsigned::Last(Bit::B0),
            self.spec_sub(self).spec_rm_extra_bits() == Unsigned::Last(Bit::B0),
    {
        self.lemma_sub(self);
        self.spec_sub(self).lemma_canonical_zero();
    }
}

} // verus!
