//! Booleans as types, and the choice between two computations by one.
//!
//! [`True`] and [`False`] carry their value in their type, so that a choice
//! made by one of them is made when the program is compiled. The logic
//! tables are types as well; each comes with the proof that it stands for
//! the boolean it is named after.
use crate::seal::Sealed;
use vstd::prelude::*;

verus! {

/// A boolean that is known from its type alone.
pub trait Bool: Sealed + Sized {
    /// The boolean that the type stands for.
    const BOOL: bool;

    /// The boolean that the type stands for, as contracts speak of it.
    spec fn value() -> bool;

    /// `BOOL` is the boolean that the type stands for.
    proof fn lemma_bool()
        ensures
            Self::BOOL == Self::value(),
    ;
}

/// The negation of a boolean type.
pub trait Negate: Bool {
    /// The other boolean type.
    type Not: Bool;

    /// `Not` stands for the negation.
    proof fn lemma_not()
        ensures
            <Self::Not as Bool>::value() == !Self::value(),
    ;
}

/// The two-input logic tables of a boolean type with a second one.
pub trait Logic<B: Negate>: Bool {
    /// `Self` and `B`.
    type And: Bool;

    /// `Self` or `B`.
    type Or: Bool;

    /// Either `Self` or `B`, not both.
    type Xor: Bool;

    /// The three types stand for what their names say.
    proof fn lemma_logic()
        ensures
            <Self::And as Bool>::value() == (Self::value() && B::value()),
            <Self::Or as Bool>::value() == (Self::value() || B::value()),
            <Self::Xor as Bool>::value() == (Self::value() != B::value()),
    ;
}

/// The choice between a value of type `A` and one of type `B`.
pub trait Select<A, B>: Bool {
    /// `A` for [`True`], `B` for [`False`].
    type Output;

    /// The chosen one of two values: the first for [`True`], the second for
    /// [`False`].
    spec fn select(a: A, b: B) -> Self::Output;

    /// Runs the first computation for [`True`] and the second for [`False`],
    /// and returns what it returned. The other one is never run, so only the
    /// chosen one has to be callable.
    fn cond<FA: FnOnce() -> A, FB: FnOnce() -> B>(a: FA, b: FB) -> (r: Self::Output)
        requires
            Self::value() ==> a.requires(()),
            !Self::value() ==> b.requires(()),
        ensures
            exists|x: A, y: B|
                r == Self::select(x, y) && (Self::value() ==> a.ensures((), x)) && (!Self::value()
                    ==> b.ensures((), y)),
    ;
}

/// The boolean `true` as a type.
pub struct True;

/// The boolean `false` as a type.
pub struct False;

impl Sealed for True {
}

impl Sealed for False {
}

impl Bool for True {
    const BOOL: bool = true;

    open spec fn value() -> bool {
        true
    }

    proof fn lemma_bool() {
    }
}

impl Bool for False {
    const BOOL: bool = false;

    open spec fn value() -> bool {
        false
    }

    proof fn lemma_bool() {
    }
}

impl Negate for True {
    type Not = False;

    proof fn lemma_not() {
    }
}

impl Negate for False {
    type Not = True;

    proof fn lemma_not() {
    }
}

impl<B: Negate> Logic<B> for True {
    type And = B;

    type Or = True;

    type Xor = B::Not;

    proof fn lemma_logic() {
        B::lemma_not();
    }
}

impl<B: Negate> Logic<B> for False {
    type And = False;

    type Or = B;

    type Xor = B;

    proof fn lemma_logic() {
    }
}

impl<A, B> Select<A, B> for True {
    type Output = A;

    open spec fn select(a: A, b: B) -> A {
        a
    }

    fn cond<FA: FnOnce() -> A, FB: FnOnce() -> B>(a: FA, b: FB) -> (r: A)
        ensures
            a.ensures((), r),
    {
        let r = a();
        proof {
            let y: B = arbitrary();
            assert(r == <True as Select<A, B>>::select(r, y));
        }
        r
    }
}

impl<A, B> Select<A, B> for False {
    type Output = B;

    open spec fn select(a: A, b: B) -> B {
        b
    }

    fn cond<FA: FnOnce() -> A, FB: FnOnce() -> B>(a: FA, b: FB) -> (r: B)
        ensures
            b.ensures((), r),
    {
        let r = b();
        proof {
            let x: A = arbitrary();
            assert(r == <False as Select<A, B>>::select(x, r));
        }
        r
    }
}

/// The negation of `B`.
pub type Not<B> = <B as Negate>::Not;

/// `A` and `B`.
pub type And<A, B> = <A as Logic<B>>::And;

/// `A` or `B`.
pub type Or<A, B> = <A as Logic<B>>::Or;

/// Either `A` or `B`, not both.
pub type Xor<A, B> = <A as Logic<B>>::Xor;

/// `A` where `C` is [`True`], `B` where it is [`False`].
pub type If<C, A, B> = <C as Select<A, B>>::Output;

} // verus!
