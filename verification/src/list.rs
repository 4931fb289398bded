//! Lists whose elements may each have a type of their own.
//!
//! A list is either [`End`] or a [`Cat`] of a first element and a list, so
//! its length and the type at each place are part of its type. An element is
//! reached by its type ([`TLFind`]) or, where all elements have one type, by
//! its position as an [`Unsigned`] ([`TListIndex`]).
use crate::bool::{Bool, False, True};
use crate::num::bit::Bit;
use crate::num::unsigned::Unsigned;
use crate::seal::{Key, Sealed};
use crate::Invalid;
use vstd::prelude::*;

verus! {

/// A first element followed by the rest of the list.
#[derive(Debug)]
pub struct Cat<H, T: TList> {
    /// The first element.
    pub head: H,
    /// The list of the elements after the first.
    pub tail: T,
}

/// The empty list, and the end of every list.
#[derive(Debug)]
pub struct End;

impl<H, T: TList> Sealed for Cat<H, T> {
}

impl Sealed for End {
}

/// A list: [`End`], or a [`Cat`] whose tail is a list.
pub trait TList: Sized + Sealed {
    /// [`True`] for the empty list, [`False`] for every other.
    type IsEmpty: Bool;

    /// The number of elements.
    spec fn spec_len(&self) -> nat;

    /// `IsEmpty` tells whether the list has no element.
    proof fn lemma_is_empty(&self)
        ensures
            <Self::IsEmpty as Bool>::value() == (self.spec_len() == 0),
    ;

    /// The number of elements, as a number of any size in canonical form.
    fn length(&self) -> (n: Unsigned)
        ensures
            n@ == self.spec_len(),
            n.is_canonical(),
    ;

    /// The number of elements.
    fn len(&self) -> (n: usize)
        requires
            self.spec_len() <= usize::MAX,
        ensures
            n == self.spec_len(),
    {
        self.length().to_usize()
    }

    /// The list with `elem` put in front of it.
    fn push<E>(self, elem: E) -> (r: Push<Self, E>)
        ensures
            r.head == elem,
            r.tail == self,
    ;
}

impl TList for End {
    type IsEmpty = True;

    open spec fn spec_len(&self) -> nat {
        0
    }

    proof fn lemma_is_empty(&self) {
        assert(<True as Bool>::value());
    }

    fn length(&self) -> (n: Unsigned) {
        Unsigned::Last(Bit::B0)
    }

    fn push<E>(self, elem: E) -> (r: Push<Self, E>) {
        Cat { head: elem, tail: self }
    }
}

impl<H, T: TList> TList for Cat<H, T> {
    type IsEmpty = False;

    open spec fn spec_len(&self) -> nat {
        self.tail.spec_len() + 1
    }

    proof fn lemma_is_empty(&self) {
        assert(!<False as Bool>::value());
    }

    fn length(&self) -> (n: Unsigned) {
        self.tail.length().inc()
    }

    fn push<E>(self, elem: E) -> (r: Push<Self, E>) {
        Cat { head: elem, tail: self }
    }
}

/// Lists that can be followed by a list of type `L`.
pub trait TLConcat<L: TList>: TList {
    /// The type of the two lists joined.
    type Output: TList;

    /// The elements of `self` followed by those of `other`.
    spec fn spec_concat(self, other: L) -> Self::Output;

    /// Joining adds the lengths.
    proof fn lemma_concat_len(self, other: L)
        ensures
            self.spec_concat(other).spec_len() == self.spec_len() + other.spec_len(),
    ;

    /// The elements of `self` followed by those of `other`.
    fn concat(self, other: L) -> (r: Self::Output)
        ensures
            r == self.spec_concat(other),
    ;
}

impl<L: TList> TLConcat<L> for End {
    type Output = L;

    open spec fn spec_concat(self, other: L) -> L {
        other
    }

    proof fn lemma_concat_len(self, other: L) {
    }

    fn concat(self, other: L) -> (r: L) {
        other
    }
}

impl<H, T: TLConcat<L>, L: TList> TLConcat<L> for Cat<H, T> {
    type Output = Cat<H, T::Output>;

    open spec fn spec_concat(self, other: L) -> Cat<H, T::Output> {
        Cat { head: self.head, tail: self.tail.spec_concat(other) }
    }

    proof fn lemma_concat_len(self, other: L) {
        self.tail.lemma_concat_len(other);
    }

    fn concat(self, other: L) -> (r: Cat<H, T::Output>) {
        Cat { head: self.head, tail: self.tail.concat(other) }
    }
}

/// Lists that can be turned round onto a list of type `L`.
pub trait TLReverseOnto<L: TList>: TList {
    /// The type of the result.
    type Output: TList;

    /// The elements of `self` in reverse order, followed by those of `list`.
    spec fn spec_reverse_onto(self, list: L) -> Self::Output;

    /// Turning a list round onto another adds the lengths.
    proof fn lemma_reverse_onto_len(self, list: L)
        ensures
            self.spec_reverse_onto(list).spec_len() == self.spec_len() + list.spec_len(),
    ;

    /// The elements of `self` in reverse order, followed by those of `list`.
    /// Only [`TLReverse::reverse`] can call it: no one else has a [`Key`].
    fn _reverse(self, list: L, _key: Key) -> (r: Self::Output)
        ensures
            r == self.spec_reverse_onto(list),
    ;
}

impl<L: TList> TLReverseOnto<L> for End {
    type Output = L;

    open spec fn spec_reverse_onto(self, list: L) -> L {
        list
    }

    proof fn lemma_reverse_onto_len(self, list: L) {
    }

    fn _reverse(self, list: L, _key: Key) -> (r: L) {
        list
    }
}

impl<H, T: TLReverseOnto<Cat<H, L>>, L: TList> TLReverseOnto<L> for Cat<H, T> {
    type Output = T::Output;

    open spec fn spec_reverse_onto(self, list: L) -> T::Output {
        self.tail.spec_reverse_onto(Cat { head: self.head, tail: list })
    }

    proof fn lemma_reverse_onto_len(self, list: L) {
        self.tail.lemma_reverse_onto_len(Cat { head: self.head, tail: list });
    }

    fn _reverse(self, list: L, _key: Key) -> (r: T::Output) {
        self.tail._reverse(Cat { head: self.head, tail: list }, Key {  })
    }
}

/// Lists that can be reversed.
pub trait TLReverse: TLReverseOnto<End> {
    /// The elements in reverse order.
    fn reverse(self) -> (r: Reverse<Self>)
        ensures
            r == self.spec_reverse_onto(End),
            r.spec_len() == self.spec_len(),
    ;
}

impl<L: TLReverseOnto<End>> TLReverse for L {
    fn reverse(self) -> (r: Reverse<Self>) {
        proof {
            self.lemma_reverse_onto_len(End);
        }
        self._reverse(End, Key {  })
    }
}

/// Lists with a first element.
pub trait NonEmpty: TList + Sealed {
    /// The type of the first element.
    type Head;

    /// The type of the list after the first element.
    type Tail: TList;

    /// The first element.
    spec fn spec_head(&self) -> Self::Head;

    /// The list after the first element.
    spec fn spec_tail(&self) -> Self::Tail;

    /// A list with a first element has one element more than its tail.
    proof fn lemma_non_empty(&self)
        ensures
            self.spec_len() == self.spec_tail().spec_len() + 1,
    ;

    /// The first element.
    fn head(&self) -> (r: &Head<Self>)
        ensures
            *r == self.spec_head(),
    ;

    /// The list after the first element.
    fn tail(&self) -> (r: &Tail<Self>)
        ensures
            *r == self.spec_tail(),
    ;
}

impl<H, T: TList> NonEmpty for Cat<H, T> {
    type Head = H;

    type Tail = T;

    open spec fn spec_head(&self) -> H {
        self.head
    }

    open spec fn spec_tail(&self) -> T {
        self.tail
    }

    proof fn lemma_non_empty(&self) {
    }

    fn head(&self) -> (r: &H) {
        &self.head
    }

    fn tail(&self) -> (r: &T) {
        &self.tail
    }
}

/// Lists that hold a value of type `T` at the place that `I` names. Where
/// no two elements have one type, the compiler finds `I` from `T`.
pub trait TLFind<T, I>: Sized {
    /// The value at the place.
    spec fn spec_find(&self) -> T;

    /// The list with `v` at the place and every other element unchanged.
    spec fn spec_replace(self, v: T) -> Self;

    /// What was put at the place is found there, and putting back what was
    /// found changes nothing.
    proof fn lemma_find_replace(self, v: T)
        ensures
            self.spec_replace(v).spec_find() == v,
            self.spec_replace(self.spec_find()) == self,
    ;

    /// The value at the place.
    fn find(&self) -> (r: &T)
        ensures
            *r == self.spec_find(),
    ;

    /// The value at the place, to be changed. Nothing else in the list
    /// changes.
    fn find_mut(&mut self) -> (r: &mut T)
        ensures
            *r == old(self).spec_find(),
            *final(self) == old(self).spec_replace(*final(r)),
    ;
}

/// Lists from which a clone of the value at the place `I` can be taken.
pub trait TLClone<T: Clone, I>: TLFind<T, I> {
    /// A clone of the value at the place.
    fn find_and_clone(&self) -> (r: T)
        ensures
            cloned(self.spec_find(), r),
    ;
}

impl<T, I, L> TLClone<T, I> for L where T: Clone, L: TLFind<T, I> {
    fn find_and_clone(&self) -> (r: T) {
        self.find().clone()
    }
}

/// The place of the first element.
pub struct Here;

/// The place that `I` names in the tail.
pub struct There<I>(core::marker::PhantomData<I>);

impl<T, Tail: TList> TLFind<T, Here> for Cat<T, Tail> {
    open spec fn spec_find(&self) -> T {
        self.head
    }

    open spec fn spec_replace(self, v: T) -> Self {
        Cat { head: v, tail: self.tail }
    }

    proof fn lemma_find_replace(self, v: T) {
    }

    fn find(&self) -> (r: &T) {
        &self.head
    }

    fn find_mut(&mut self) -> (r: &mut T) {
        &mut self.head
    }
}

impl<Head, T, TailIdx, Tail: TList + TLFind<T, TailIdx>> TLFind<T, There<TailIdx>> for Cat<
    Head,
    Tail,
> {
    open spec fn spec_find(&self) -> T {
        self.tail.spec_find()
    }

    open spec fn spec_replace(self, v: T) -> Self {
        Cat { head: self.head, tail: self.tail.spec_replace(v) }
    }

    proof fn lemma_find_replace(self, v: T) {
        self.tail.lemma_find_replace(v);
    }

    fn find(&self) -> (r: &T) {
        self.tail.find()
    }

    fn find_mut(&mut self) -> (r: &mut T) {
        self.tail.find_mut()
    }
}

/// Lists whose elements all have one type, and can therefore be reached by
/// their position. A position past the end gives [`Invalid`].
pub trait TListIndex: NonEmpty {
    /// The type of every element.
    type Elem;

    /// The elements, first to last.
    spec fn elems(&self) -> Seq<Self::Elem>;

    /// There are as many elements as the list is long, and two lists with
    /// the same elements are the same list.
    proof fn lemma_elems(&self, other: &Self)
        ensures
            self.elems().len() == self.spec_len(),
            self.elems() == other.elems() ==> self == other,
    ;

    /// The element at position `idx`, counted from zero.
    fn index(&self, idx: &Unsigned) -> (r: Result<&Self::Elem, Invalid>)
        ensures
            r is Ok <==> idx@ < self.elems().len(),
            r matches Ok(e) ==> *e == self.elems()[idx@ as int],
    ;

    /// The element at position `idx`, counted from zero, to be changed.
    /// Nothing else in the list changes.
    fn index_mut(&mut self, idx: &Unsigned) -> (r: Result<&mut Self::Elem, Invalid>)
        ensures
            r is Ok <==> idx@ < old(self).elems().len(),
            r matches Ok(e) ==> *e == old(self).elems()[idx@ as int] && final(self).elems() == old(
                self,
            ).elems().update(idx@ as int, *final(e)),
            r is Err ==> *final(self) == *old(self),
    ;
}

impl<H> TListIndex for Cat<H, End> {
    type Elem = H;

    open spec fn elems(&self) -> Seq<H> {
        seq![self.head]
    }

    proof fn lemma_elems(&self, other: &Self) {
        if self.elems() == other.elems() {
            assert(self.elems()[0] == other.elems()[0]);
            assert(self.head == other.head);
            assert(self.tail == other.tail);
        }
    }

    fn index(&self, idx: &Unsigned) -> (r: Result<&H, Invalid>) {
        if idx.is_zero() {
            Ok(&self.head)
        } else {
            Err(Invalid)
        }
    }

    fn index_mut(&mut self, idx: &Unsigned) -> (r: Result<&mut H, Invalid>) {
        if idx.is_zero() {
            Ok(&mut self.head)
        } else {
            Err(Invalid)
        }
    }
}

impl<H, T: TListIndex<Elem = H>> TListIndex for Cat<H, T> {
    type Elem = H;

    open spec fn elems(&self) -> Seq<H> {
        seq![self.head] + self.tail.elems()
    }

    proof fn lemma_elems(&self, other: &Self) {
        self.tail.lemma_elems(&other.tail);
        if self.elems() == other.elems() {
            assert(self.elems()[0] == other.elems()[0]);
            assert(self.tail.elems() == self.elems().subrange(1, self.elems().len() as int));
            assert(other.tail.elems() == other.elems().subrange(1, other.elems().len() as int));
        }
    }

    fn index(&self, idx: &Unsigned) -> (r: Result<&H, Invalid>) {
        if idx.is_zero() {
            Ok(&self.head)
        } else {
            match idx.dec() {
                Ok(d) => self.tail.index(&d),
                Err(e) => Err(e),
            }
        }
    }

    fn index_mut(&mut self, idx: &Unsigned) -> (r: Result<&mut H, Invalid>) {
        if idx.is_zero() {
            Ok(&mut self.head)
        } else {
            match idx.dec() {
                Ok(d) => self.tail.index_mut(&d),
                Err(e) => Err(e),
            }
        }
    }
}

/// The type of `L` with a `T` put in front of it.
pub type Push<L, T> = Cat<T, L>;

/// The type of `Lhs` followed by `Rhs`.
pub type Concat<Lhs, Rhs> = <Lhs as TLConcat<Rhs>>::Output;

/// The type of `L` reversed.
pub type Reverse<L> = <L as TLReverseOnto<End>>::Output;

/// [`True`] where `L` is the empty list, [`False`] otherwise.
pub type IsEmpty<L> = <L as TList>::IsEmpty;

/// The type of the first element of `L`.
pub type Head<L> = <L as NonEmpty>::Head;

/// The type of `L` without its first element.
pub type Tail<L> = <L as NonEmpty>::Tail;

} // verus!
