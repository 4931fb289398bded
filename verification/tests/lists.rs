use tynum::bool::{And, Bool, False, If, Not, Or, Select, True, Xor};
use tynum::list::{
    Cat, Concat, End, Head, IsEmpty, NonEmpty, Reverse, TLClone, TLConcat, TLFind, TLReverse,
    TList, TListIndex, Tail,
};
use tynum::num::unsigned::Unsigned;
use tynum::Invalid;

fn u(n: usize) -> Unsigned {
    Unsigned::from_usize(n)
}

#[test]
fn boolean_tables() {
    assert!(<Not<False> as Bool>::BOOL);
    assert!(!<Not<True> as Bool>::BOOL);
    assert!(<And<True, True> as Bool>::BOOL);
    assert!(!<And<True, False> as Bool>::BOOL);
    assert!(!<And<False, True> as Bool>::BOOL);
    assert!(!<And<False, False> as Bool>::BOOL);
    assert!(<Or<True, False> as Bool>::BOOL);
    assert!(<Or<False, True> as Bool>::BOOL);
    assert!(<Or<True, True> as Bool>::BOOL);
    assert!(!<Or<False, False> as Bool>::BOOL);
    assert!(<Xor<True, False> as Bool>::BOOL);
    assert!(<Xor<False, True> as Bool>::BOOL);
    assert!(!<Xor<True, True> as Bool>::BOOL);
    assert!(!<Xor<False, False> as Bool>::BOOL);
}

#[test]
fn cond_picks_a_type_and_runs_one_branch() {
    let a: If<True, i32, &str> = True::cond(|| 1i32, || "no");
    let b: If<False, i32, &str> = False::cond(|| 1i32, || "yes");
    assert_eq!(a, 1);
    assert_eq!(b, "yes");
    let skipped: i32 = True::cond(|| 7, || -> i32 { panic!("the other branch ran") });
    assert_eq!(skipped, 7);
}

#[test]
fn length_and_emptiness() {
    assert_eq!(End.len(), 0);
    assert_eq!(End.length(), u(0));
    let list = End.push(1u8).push("two").push(3.0f32);
    assert_eq!(list.len(), 3);
    assert_eq!(list.length(), u(3));
    assert!(<IsEmpty<End> as Bool>::BOOL);
    assert!(!<IsEmpty<Cat<u8, End>> as Bool>::BOOL);
}

#[test]
fn push_puts_in_front() {
    let list = End.push(1u8).push("two");
    assert_eq!(list.head, "two");
    assert_eq!(list.tail.head, 1u8);
}

#[test]
fn head_and_tail() {
    let list = End.push(1u8).push("two");
    let h: &Head<Cat<&str, Cat<u8, End>>> = list.head();
    let t: &Tail<Cat<&str, Cat<u8, End>>> = list.tail();
    assert_eq!(*h, "two");
    assert_eq!(t.head, 1u8);
}

#[test]
fn concat_keeps_order() {
    let joined: Concat<Cat<u8, Cat<u16, End>>, Cat<u32, End>> =
        End.push(2u16).push(1u8).concat(End.push(3u32));
    assert_eq!(joined.head, 1u8);
    assert_eq!(joined.tail.head, 2u16);
    assert_eq!(joined.tail.tail.head, 3u32);
    assert_eq!(joined.len(), 3);
    let same = End.concat(End.push(9u8));
    assert_eq!(same.head, 9u8);
}

#[test]
fn reverse_turns_round() {
    let list = End.push(3u32).push(2u16).push(1u8);
    let back: Reverse<Cat<u8, Cat<u16, Cat<u32, End>>>> = list.reverse();
    assert_eq!(back.head, 3u32);
    assert_eq!(back.tail.head, 2u16);
    assert_eq!(back.tail.tail.head, 1u8);
    assert_eq!(back.len(), 3);
    let twice = back.reverse();
    assert_eq!(twice.head, 1u8);
    let _end: End = End.reverse();
}

#[test]
fn find_and_clone_copies_out() {
    let list = End.push(String::from("text")).push(4u8);
    let s: String = list.find_and_clone();
    assert_eq!(s, "text");
    let n: u8 = list.find_and_clone();
    assert_eq!(n, 4);
    assert_eq!(list.tail.head, "text");
}

#[test]
fn find_mut_changes_one_place() {
    let mut list = End.push(1u8).push(2u16).push(3u32);
    *TLFind::<u16, _>::find_mut(&mut list) = 20;
    assert_eq!(list.head, 3u32);
    assert_eq!(list.tail.head, 20u16);
    assert_eq!(list.tail.tail.head, 1u8);
}

#[test]
fn index_by_number() {
    let list = End.push(30i32).push(20i32).push(10i32);
    assert_eq!(list.index(&u(0)), Ok(&10));
    assert_eq!(list.index(&u(1)), Ok(&20));
    assert_eq!(list.index(&u(2)), Ok(&30));
    assert_eq!(list.index(&u(3)), Err(Invalid));
    assert_eq!(list.index(&u(4)), Err(Invalid));
    let padded = Unsigned::UInt(Box::new(Unsigned::from_usize(0)), tynum::num::bit::Bit::B1);
    assert_eq!(list.index(&padded), Ok(&20));
}

#[test]
fn index_mut_changes_one_place() {
    let mut list = End.push(30i32).push(20i32).push(10i32);
    *list.index_mut(&u(1)).unwrap() += 5;
    assert_eq!(list.head, 10);
    assert_eq!(list.tail.head, 25);
    assert_eq!(list.tail.tail.head, 30);
    assert!(list.index_mut(&u(3)).is_err());
    assert_eq!(list.tail.tail.head, 30);
    let mut single = Cat { head: 1u8, tail: End };
    assert!(single.index_mut(&u(1)).is_err());
    *single.index_mut(&u(0)).unwrap() = 2;
    assert_eq!(single.head, 2);
}
