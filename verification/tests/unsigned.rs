use tynum::num::bit::Bit::{B0, B1};
use tynum::num::unsigned::Unsigned;
use tynum::num::unsigned::Unsigned::{Last, UInt};
use tynum::Invalid;

fn u(n: usize) -> Unsigned {
    Unsigned::from_usize(n)
}

fn chain(bits: &[usize]) -> Unsigned {
    let digit = |b: usize| if b == 0 { B0 } else { B1 };
    let mut acc = Last(digit(bits[0]));
    for b in &bits[1..] {
        acc = UInt(Box::new(acc), digit(*b));
    }
    acc
}

#[test]
fn from_usize_is_canonical() {
    assert_eq!(u(0), Last(B0));
    assert_eq!(u(1), Last(B1));
    assert_eq!(u(2), chain(&[1, 0]));
    assert_eq!(u(5), chain(&[1, 0, 1]));
    assert_eq!(u(12), chain(&[1, 1, 0, 0]));
    for n in 0..200 {
        assert_eq!(u(n).to_usize(), n);
        assert_eq!(u(n).rm_extra_bits(), u(n));
    }
}

#[test]
fn from_bits_strips_leading_zeros() {
    assert_eq!(Unsigned::from_bits(&[]), Last(B0));
    assert_eq!(Unsigned::from_bits(&[B0, B0]), Last(B0));
    assert_eq!(Unsigned::from_bits(&[B1, B0]), u(2));
    assert_eq!(Unsigned::from_bits(&[B0, B1, B0, B1]), u(5));
    assert_eq!(Unsigned::from_bits(&[B1, B0, B0, B0, B0, B0]), u(32));
}

#[test]
fn materialize_reads_leading_zeros() {
    assert_eq!(chain(&[0, 0, 1, 1]).to_usize(), 3);
    assert_eq!(chain(&[0, 0, 1, 1]).checked_to_usize(), Some(3));
    assert_eq!(u(usize::MAX).checked_to_usize(), Some(usize::MAX));
    assert_eq!(u(usize::MAX).inc().checked_to_usize(), None);
    assert_eq!(u(usize::MAX).bsl().checked_to_usize(), None);
}

#[test]
fn lsb_and_msb() {
    assert_eq!(u(6).lsb(), B0);
    assert_eq!(u(7).lsb(), B1);
    assert_eq!(u(6).msb(), Ok(&u(3)));
    assert_eq!(Last(B1).msb(), Err(Invalid));
    assert_eq!(Last(B0).msb(), Err(Invalid));
}

#[test]
fn is_zero_ignores_length() {
    assert!(u(0).is_zero());
    assert!(chain(&[0, 0, 0]).is_zero());
    assert!(!chain(&[0, 1, 0]).is_zero());
}

#[test]
fn increment_propagates_carry() {
    assert_eq!(Last(B0).inc(), Last(B1));
    assert_eq!(Last(B1).inc(), chain(&[1, 0]));
    assert_eq!(chain(&[1, 0]).inc(), chain(&[1, 1]));
    assert_eq!(chain(&[1, 1]).inc(), chain(&[1, 0, 0]));
    assert_eq!(chain(&[0, 1, 1]).inc(), chain(&[1, 0, 0]));
}

#[test]
fn decrement_propagates_borrow() {
    assert_eq!(Last(B1).dec(), Ok(Last(B0)));
    assert_eq!(chain(&[1, 1]).dec(), Ok(chain(&[1, 0])));
    assert_eq!(chain(&[1, 0]).dec(), Ok(chain(&[0, 1])));
    assert_eq!(chain(&[1, 0, 0]).dec(), Ok(chain(&[0, 1, 1])));
}

#[test]
fn decrement_of_zero_is_invalid() {
    assert_eq!(Last(B0).dec(), Err(Invalid));
    assert_eq!(chain(&[0, 0]).dec(), Err(Invalid));
    assert_eq!(u(0).dec(), Err(Invalid));
}

#[test]
fn round_trips_after_canonicalization() {
    for n in 0..130 {
        let back = u(n).inc().dec().unwrap().rm_extra_bits();
        assert_eq!(back, u(n));
    }
    for n in 1..130 {
        let back = u(n).dec().unwrap().inc().rm_extra_bits();
        assert_eq!(back, u(n));
    }
}

#[test]
fn canonicalization() {
    assert_eq!(chain(&[0, 0, 0]).rm_extra_bits(), Last(B0));
    assert_eq!(chain(&[0, 1]).rm_extra_bits(), Last(B1));
    assert_eq!(chain(&[0, 0, 1, 0, 1]).rm_extra_bits(), chain(&[1, 0, 1]));
    assert_eq!(chain(&[1, 0, 0]).rm_extra_bits(), chain(&[1, 0, 0]));
    let once = chain(&[0, 1, 1]).rm_extra_bits();
    assert_eq!(once.rm_extra_bits(), once);
}

#[test]
fn shifts() {
    assert_eq!(Last(B0).bsl(), Last(B0));
    assert_eq!(Last(B1).bsl(), chain(&[1, 0]));
    assert_eq!(chain(&[0, 1]).bsl(), chain(&[0, 1, 0]));
    assert_eq!(Last(B1).bsr(), Last(B0));
    assert_eq!(chain(&[1, 1, 1]).bsr(), chain(&[1, 1]));
    for n in 0..100 {
        assert_eq!(u(n).bsl().to_usize(), 2 * n);
        assert_eq!(u(n).bsr().to_usize(), n / 2);
    }
}

#[test]
fn padding() {
    assert_eq!(Last(B1).pad_to(&chain(&[1, 1, 1])), chain(&[0, 0, 1]));
    assert_eq!(chain(&[1, 0]).pad_to(&chain(&[1, 1, 1])), chain(&[0, 1, 0]));
    assert_eq!(chain(&[1, 0, 1]).pad_to(&Last(B0)), chain(&[1, 0, 1]));
    assert_eq!(chain(&[1, 0, 1]).pad_to(&chain(&[0, 0, 0])), chain(&[1, 0, 1]));
}

#[test]
fn add_with_carry_keeps_the_last_carry() {
    assert_eq!(Last(B1).add_with_carry(&Last(B1), B1), chain(&[1, 1]));
    assert_eq!(Last(B0).add_with_carry(&Last(B0), B0), chain(&[0, 0]));
    assert_eq!(chain(&[1, 1]).add_with_carry(&chain(&[0, 1]), B0), chain(&[1, 0, 0]));
    assert_eq!(chain(&[1, 1]).add_with_carry(&chain(&[1, 1]), B1), chain(&[1, 1, 1]));
}

#[test]
fn addition() {
    assert_eq!(Last(B0).add(&chain(&[0, 1])), chain(&[0, 1]));
    assert_eq!(Last(B1).add(&chain(&[1, 1])), chain(&[1, 0, 0]));
    assert_eq!(chain(&[1, 0]).add(&Last(B1)), chain(&[0, 1, 1]));
    for a in 0..40 {
        for b in 0..40 {
            assert_eq!(u(a).add(&u(b)).to_usize(), a + b);
        }
    }
}

#[test]
fn addition_commutes_and_associates_after_canonicalization() {
    for a in 0..12 {
        for b in 0..12 {
            assert_eq!(u(a).add(&u(b)).rm_extra_bits(), u(b).add(&u(a)).rm_extra_bits());
            for c in 0..12 {
                let left = u(a).add(&u(b)).add(&u(c)).rm_extra_bits();
                let right = u(a).add(&u(b).add(&u(c))).rm_extra_bits();
                assert_eq!(left, right);
                assert_eq!(left, u(a + b + c));
            }
        }
    }
}

#[test]
fn sub_with_borrow_keeps_the_last_borrow() {
    assert_eq!(Last(B1).sub_with_borrow(&Last(B0), B0), chain(&[0, 1]));
    assert_eq!(Last(B0).sub_with_borrow(&Last(B1), B0), chain(&[1, 1]));
    assert_eq!(chain(&[1, 0]).sub_with_borrow(&chain(&[0, 1]), B0), chain(&[0, 0, 1]));
    assert_eq!(chain(&[1, 0]).sub_with_borrow(&chain(&[0, 1]), B1), chain(&[0, 0, 0]));
    assert_eq!(chain(&[0, 1]).sub_with_borrow(&chain(&[1, 0]), B0), chain(&[1, 1, 1]));
}

#[test]
fn subtraction() {
    for a in 0..40 {
        for b in 0..=a {
            assert_eq!(u(a).sub(&u(b)), u(a - b));
        }
        assert_eq!(u(a).sub(&u(a)), Last(B0));
    }
    assert_eq!(chain(&[0, 0, 1, 1]).sub(&chain(&[1, 1])), Last(B0));
}

#[test]
fn subtraction_of_the_greater_wraps() {
    // one digit each: 0 - 1 is -1, and -1 + 2^2 = 3
    assert_eq!(u(0).sub(&u(1)).to_usize(), 3);
    // two digits at most: 1 - 2 is -1, and -1 + 2^3 = 7
    assert_eq!(u(1).sub(&u(2)).to_usize(), 7);
    // three digits at most: 2 - 5 is -3, and -3 + 2^4 = 13
    assert_eq!(u(2).sub(&u(5)).to_usize(), 13);
}

#[test]
fn multiplication() {
    assert_eq!(Last(B0).mul(&u(9)), Last(B0));
    assert_eq!(Last(B1).mul(&u(9)), u(9));
    assert_eq!(u(4).mul(&u(3)), u(12));
    for a in 0..40 {
        for b in 0..40 {
            assert_eq!(u(a).mul(&u(b)).to_usize(), a * b);
        }
    }
}

#[test]
fn clone_is_equal() {
    let x = chain(&[0, 1, 1, 0, 1]);
    assert_eq!(x.clone(), x);
}
