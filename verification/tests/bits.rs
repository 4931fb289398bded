use tynum::num::bit::Bit;
use tynum::num::bit::Bit::{B0, B1};

const BITS: [Bit; 2] = [B0, B1];

fn n(b: Bit) -> usize {
    b.to_usize()
}

#[test]
fn bit_values() {
    assert_eq!(B0.to_usize(), 0);
    assert_eq!(B1.to_usize(), 1);
    assert!(B0.is_zero());
    assert!(!B1.is_zero());
}

#[test]
fn bit_logic_tables() {
    assert_eq!(B0.not(), B1);
    assert_eq!(B1.not(), B0);
    assert_eq!([B0.and(B0), B0.and(B1), B1.and(B0), B1.and(B1)], [B0, B0, B0, B1]);
    assert_eq!([B0.or(B0), B0.or(B1), B1.or(B0), B1.or(B1)], [B0, B1, B1, B1]);
    assert_eq!([B0.xor(B0), B0.xor(B1), B1.xor(B0), B1.xor(B1)], [B0, B1, B1, B0]);
}

#[test]
fn half_adder_table() {
    assert_eq!([B0.add(B0), B0.add(B1), B1.add(B0), B1.add(B1)], [B0, B1, B1, B0]);
    assert_eq!([B0.carry(B0), B0.carry(B1), B1.carry(B0), B1.carry(B1)], [B0, B0, B0, B1]);
    for b in BITS {
        for r in BITS {
            assert_eq!(n(b.add(r)) + 2 * n(b.carry(r)), n(b) + n(r));
        }
    }
}

#[test]
fn full_adder_table() {
    assert_eq!(B1.full_add(B1, B1), B1);
    assert_eq!(B1.full_carry(B1, B1), B1);
    assert_eq!(B1.full_add(B1, B0), B0);
    assert_eq!(B1.full_carry(B1, B0), B1);
    assert_eq!(B0.full_carry(B1, B1), B1);
    assert_eq!(B1.full_carry(B0, B1), B1);
    assert_eq!(B0.full_carry(B0, B1), B0);
    for b in BITS {
        for r in BITS {
            for c in BITS {
                assert_eq!(n(b.full_add(r, c)) + 2 * n(b.full_carry(r, c)), n(b) + n(r) + n(c));
            }
        }
    }
}

#[test]
fn half_subtractor_table() {
    assert_eq!([B0.diff(B0), B0.diff(B1), B1.diff(B0), B1.diff(B1)], [B0, B1, B1, B0]);
    assert_eq!([B0.borrow(B0), B0.borrow(B1), B1.borrow(B0), B1.borrow(B1)], [B0, B1, B0, B0]);
}

#[test]
fn full_subtractor_table() {
    assert_eq!(B0.full_diff(B1, B1), B0);
    assert_eq!(B0.full_borrow(B1, B1), B1);
    assert_eq!(B1.full_diff(B1, B1), B1);
    assert_eq!(B1.full_borrow(B1, B1), B1);
    assert_eq!(B1.full_borrow(B0, B1), B0);
    assert_eq!(B1.full_borrow(B1, B0), B0);
    assert_eq!(B0.full_borrow(B0, B1), B1);
    for b in BITS {
        for r in BITS {
            for c in BITS {
                let lhs = n(b.full_diff(r, c)) as i32 - 2 * n(b.full_borrow(r, c)) as i32;
                assert_eq!(lhs, n(b) as i32 - n(r) as i32 - n(c) as i32);
            }
        }
    }
}
