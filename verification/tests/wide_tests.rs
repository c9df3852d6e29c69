use cedar_bench::wide::Wide;

#[test]
fn products_are_exact() {
    let w = Wide::product(0, u128::MAX);
    assert_eq!((w.hi, w.lo), (0, 0));
    let w = Wide::product(3, 5);
    assert_eq!((w.hi, w.lo), (0, 15));
    // (2^128 - 1)^2 = 2^256 - 2^129 + 1.
    let w = Wide::product(u128::MAX, u128::MAX);
    assert_eq!((w.hi, w.lo), (u128::MAX - 1, 1));
    // 2^64 * 2^64 = 2^128.
    let w = Wide::product(1 << 64, 1 << 64);
    assert_eq!((w.hi, w.lo), (1, 0));
    // (2^100 + 7) * (2^90 + 3) = 2^190 + 3 * 2^100 + 7 * 2^90 + 21.
    let w = Wide::product((1 << 100) + 7, (1 << 90) + 3);
    assert_eq!((w.hi, w.lo), (1 << 62, (3u128 << 100) + (7u128 << 90) + 21));
}

#[test]
fn sums_carry() {
    let a = Wide { hi: 1, lo: u128::MAX };
    let b = Wide { hi: 2, lo: 1 };
    let s = a.plus(b);
    assert_eq!((s.hi, s.lo), (4, 0));
    let s = Wide::from_u128(5).plus(Wide::zero());
    assert_eq!((s.hi, s.lo), (0, 5));
    let s = Wide { hi: 0, lo: u128::MAX }.plus(Wide { hi: 0, lo: u128::MAX });
    assert_eq!((s.hi, s.lo), (1, u128::MAX - 1));
}

#[test]
fn differences_borrow() {
    let a = Wide { hi: 4, lo: 0 };
    let b = Wide { hi: 2, lo: 1 };
    let d = a.minus(b);
    assert_eq!((d.hi, d.lo), (1, u128::MAX));
    let d = Wide { hi: 7, lo: 9 }.minus(Wide { hi: 7, lo: 9 });
    assert_eq!((d.hi, d.lo), (0, 0));
    let d = Wide { hi: 7, lo: 9 }.minus(Wide { hi: 3, lo: 4 });
    assert_eq!((d.hi, d.lo), (4, 5));
}

#[test]
fn order_looks_at_the_high_half_first() {
    assert!(Wide { hi: 1, lo: 0 }.at_most(Wide { hi: 1, lo: 0 }));
    assert!(Wide { hi: 0, lo: u128::MAX }.at_most(Wide { hi: 1, lo: 0 }));
    assert!(!Wide { hi: 1, lo: 0 }.at_most(Wide { hi: 0, lo: u128::MAX }));
    assert!(!Wide { hi: 1, lo: 2 }.at_most(Wide { hi: 1, lo: 1 }));
}

#[test]
fn scaling_by_a_count() {
    let w = Wide { hi: 3, lo: u128::MAX }.times(4);
    assert_eq!((w.hi, w.lo), (15, u128::MAX - 3));
    let w = Wide { hi: 3, lo: 5 }.times(0);
    assert_eq!((w.hi, w.lo), (0, 0));
    let w = Wide { hi: 0, lo: 1 << 127 }.times(u64::MAX);
    assert_eq!((w.hi, w.lo), ((u64::MAX as u128) >> 1, 1 << 127));
}
