use puzzle_core::ratio::Ratio;

#[test]
fn approx() {
    assert_eq!(Ratio::new(2, 4), Ratio { numer: 1, denom: 2 });
    assert_eq!(Ratio::new(11, 12), Ratio { numer: 11, denom: 12 });
}

#[test]
fn ratio_add() {
    let lhs = Ratio { numer: 3, denom: 4 };
    let rhs = Ratio { numer: 1, denom: 6 };
    // (9/12) + (2/12) = (11/12)
    assert_eq!(lhs.add(rhs), Ratio { numer: 11, denom: 12 });
}

#[test]
fn add_then_approx() {
    let lhs = Ratio { numer: 3, denom: 4 };
    let rhs = Ratio { numer: 3, denom: 6 };
    // (9/12) + (6/12) = (15/12) = (5/4)
    assert_eq!(lhs.add(rhs), Ratio { numer: 5, denom: 4 });

    let lhs = Ratio { numer: 3, denom: 25 };
    let rhs = Ratio { numer: 3, denom: 75 };
    assert_eq!(lhs.add(rhs), Ratio { numer: 4, denom: 25 });
}

#[test]
fn ratio_sub() {
    let lhs = Ratio { numer: 3, denom: 4 };
    let rhs = Ratio { numer: 3, denom: 6 };
    // (9/12) - (6/12) = (3/12) = (1/4)
    assert_eq!(lhs.sub(rhs), Ratio { numer: 1, denom: 4 });
}

#[test]
fn mul_scalar() {
    let ratio = Ratio::new(3, 4);
    assert_eq!(ratio.mul_scalar(3), Ratio { numer: 9, denom: 4 });
    assert_eq!(ratio.mul_scalar(4), Ratio { numer: 3, denom: 1 });
}

#[test]
fn ratio_mul() {
    let lhs = Ratio::new(3, 4);
    let rhs = Ratio::new(11, 5);
    assert_eq!(lhs.mul(rhs), Ratio { numer: 33, denom: 20 });

    let lhs = Ratio::new(3, 12);
    let rhs = Ratio::new(10, 5);
    assert_eq!(lhs.mul(rhs), Ratio { numer: 1, denom: 2 });
}

#[test]
fn ratio_div() {
    let lhs = Ratio::new(3, 4);
    let rhs = Ratio::new(11, 5);
    assert_eq!(lhs.div(rhs), Some(Ratio { numer: 15, denom: 44 }));
    let lhs = Ratio::new(2, 3);
    let rhs = Ratio::new(2, 5);
    assert_eq!(lhs.div(rhs), Some(Ratio { numer: 5, denom: 3 }));
    let lhs = Ratio::new(2, 3);
    let rhs = Ratio::new(0, 5);
    assert_eq!(lhs.div(rhs), None);
}

#[test]
fn reduction_keeps_lowest_terms() {
    // The reduced form has coprime parts and a positive denominator.
    assert_eq!(Ratio::new(-4, 6), Ratio { numer: -2, denom: 3 });
    assert_eq!(Ratio::new(4, -6), Ratio { numer: -2, denom: 3 });
    assert_eq!(Ratio::new(-4, -6), Ratio { numer: 2, denom: 3 });
    assert_eq!(Ratio::new(0, -5), Ratio { numer: 0, denom: 1 });
    assert_eq!(Ratio::new(0, 7), Ratio { numer: 0, denom: 1 });
    assert_eq!(Ratio::new(360, 48), Ratio { numer: 15, denom: 2 });
}

#[test]
fn checked_ops_decline_overflow() {
    let big = Ratio { numer: i64::MAX, denom: 1 };
    assert_eq!(big.checked_add(big), None);
    assert_eq!(big.checked_mul(big), None);
    assert_eq!(big.checked_mul_scalar(2), None);
    let small = Ratio { numer: 1, denom: 2 };
    assert_eq!(small.checked_add(small), Some(Ratio { numer: 1, denom: 1 }));
    assert_eq!(small.checked_div(Ratio { numer: 0, denom: 1 }), None);
}

#[test]
fn from_int_is_unit_denominator() {
    assert_eq!(Ratio::from_int(7), Ratio { numer: 7, denom: 1 });
    assert_eq!(Ratio::from_int(-3), Ratio { numer: -3, denom: 1 });
}
