use oxideav_core::rational::Rational;


#[test]
fn reduce() {
    assert_eq!(Rational::new(10, 20).reduced(), Rational::new(1, 2));
    assert_eq!(Rational::new(-6, 9).reduced(), Rational::new(-2, 3));
    assert_eq!(Rational::new(6, -9).reduced(), Rational::new(-2, 3));
}

#[test]
fn invert() {
    assert_eq!(Rational::new(1, 2).invert(), Rational::new(2, 1));
}

#[test]
fn cmp_value_orders_by_number_not_fields() {
    // Structurally unequal, value-equal.
    assert!(Rational::new(1, 2).equals_value(&Rational::new(2, 4)));
    assert_ne!(Rational::new(1, 2), Rational::new(2, 4));

    assert_eq!(
        Rational::new(1, 3).cmp_value(&Rational::new(1, 2)),
        std::cmp::Ordering::Less
    );
    assert_eq!(
        Rational::new(30_000, 1001).cmp_value(&Rational::new(30, 1)),
        std::cmp::Ordering::Less
    );
    // Negative denominator folds onto numerator for comparison.
    assert!(Rational::new(1, -2).equals_value(&Rational::new(-1, 2)));
    assert_eq!(
        Rational::new(-1, 2).cmp_value(&Rational::new(1, 2)),
        std::cmp::Ordering::Less
    );
}

#[test]
fn cmp_value_zero_denominator_is_total() {
    let pos_inf = Rational::new(1, 0);
    let neg_inf = Rational::new(-1, 0);
    let finite = Rational::new(1_000_000, 1);
    assert_eq!(pos_inf.cmp_value(&finite), std::cmp::Ordering::Greater);
    assert_eq!(finite.cmp_value(&pos_inf), std::cmp::Ordering::Less);
    assert_eq!(neg_inf.cmp_value(&finite), std::cmp::Ordering::Less);
    assert_eq!(pos_inf.cmp_value(&neg_inf), std::cmp::Ordering::Greater);
    assert!(pos_inf.equals_value(&Rational::new(7, 0)));
}

#[test]
fn signum_and_abs() {
    assert_eq!(Rational::new(3, 4).signum(), 1);
    assert_eq!(Rational::new(-3, 4).signum(), -1);
    assert_eq!(Rational::new(3, -4).signum(), -1);
    assert_eq!(Rational::new(0, 4).signum(), 0);
    assert_eq!(Rational::new(-3, 4).abs(), Rational::new(3, 4));
    assert_eq!(Rational::new(3, -4).abs(), Rational::new(3, 4));
}

#[test]
fn arithmetic_reduces() {
    assert_eq!(
        Rational::new(1, 2) + Rational::new(1, 3),
        Rational::new(5, 6)
    );
    assert_eq!(
        Rational::new(1, 2) - Rational::new(1, 3),
        Rational::new(1, 6)
    );
    // 2/4 * 3/9 = 6/36 = 1/6
    assert_eq!(
        Rational::new(2, 4) * Rational::new(3, 9),
        Rational::new(1, 6)
    );
    // (1/2) / (3/4) = 4/6 = 2/3
    assert_eq!(
        Rational::new(1, 2) / Rational::new(3, 4),
        Rational::new(2, 3)
    );
    assert_eq!(-Rational::new(1, 2), Rational::new(-1, 2));
}

#[test]
fn arithmetic_uses_128bit_intermediates() {
    // Products that overflow i64 but reduce back into range must
    // still yield the correct reduced fraction.
    let big = Rational::new(i64::MAX / 2, 3);
    let r = big * Rational::new(3, 1);
    assert_eq!(r, Rational::new(i64::MAX / 2, 1));
    // num/den both large, equal → reduces to 1/1.
    let a = Rational::new(1_000_000_000, 1);
    let sum = a + a; // 2_000_000_000 / 1
    assert_eq!(sum, Rational::new(2_000_000_000, 1));
}
