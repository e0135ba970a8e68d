use integration_dynamics::fixed::{Fixed, SCALE};
use integration_dynamics::scalar::{fraction, Scalar};

fn whole(n: i32) -> Fixed {
    Fixed::from_int(n)
}

#[test]
fn an_integer_is_that_many_units_of_the_scale() {
    assert_eq!(whole(0).raw(), 0);
    assert_eq!(whole(1).raw(), SCALE);
    assert_eq!(whole(-3).raw(), -3 * SCALE);
    assert_eq!(whole(i32::MAX).raw(), 2147483647 * SCALE);
    assert_eq!(whole(i32::MIN).raw(), i64::MIN);
}

#[test]
fn sums_and_differences_are_exact() {
    assert_eq!(whole(2).plus(whole(3)), whole(5));
    assert_eq!(whole(2).minus(whole(3)), whole(-1));
    assert_eq!(whole(-7).negated(), whole(7));
    assert_eq!(Fixed::from_raw(5).plus(Fixed::from_raw(-8)), Fixed::from_raw(-3));
}

#[test]
fn a_result_that_does_not_fit_is_clamped() {
    let top = Fixed::from_raw(i64::MAX);
    let bottom = Fixed::from_raw(i64::MIN);
    assert_eq!(top.plus(whole(1)), top);
    assert_eq!(bottom.minus(whole(1)), bottom);
    assert_eq!(bottom.negated(), top);
    assert_eq!(top.negated(), Fixed::from_raw(i64::MIN + 1));
    assert_eq!(whole(i32::MAX).times(whole(2)), top);
    assert_eq!(whole(i32::MAX).times(whole(-2)), bottom);
    assert_eq!(whole(i32::MIN).times(whole(i32::MIN)), top);
    assert_eq!(whole(i32::MAX).over(Fixed::from_raw(1)), top);
    assert_eq!(whole(i32::MIN).over(Fixed::from_raw(1)), bottom);
}

#[test]
fn products_round_toward_zero() {
    assert_eq!(whole(3).times(whole(2)), whole(6));
    assert_eq!(whole(-3).times(whole(2)), whole(-6));
    assert_eq!(whole(-3).times(whole(-2)), whole(6));
    let third: Fixed = fraction(1, 3);
    assert_eq!(third.raw(), 1431655765);
    assert_eq!(third.negated().times(third).raw(), -477218588);
    assert_eq!(third.times(third.negated()).raw(), -477218588);
    assert_eq!(third.times(third).raw(), 477218588);
    assert_eq!(Fixed::from_raw(1).times(Fixed::from_raw(1)).raw(), 0);
    assert_eq!(Fixed::from_raw(-1).times(Fixed::from_raw(1)).raw(), 0);
}

#[test]
fn quotients_round_toward_zero() {
    assert_eq!(whole(6).over(whole(3)), whole(2));
    assert_eq!(whole(1).over(whole(2)).raw(), SCALE / 2);
    assert_eq!(whole(-1).over(whole(2)).raw(), -(SCALE / 2));
    assert_eq!(whole(1).over(whole(-2)).raw(), -(SCALE / 2));
    assert_eq!(Fixed::from_raw(-7).over(whole(2)).raw(), -3);
    assert_eq!(Fixed::from_raw(7).over(whole(-2)).raw(), -3);
    assert_eq!(Fixed::from_raw(-7).over(whole(-2)).raw(), 3);
}

#[test]
fn a_quotient_by_zero_goes_to_the_bound_of_its_sign() {
    assert_eq!(whole(1).over(whole(0)).raw(), i64::MAX);
    assert_eq!(whole(-1).over(whole(0)).raw(), i64::MIN);
    assert_eq!(whole(0).over(whole(0)).raw(), 0);
}

#[test]
fn roots_round_down() {
    assert_eq!(whole(4).root(), whole(2));
    assert_eq!(whole(9).root(), whole(3));
    assert_eq!(whole(2).root().raw(), 6074000999);
    assert_eq!(whole(1).over(whole(4)).root().raw(), SCALE / 2);
    assert_eq!(whole(0).root(), whole(0));
    assert_eq!(whole(-4).root(), whole(0));
    let top = Fixed::from_raw(i64::MAX).root().raw();
    assert!((top as i128) * (top as i128) <= (i64::MAX as i128) * (SCALE as i128));
    assert!((top as i128 + 1) * (top as i128 + 1) > (i64::MAX as i128) * (SCALE as i128));
}

#[test]
fn order_follows_the_raw_units() {
    assert!(whole(1).lt(whole(2)));
    assert!(!whole(2).lt(whole(2)));
    assert!(whole(2).le(whole(2)));
    assert!(!whole(3).le(whole(2)));
    assert!(whole(-3).lt(Fixed::from_raw(0)));
}
