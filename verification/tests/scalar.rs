use gemini::scalar::{Scalar, SCALE};

fn px(v: f64) -> Scalar {
    Scalar::from_raw((v * 65536.0) as i64)
}

#[test]
fn whole_numbers_are_multiples_of_the_scale() {
    assert_eq!(SCALE, 65536);
    assert_eq!(Scalar::whole(3).raw, 3 * 65536);
    assert_eq!(Scalar::whole(-2).raw, -2 * 65536);
    assert_eq!(Scalar::units(640).raw, 640 * 65536);
    assert_eq!(Scalar::zero().raw, 0);
    assert_eq!(Scalar::default().raw, 0);
    assert_eq!(Scalar::from_raw(17).raw, 17);
}

#[test]
fn sums_and_differences_are_exact_in_range() {
    assert_eq!(px(1.5).plus(px(2.25)), px(3.75));
    assert_eq!(px(1.5).minus(px(2.25)), px(-0.75));
}

#[test]
fn sums_and_differences_saturate() {
    let top = Scalar::from_raw(i64::MAX);
    let bottom = Scalar::from_raw(i64::MIN);
    assert_eq!(top.plus(Scalar::from_raw(1)), top);
    assert_eq!(bottom.minus(Scalar::from_raw(1)), bottom);
    assert_eq!(bottom.plus(bottom), bottom);
    assert_eq!(top.minus(bottom), top);
}

#[test]
fn products_round_toward_zero() {
    assert_eq!(px(1.5).times(px(2.5)), px(3.75));
    assert_eq!(px(-1.5).times(px(2.5)), px(-3.75));
    // one raw step times one half is half a raw step, which rounds to zero
    assert_eq!(Scalar::from_raw(1).times(px(0.5)).raw, 0);
    assert_eq!(Scalar::from_raw(-1).times(px(0.5)).raw, 0);
    assert_eq!(Scalar::from_raw(3).times(px(0.5)).raw, 1);
    assert_eq!(Scalar::from_raw(-3).times(px(0.5)).raw, -1);
}

#[test]
fn products_saturate() {
    let top = Scalar::from_raw(i64::MAX);
    let bottom = Scalar::from_raw(i64::MIN);
    assert_eq!(top.times(px(2.0)), top);
    assert_eq!(top.times(px(-2.0)), bottom);
    assert_eq!(bottom.times(bottom), top);
}

#[test]
fn quotients_round_toward_zero() {
    assert_eq!(px(1.0).over(px(3.0)).raw, 21845);
    assert_eq!(px(-1.0).over(px(3.0)).raw, -21845);
    assert_eq!(px(1.0).over(px(-3.0)).raw, -21845);
    assert_eq!(px(-1.0).over(px(-3.0)).raw, 21845);
    assert_eq!(px(7.5).over(px(2.5)), px(3.0));
}

#[test]
fn division_by_zero_goes_to_the_end_of_the_range() {
    assert_eq!(px(1.0).over(px(0.0)).raw, i64::MAX);
    assert_eq!(px(-1.0).over(px(0.0)).raw, i64::MIN);
    assert_eq!(px(0.0).over(px(0.0)).raw, 0);
    assert_eq!(px(1.0).shared(0).raw, i64::MAX);
    assert_eq!(px(-1.0).shared(0).raw, i64::MIN);
    assert_eq!(px(0.0).shared(0).raw, 0);
}

#[test]
fn quotients_saturate() {
    let top = Scalar::from_raw(i64::MAX);
    assert_eq!(top.over(px(0.5)), top);
    assert_eq!(top.over(px(-0.5)).raw, i64::MIN);
}

#[test]
fn scaling_and_sharing_by_whole_numbers() {
    assert_eq!(px(2.5).scaled(4), px(10.0));
    assert_eq!(px(2.5).scaled(-4), px(-10.0));
    assert_eq!(px(10.0).shared(4), px(2.5));
    assert_eq!(Scalar::from_raw(7).shared(2).raw, 3);
    assert_eq!(Scalar::from_raw(-7).shared(2).raw, -3);
    assert_eq!(Scalar::from_raw(7).shared(-2).raw, -3);
    assert_eq!(Scalar::from_raw(i64::MAX).scaled(2).raw, i64::MAX);
    assert_eq!(Scalar::from_raw(i64::MIN).shared(-1).raw, i64::MAX);
}

#[test]
fn magnitude_least_most_within() {
    assert_eq!(px(-3.0).magnitude(), px(3.0));
    assert_eq!(px(3.0).magnitude(), px(3.0));
    assert_eq!(Scalar::from_raw(i64::MIN).magnitude().raw, i64::MAX);
    assert_eq!(px(1.0).least(px(2.0)), px(1.0));
    assert_eq!(px(1.0).most(px(2.0)), px(2.0));
    assert_eq!(px(5.0).within(px(0.0), px(3.0)), px(3.0));
    assert_eq!(px(-5.0).within(px(0.0), px(3.0)), px(0.0));
    assert_eq!(px(2.0).within(px(0.0), px(3.0)), px(2.0));
    // where the bounds cross, the lower one wins
    assert_eq!(px(5.0).within(px(4.0), px(3.0)), px(4.0));
    assert_eq!(px(1.0).within(px(4.0), px(3.0)), px(4.0));
    assert_eq!(px(3.5).within(px(4.0), px(3.0)), px(4.0));
}

#[test]
fn counts_are_held_to_the_largest_signed_number() {
    assert_eq!(Scalar::count(0), 0);
    assert_eq!(Scalar::count(12), 12);
    assert_eq!(Scalar::count(usize::MAX), if usize::MAX as u64 > i64::MAX as u64 {
        i64::MAX
    } else {
        usize::MAX as i64
    });
}
