use mylib::easing::{easing_function_to_ratio, EasingFunction, Fraction};

fn value(f: Fraction) -> f64 {
    f.num as f64 / f.den as f64
}

#[test]
fn quadratic_in_at_zero_is_zero() {
    let r = easing_function_to_ratio(EasingFunction::QuadraticIn, 0, 1000);
    assert_eq!(r.num, 0);
    assert!(r.den > 0);
}

#[test]
fn quadratic_in_at_one_is_one() {
    let r = easing_function_to_ratio(EasingFunction::QuadraticIn, 1000, 1000);
    assert_eq!(r.num, r.den);
}

#[test]
fn quadratic_in_at_half_is_quarter() {
    let r = easing_function_to_ratio(EasingFunction::QuadraticIn, 1, 2);
    assert_eq!(r, Fraction { num: 1, den: 4 });
    let r = easing_function_to_ratio(EasingFunction::QuadraticIn, 1000, 2000);
    assert_eq!(r.num * 4, r.den);
}

#[test]
fn progress_outside_unit_range_is_clamped() {
    let below = easing_function_to_ratio(EasingFunction::QuadraticIn, -500, 1000);
    assert_eq!(below.num, 0);
    let above = easing_function_to_ratio(EasingFunction::QuadraticIn, 3000, 1000);
    assert_eq!(above.num, above.den);
    let bounce_below = easing_function_to_ratio(EasingFunction::BounceOut, -1, 10);
    assert_eq!(bounce_below.num, 0);
    let bounce_above = easing_function_to_ratio(EasingFunction::BounceOut, 11, 10);
    assert_eq!(bounce_above.num, bounce_above.den);
}

#[test]
fn bounce_out_pieces_exact_values() {
    // first piece: 121 p^2 / 16 at p = 2/11 gives 1/4
    let r = easing_function_to_ratio(EasingFunction::BounceOut, 2, 11);
    assert_eq!(r.num * 4, r.den);
    // second piece at p = 6/11: 363/40*36/121 - 99/10*6/11 + 17/5 = 7/10
    let r = easing_function_to_ratio(EasingFunction::BounceOut, 6, 11);
    assert_eq!(r.num * 10, r.den * 7);
    // third piece at p = 4/5: (21780*16 - 35442*20 + 16061*25) / (1805*25) = 41165/45125
    let r = easing_function_to_ratio(EasingFunction::BounceOut, 4, 5);
    assert_eq!(r.num * 45125, r.den * 41165);
    // fourth piece at p = 1 gives 1
    let r = easing_function_to_ratio(EasingFunction::BounceOut, 1, 1);
    assert_eq!(r.num, r.den);
}

#[test]
fn bounce_out_is_continuous_at_breakpoints() {
    let den: u32 = 1_000_000;
    for (a, b) in [(4i64, 11i64), (8, 11), (9, 10)] {
        let at = easing_function_to_ratio(EasingFunction::BounceOut, a * den as i64 / b, den);
        let before =
            easing_function_to_ratio(EasingFunction::BounceOut, a * den as i64 / b - 1, den);
        let after =
            easing_function_to_ratio(EasingFunction::BounceOut, a * den as i64 / b + 1, den);
        assert!((value(at) - value(before)).abs() < 1e-4);
        assert!((value(after) - value(at)).abs() < 1e-4);
    }
    let exact = easing_function_to_ratio(EasingFunction::BounceOut, 4, 11);
    assert_eq!(exact.num, exact.den);
    let exact = easing_function_to_ratio(EasingFunction::BounceOut, 8, 11);
    assert_eq!(exact.num, exact.den);
    let exact = easing_function_to_ratio(EasingFunction::BounceOut, 9, 10);
    assert_eq!(exact.num, exact.den);
}

#[test]
fn bounce_out_stays_in_unit_range() {
    for n in 0..=200i64 {
        let r = easing_function_to_ratio(EasingFunction::BounceOut, n, 200);
        assert!(r.num <= r.den);
    }
}
