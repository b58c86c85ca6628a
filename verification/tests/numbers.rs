use token_filtering::fixed::{Fixed, MAX_RAW, ONE_RAW};
use token_filtering::ratio::{rounded_quotient, Ratio};
use token_filtering::text::{push_decimal, push_one_place, push_signed_decimal, push_two_places};

fn fixed(x: f64) -> Fixed {
    Fixed::from_double_bits(x.to_bits())
}

fn one_decimal(x: Fixed) -> String {
    let mut out = String::new();
    x.push_one_decimal(&mut out);
    out
}

#[test]
fn doubles_decode_exactly() {
    assert_eq!(fixed(0.0).raw, 0);
    assert_eq!(fixed(-0.0).raw, 0);
    assert_eq!(fixed(1.0).raw, ONE_RAW);
    assert_eq!(fixed(-1.0).raw, -ONE_RAW);
    assert_eq!(fixed(0.5).raw, ONE_RAW / 2);
    assert_eq!(fixed(10.0).raw, 10 * ONE_RAW);
    assert_eq!(fixed(0.375).raw, 3 * (ONE_RAW / 8));
    assert_eq!(fixed(1234567.0).raw, 1234567 * ONE_RAW);
    assert_eq!(fixed(-2.25).raw, -(9 * (ONE_RAW / 4)));
    // 0.1 is the double 0x1.999999999999ap-4.
    assert_eq!(fixed(0.1).raw, 0x1999_9999_9999_9A00);
}

#[test]
fn doubles_below_the_grain_round_toward_zero() {
    // 2^-64 is the smallest magnitude kept.
    assert_eq!(fixed(2.0f64.powi(-64)).raw, 1);
    assert_eq!(fixed(2.0f64.powi(-65)).raw, 0);
    assert_eq!(fixed(-(2.0f64.powi(-65))).raw, 0);
    assert_eq!(fixed(1.5 * 2.0f64.powi(-64)).raw, 1);
    assert_eq!(fixed(-1.5 * 2.0f64.powi(-64)).raw, -1);
    assert_eq!(fixed(f64::MIN_POSITIVE).raw, 0);
    assert_eq!(Fixed::from_double_bits(1).raw, 0);
}

#[test]
fn doubles_beyond_the_bound_stay_at_it() {
    assert_eq!(fixed(2.0f64.powi(62)).raw, ONE_RAW << 62);
    assert_eq!(fixed(2.0f64.powi(63)).raw, MAX_RAW);
    assert_eq!(fixed(-(2.0f64.powi(63))).raw, -MAX_RAW);
    assert_eq!(fixed(f64::MAX).raw, MAX_RAW);
    assert_eq!(fixed(f64::MIN).raw, -MAX_RAW);
    assert_eq!(fixed(f64::INFINITY).raw, MAX_RAW);
    assert_eq!(fixed(f64::NEG_INFINITY).raw, -MAX_RAW);
    // The largest double below 2^63 still fits.
    let below = f64::from_bits(2.0f64.powi(63).to_bits() - 1);
    assert_eq!(fixed(below).raw, MAX_RAW - ((1i128 << 74) - 1));
}

#[test]
fn comparison_with_whole_numbers() {
    assert!(fixed(10.5).exceeds(10));
    assert!(!fixed(10.0).exceeds(10));
    assert!(!fixed(9.999).exceeds(10));
    assert!(!fixed(-11.0).exceeds(10));
    assert!(fixed(0.001).exceeds(0));
    assert!(!fixed(0.0).exceeds(0));
    assert!(fixed(1e300).exceeds(u32::MAX));
}

#[test]
fn hundredfold_and_sum() {
    assert_eq!(fixed(0.25).times_hundred(), fixed(25.0));
    assert_eq!(fixed(-0.5).times_hundred(), fixed(-50.0));
    assert_eq!(fixed(1e18).times_hundred().raw, MAX_RAW);
    assert_eq!(fixed(-1e18).times_hundred().raw, -MAX_RAW);
    assert_eq!(Fixed { raw: MAX_RAW / 100 }.times_hundred().raw, MAX_RAW / 100 * 100);
    assert_eq!(Fixed { raw: MAX_RAW / 100 + 1 }.times_hundred().raw, MAX_RAW);
    assert_eq!(fixed(1.5).plus(&fixed(2.25)), fixed(3.75));
    assert_eq!(fixed(1.5).plus(&fixed(-2.0)), fixed(-0.5));
    assert_eq!(Fixed { raw: MAX_RAW }.plus(&fixed(1.0)).raw, MAX_RAW);
    assert_eq!(Fixed { raw: -MAX_RAW }.plus(&fixed(-1.0)).raw, -MAX_RAW);
    assert_eq!(Fixed { raw: i128::MIN }.plus(&Fixed { raw: 0 }).raw, -MAX_RAW);
    assert_eq!(Fixed::zero().raw, 0);
}

#[test]
fn one_decimal_place_rounds_half_to_even() {
    assert_eq!(one_decimal(fixed(0.0)), "0.0");
    assert_eq!(one_decimal(fixed(3.0)), "3.0");
    assert_eq!(one_decimal(fixed(12.34)), "12.3");
    assert_eq!(one_decimal(fixed(12.36)), "12.4");
    assert_eq!(one_decimal(fixed(0.25)), "0.2");
    assert_eq!(one_decimal(fixed(0.75)), "0.8");
    assert_eq!(one_decimal(fixed(0.125)), "0.1");
    assert_eq!(one_decimal(fixed(99.96)), "100.0");
    assert_eq!(one_decimal(fixed(-7.77)), "-7.8");
    assert_eq!(one_decimal(fixed(-0.01)), "-0.0");
    assert_eq!(one_decimal(Fixed { raw: MAX_RAW }), "9223372036854775808.0");
    assert_eq!(one_decimal(Fixed { raw: i128::MIN }), "-9223372036854775808.0");
}

#[test]
fn one_decimal_place_agrees_with_the_double() {
    let samples = [
        0.05, 0.15, 0.35, 0.45, 0.95, 1.05, 2.5, 3.14159, 10.0, 10.04, 10.05, 10.06, 29.95, 30.05,
        33.333333333333336, 66.66666666666667, 99.99, 100.0, 12345.678, 0.001, 7.000000000000001,
        -0.05, -1.25, -99.95, 4503599627370496.5,
    ];
    for x in samples {
        assert_eq!(one_decimal(fixed(x)), format!("{:.1}", x), "for {x}");
    }
}

#[test]
fn market_value_is_price_times_scaled_supply() {
    // 0.5 a piece, a thousand million raw units, six decimals: 500.
    assert_eq!(fixed(0.5).scaled_by(1_000_000_000, 6), fixed(500.0));
    assert_eq!(fixed(2.0).scaled_by(7, 0), fixed(14.0));
    assert_eq!(fixed(1.0).scaled_by(1, 1).raw, ONE_RAW / 10);
    assert_eq!(fixed(-1.0).scaled_by(1, 1).raw, -(ONE_RAW / 10));
    assert_eq!(fixed(0.0).scaled_by(u64::MAX, 0).raw, 0);
    assert_eq!(fixed(1.0).scaled_by(0, 3).raw, 0);
    // The product passes 2^128 on the way and comes back into range.
    assert_eq!(fixed(1000.0).scaled_by(1_000_000_000_000_000_000, 9), fixed(1e12));
    assert_eq!(
        fixed(123456.0).scaled_by(10_000_000_000_000_000_000, 19).raw,
        123456 * ONE_RAW
    );
    // Beyond the bound it stays at the bound.
    assert_eq!(fixed(1e10).scaled_by(u64::MAX, 0).raw, MAX_RAW);
    assert_eq!(fixed(-1e10).scaled_by(u64::MAX, 0).raw, -MAX_RAW);
    // So many decimals that nothing is left.
    assert_eq!(fixed(1e18).scaled_by(u64::MAX, 58).raw, 0);
    assert_eq!(fixed(1e18).scaled_by(u64::MAX, u64::MAX).raw, 0);
    assert_eq!(Fixed { raw: 1 }.scaled_by(25, 1).raw, 2);
    assert_eq!(Fixed { raw: -1 }.scaled_by(25, 1).raw, -2);
}

#[test]
fn division_by_a_count_rounds_toward_zero() {
    assert_eq!(fixed(500.0).divided_by(1000), fixed(0.5));
    assert_eq!(Fixed { raw: 7 }.divided_by(2).raw, 3);
    assert_eq!(Fixed { raw: -7 }.divided_by(2).raw, -3);
    assert_eq!(Fixed { raw: MAX_RAW }.divided_by(1).raw, MAX_RAW);
    assert_eq!(Fixed { raw: i128::MIN }.divided_by(1).raw, -MAX_RAW);
    assert_eq!(fixed(1.0).divided_by(u64::MAX).raw, 1);
}

#[test]
fn rounding_of_quotients() {
    assert_eq!(rounded_quotient(0, 7), 0);
    assert_eq!(rounded_quotient(7, 2), 4);
    assert_eq!(rounded_quotient(5, 2), 2);
    assert_eq!(rounded_quotient(3, 2), 2);
    assert_eq!(rounded_quotient(1, 2), 0);
    assert_eq!(rounded_quotient(10, 3), 3);
    assert_eq!(rounded_quotient(11, 3), 4);
    assert_eq!(rounded_quotient(u128::MAX, 1), u128::MAX);
    assert_eq!(rounded_quotient(u128::MAX, u128::MAX), 1);
    assert_eq!(rounded_quotient(u128::MAX - 1, u128::MAX), 1);
    assert_eq!(rounded_quotient(u128::MAX / 2, u128::MAX), 0);
    assert_eq!(rounded_quotient(u128::MAX, 2), 1 << 127);
}

#[test]
fn quotients_compare_exactly() {
    let r = Ratio { num: 1, den: 20 };
    assert!(!r.is_above(5, 100));
    assert!(!r.is_below(5, 100));
    assert!(Ratio { num: u64::MAX, den: u64::MAX - 1 }.is_above(1, 1));
    assert!(Ratio { num: u64::MAX - 1, den: u64::MAX }.is_below(1, 1));
    assert!(Ratio { num: 2_000_000_000_000_000_001, den: 5_000_000_000_000_000_000 }.is_above(2, 5));
    assert!(!Ratio { num: 2_000_000_000_000_000_000, den: 5_000_000_000_000_000_000 }.is_above(2, 5));
    assert!(Ratio { num: 1, den: 0 }.is_above(u64::MAX, 1));
    assert!(!Ratio { num: 0, den: 0 }.is_above(0, 1));
    assert!(!Ratio { num: 0, den: 0 }.is_below(1, 1));
    assert_eq!(Ratio::new_capped(7, 5), Ratio { num: 5, den: 5 });
    assert_eq!(Ratio::new_capped(3, 5), Ratio { num: 3, den: 5 });
    assert_eq!(Ratio::new_capped(3, 0), Ratio { num: 0, den: 0 });
}

#[test]
fn quotients_in_decimal() {
    let text = |r: Ratio| {
        let mut a = String::new();
        r.push_percent_one_decimal(&mut a);
        let mut b = String::new();
        r.push_percent_two_decimals(&mut b);
        let mut c = String::new();
        r.push_two_decimals(&mut c);
        (a, b, c)
    };
    let triple = |a: &str, b: &str, c: &str| (a.to_string(), b.to_string(), c.to_string());
    assert_eq!(text(Ratio { num: 1, den: 3 }), triple("33.3", "33.33", "0.33"));
    assert_eq!(text(Ratio { num: 2, den: 3 }), triple("66.7", "66.67", "0.67"));
    assert_eq!(text(Ratio { num: 1, den: 8 }), triple("12.5", "12.50", "0.12"));
    assert_eq!(text(Ratio { num: 3, den: 8 }), triple("37.5", "37.50", "0.38"));
    assert_eq!(text(Ratio { num: 1, den: 2000 }), triple("0.0", "0.05", "0.00"));
    assert_eq!(text(Ratio { num: 3, den: 2000 }), triple("0.2", "0.15", "0.00"));
    assert_eq!(text(Ratio { num: 0, den: 9 }), triple("0.0", "0.00", "0.00"));
    assert_eq!(text(Ratio { num: 9, den: 9 }), triple("100.0", "100.00", "1.00"));
    assert_eq!(text(Ratio { num: 12345, den: 10 }), triple("123450.0", "123450.00", "1234.50"));
    assert_eq!(
        text(Ratio { num: u64::MAX, den: 1 }),
        triple(
            "1844674407370955161500.0",
            "1844674407370955161500.00",
            "18446744073709551615.00"
        )
    );
    assert_eq!(text(Ratio { num: 4, den: 0 }), triple("inf", "inf", "inf"));
    assert_eq!(text(Ratio { num: 0, den: 0 }), triple("NaN", "NaN", "NaN"));
}

#[test]
fn numerals() {
    let dec = |n: u128| {
        let mut s = String::from(">");
        push_decimal(&mut s, n);
        s
    };
    assert_eq!(dec(0), ">0");
    assert_eq!(dec(9), ">9");
    assert_eq!(dec(10), ">10");
    assert_eq!(dec(1905), ">1905");
    assert_eq!(dec(u128::MAX), format!(">{}", u128::MAX));
    let signed = |n: i64| {
        let mut s = String::new();
        push_signed_decimal(&mut s, n);
        s
    };
    assert_eq!(signed(0), "0");
    assert_eq!(signed(-1), "-1");
    assert_eq!(signed(i64::MIN), "-9223372036854775808");
    assert_eq!(signed(i64::MAX), "9223372036854775807");
    let mut s = String::new();
    push_one_place(&mut s, 7);
    s.push(' ');
    push_one_place(&mut s, 1234);
    s.push(' ');
    push_two_places(&mut s, 7);
    s.push(' ');
    push_two_places(&mut s, 120);
    s.push(' ');
    push_two_places(&mut s, 98765);
    assert_eq!(s, "0.7 123.4 0.07 1.20 987.65");
}

#[test]
fn one_decimal_place_agrees_with_many_doubles() {
    // A fixed pseudo-random walk over magnitudes from 2^-12 up to 2^40.
    let mut state: u64 = 0x9E37_79B9_7F4A_7C15;
    for _ in 0..20_000 {
        state = state.wrapping_mul(6364136223846793005).wrapping_add(1442695040888963407);
        let fraction = state >> 12;
        let exponent = 1011 + (state % 53);
        let sign = (state >> 7) & 1;
        let bits = (sign << 63) | (exponent << 52) | fraction;
        let x = f64::from_bits(bits);
        assert_eq!(one_decimal(Fixed::from_double_bits(bits)), format!("{:.1}", x), "for {x:e}");
    }
}

#[test]
fn halves_round_to_the_even_tenth() {
    for k in 0..200u32 {
        // Quarters are exact in binary, and every odd one lies halfway between two tenths.
        let x = 0.25 * k as f64;
        assert_eq!(one_decimal(fixed(x)), format!("{:.1}", x), "for {x}");
    }
}
