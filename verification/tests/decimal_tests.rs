use std::cmp::Ordering;

use rwcore::agg::{max, min};
use rwcore::decimal::Decimal;
use rwcore::fixed::{DecimalError, FixedDecimal};

fn dec(s: &str) -> Decimal {
    Decimal::from_str(s).unwrap()
}

fn text(d: Decimal) -> String {
    d.to_text()
}

#[test]
fn basic_test() {
    assert_eq!(Decimal::from_str("nan").unwrap(), Decimal::NaN,);
    assert_eq!(Decimal::from_str("NaN").unwrap(), Decimal::NaN,);
    assert_eq!(Decimal::from_str("NAN").unwrap(), Decimal::NaN,);
    assert_eq!(Decimal::from_str("nAn").unwrap(), Decimal::NaN,);
    assert_eq!(Decimal::from_str("nAN").unwrap(), Decimal::NaN,);
    assert_eq!(Decimal::from_str("Nan").unwrap(), Decimal::NaN,);
    assert_eq!(Decimal::from_str("NAn").unwrap(), Decimal::NaN,);

    assert_eq!(Decimal::from_str("inf").unwrap(), Decimal::PositiveInf,);
    assert_eq!(Decimal::from_str("INF").unwrap(), Decimal::PositiveInf,);
    assert_eq!(Decimal::from_str("iNF").unwrap(), Decimal::PositiveInf,);
    assert_eq!(Decimal::from_str("inF").unwrap(), Decimal::PositiveInf,);
    assert_eq!(Decimal::from_str("InF").unwrap(), Decimal::PositiveInf,);
    assert_eq!(Decimal::from_str("INf").unwrap(), Decimal::PositiveInf,);
    assert_eq!(Decimal::from_str("+inf").unwrap(), Decimal::PositiveInf,);
    assert_eq!(Decimal::from_str("+INF").unwrap(), Decimal::PositiveInf,);
    assert_eq!(Decimal::from_str("+Inf").unwrap(), Decimal::PositiveInf,);
    assert_eq!(Decimal::from_str("+iNF").unwrap(), Decimal::PositiveInf,);
    assert_eq!(Decimal::from_str("+inF").unwrap(), Decimal::PositiveInf,);
    assert_eq!(Decimal::from_str("+InF").unwrap(), Decimal::PositiveInf,);
    assert_eq!(Decimal::from_str("+INf").unwrap(), Decimal::PositiveInf,);
    assert_eq!(Decimal::from_str("inFINity").unwrap(), Decimal::PositiveInf,);
    assert_eq!(
        Decimal::from_str("+infiNIty").unwrap(),
        Decimal::PositiveInf,
    );

    assert_eq!(Decimal::from_str("-inf").unwrap(), Decimal::NegativeInf,);
    assert_eq!(Decimal::from_str("-INF").unwrap(), Decimal::NegativeInf,);
    assert_eq!(Decimal::from_str("-Inf").unwrap(), Decimal::NegativeInf,);
    assert_eq!(Decimal::from_str("-iNF").unwrap(), Decimal::NegativeInf,);
    assert_eq!(Decimal::from_str("-inF").unwrap(), Decimal::NegativeInf,);
    assert_eq!(Decimal::from_str("-InF").unwrap(), Decimal::NegativeInf,);
    assert_eq!(Decimal::from_str("-INf").unwrap(), Decimal::NegativeInf,);
    assert_eq!(
        Decimal::from_str("-INfinity").unwrap(),
        Decimal::NegativeInf,
    );
}

#[test]
fn parse_and_print_finite() {
    assert_eq!(text(dec("1.23")), "1.23");
    assert_eq!(text(dec("-0.5")), "-0.5");
    assert_eq!(text(Decimal::new(15, 1)), "1.5");
    assert_eq!(text(Decimal::NaN), "NaN");
    assert_eq!(text(Decimal::PositiveInf), "Infinity");
    assert_eq!(text(Decimal::NegativeInf), "-Infinity");
}

#[test]
fn parse_rejects_garbage() {
    assert!(Decimal::from_str("abc").is_err());
    assert!(Decimal::from_str("").is_err());
    assert!(Decimal::from_str("infinite").is_err());
}

#[test]
fn parse_scale_too_large() {
    let r = Decimal::from_str("0.00000000000000000000000000001");
    match r {
        Ok(d) => assert_eq!(text(d), "0.0000000000000000000000000000"),
        Err(e) => assert!(matches!(
            e,
            DecimalError::ScaleExceedsMaximumPrecision(_) | DecimalError::Underflow | DecimalError::ErrorString(_)
        )),
    }
}

#[test]
fn from_scientific_values() {
    assert_eq!(text(Decimal::from_scientific("1.5e3").unwrap()), "1500");
    assert_eq!(text(Decimal::from_scientific("9.7e-7").unwrap()), "0.00000097");
    assert!(Decimal::from_scientific("xyz").is_none());
}

#[test]
fn add_finite_and_special() {
    assert_eq!(text(dec("1.5").add(dec("2.25"))), "3.75");
    assert_eq!(Decimal::NaN.add(dec("1")), Decimal::NaN);
    assert_eq!(dec("1").add(Decimal::NaN), Decimal::NaN);
    assert_eq!(Decimal::PositiveInf.add(Decimal::NegativeInf), Decimal::NaN);
    assert_eq!(Decimal::NegativeInf.add(Decimal::PositiveInf), Decimal::NaN);
    assert_eq!(Decimal::PositiveInf.add(dec("-5")), Decimal::PositiveInf);
    assert_eq!(dec("3").add(Decimal::NegativeInf), Decimal::NegativeInf);
}

#[test]
fn sub_finite_and_special() {
    assert_eq!(text(dec("1").sub(dec("2.5"))), "-1.5");
    assert_eq!(Decimal::PositiveInf.sub(Decimal::PositiveInf), Decimal::NaN);
    assert_eq!(Decimal::NegativeInf.sub(Decimal::NegativeInf), Decimal::NaN);
    assert_eq!(dec("1").sub(Decimal::PositiveInf), Decimal::NegativeInf);
    assert_eq!(dec("1").sub(Decimal::NegativeInf), Decimal::PositiveInf);
    assert_eq!(Decimal::NegativeInf.sub(Decimal::PositiveInf), Decimal::NegativeInf);
}

#[test]
fn mul_finite_and_special() {
    assert_eq!(text(dec("1.5").mul(dec("-2"))), "-3.0");
    assert_eq!(Decimal::PositiveInf.mul(dec("-2")), Decimal::NegativeInf);
    assert_eq!(Decimal::PositiveInf.mul(dec("2")), Decimal::PositiveInf);
    assert_eq!(Decimal::NegativeInf.mul(Decimal::NegativeInf), Decimal::PositiveInf);
    assert_eq!(dec("-3").mul(Decimal::NegativeInf), Decimal::PositiveInf);
    assert_eq!(dec("0").mul(Decimal::PositiveInf), Decimal::NaN);
    assert_eq!(Decimal::NegativeInf.mul(dec("0")), Decimal::NaN);
}

#[test]
fn div_by_zero_and_infinity() {
    assert_eq!(dec("1").div(dec("0")), Decimal::PositiveInf);
    assert_eq!(dec("-1").div(dec("0")), Decimal::NegativeInf);
    assert_eq!(dec("0").div(dec("0")), Decimal::NaN);
    assert_eq!(Decimal::PositiveInf.div(dec("0")), Decimal::PositiveInf);
    assert_eq!(Decimal::NegativeInf.div(dec("0")), Decimal::NegativeInf);
    assert_eq!(dec("5").div(Decimal::PositiveInf), dec("0"));
    assert_eq!(dec("5").div(Decimal::NegativeInf), dec("0"));
    assert_eq!(Decimal::PositiveInf.div(Decimal::NegativeInf), Decimal::NaN);
    assert_eq!(Decimal::PositiveInf.div(dec("-2")), Decimal::NegativeInf);
    assert_eq!(Decimal::NegativeInf.div(dec("-2")), Decimal::PositiveInf);
    assert_eq!(text(dec("1").div(dec("4"))), "0.25");
}

#[test]
fn rem_cases() {
    assert_eq!(text(dec("7").rem(dec("3"))), "1");
    assert_eq!(dec("7").rem(dec("0")), Decimal::NaN);
    assert_eq!(text(dec("5").rem(Decimal::PositiveInf)), "5");
    assert_eq!(text(dec("-5").rem(Decimal::NegativeInf)), "-5");
    assert_eq!(Decimal::PositiveInf.rem(dec("3")), Decimal::NaN);
    assert_eq!(Decimal::NaN.rem(dec("3")), Decimal::NaN);
}

#[test]
fn checked_ops() {
    let max = dec("79228162514264337593543950335");
    assert!(max.checked_add(&dec("1")).is_none());
    assert!(max.checked_mul(&dec("2")).is_none());
    assert_eq!(text(dec("2").checked_add(&dec("3")).unwrap()), "5");
    assert_eq!(text(dec("2").checked_sub(&dec("3")).unwrap()), "-1");
    assert_eq!(Decimal::PositiveInf.checked_add(&dec("1")), Some(Decimal::PositiveInf));
    assert!(dec("1").checked_div(&dec("0")).is_none());
    assert!(dec("1").checked_rem(&dec("0")).is_none());
    assert_eq!(text(dec("7").checked_rem(&dec("2")).unwrap()), "1");
    assert_eq!(Decimal::NaN.checked_neg(), Some(Decimal::NaN));
    assert_eq!(Decimal::PositiveInf.checked_neg(), Some(Decimal::NegativeInf));
    assert_eq!(text(dec("2.5").checked_neg().unwrap()), "-2.5");
}

#[test]
fn neg_and_abs() {
    assert_eq!(text(dec("2.5").neg()), "-2.5");
    assert_eq!(Decimal::PositiveInf.neg(), Decimal::NegativeInf);
    assert_eq!(Decimal::NaN.neg(), Decimal::NaN);
    assert_eq!(text(dec("-2.5").abs()), "2.5");
    assert_eq!(text(dec("2.5").abs()), "2.5");
    assert_eq!(Decimal::NegativeInf.abs(), Decimal::PositiveInf);
    assert_eq!(Decimal::NaN.abs(), Decimal::NaN);
}

#[test]
fn rounding() {
    assert_eq!(text(dec("1.25").round_dp(1)), "1.3");
    assert_eq!(text(dec("-1.25").round_dp(1)), "-1.3");
    assert_eq!(text(dec("2.5").round()), "2");
    assert_eq!(text(dec("3.5").round()), "4");
    assert_eq!(text(dec("-0.4").round()), "0");
    assert_eq!(text(dec("-2.5").round()), "-2");
    assert_eq!(text(dec("2.51").round()), "3");
    assert_eq!(text(dec("1.2345").round_dp(2)), "1.23");
    assert_eq!(text(dec("1.235").round_dp(2)), "1.24");
    assert_eq!(text(dec("2.5").round_dp(5)), "2.5");
    assert_eq!(text(dec("-0.04").round_dp(1)), "0.0");
    assert_eq!(text(dec("0.000").round_dp(1)), "0.0");
    assert_eq!(text(dec("1.2").ceil()), "2");
    assert_eq!(text(dec("-1.2").ceil()), "-1");
    assert_eq!(text(dec("-1.2").floor()), "-2");
    assert_eq!(text(dec("1.8").floor()), "1");
    assert_eq!(text(dec("3.000").ceil()), "3");
    assert_eq!(text(dec("-3.000").floor()), "-3");
    assert_eq!(text(dec("0.5").ceil()), "1");
    assert_eq!(text(dec("-0.5").floor()), "-1");
    assert_eq!(text(dec("5").ceil()), "5");
    assert_eq!(text(dec("7.25").floor()), "7");
    assert_eq!(Decimal::NaN.round(), Decimal::NaN);
    assert_eq!(Decimal::PositiveInf.ceil(), Decimal::PositiveInf);
    assert_eq!(Decimal::NegativeInf.floor(), Decimal::NegativeInf);
    assert_eq!(Decimal::NaN.round_dp(2), Decimal::NaN);
}

#[test]
fn normalize_drops_trailing_zeros() {
    assert_eq!(text(dec("1.500").normalize()), "1.5");
    assert_eq!(text(dec("100").normalize()), "100");
    assert_eq!(text(dec("-0.0").normalize()), "0");
    assert_eq!(Decimal::NaN.normalize(), Decimal::NaN);
}

#[test]
fn precision_counts_digits() {
    assert_eq!(Decimal::new(-12345, 2).precision(), 5);
    assert_eq!(dec("0.5").precision(), 2);
    assert_eq!(dec("100").precision(), 3);
    assert_eq!(Decimal::NaN.precision(), 0);
}

#[test]
fn mantissa_and_scale() {
    let d = Decimal::new(-123, 2);
    assert_eq!(d.mantissa(), -123);
    assert_eq!(d.scale(), 2);
    assert_eq!(Decimal::NaN.mantissa(), 0);
    assert_eq!(Decimal::PositiveInf.scale(), 0);
    let e = Decimal::from_i128_with_scale(123456, 3);
    assert_eq!(text(e), "123.456");
    assert_eq!(e.mantissa(), 123456);
}

#[test]
fn zero_and_default() {
    assert!(Decimal::zero().is_zero());
    assert!(Decimal::default().is_zero());
    assert!(dec("0.00").is_zero());
    assert!(!dec("0.01").is_zero());
    assert!(!Decimal::NaN.is_zero());
    assert_eq!(text(Decimal::zero()), "0");
}

#[test]
fn conversions_from_integers() {
    assert_eq!(Decimal::from(5i16), dec("5"));
    assert_eq!(Decimal::from(-7i32), dec("-7"));
    assert_eq!(Decimal::from(i64::MIN), dec("-9223372036854775808"));
    assert_eq!(Decimal::from(42u32), dec("42"));
    assert_eq!(Decimal::from(u64::MAX), dec("18446744073709551615"));
    assert_eq!(Decimal::from(9usize), dec("9"));
    assert_eq!(Decimal::from_i64(3), dec("3"));
    assert_eq!(Decimal::from_u64(3), dec("3"));
}

#[test]
fn equality_is_by_value() {
    assert_eq!(dec("1.0"), dec("1"));
    assert_ne!(dec("1.1"), dec("1"));
    assert_eq!(Decimal::NaN, Decimal::NaN);
    assert_ne!(Decimal::NaN, dec("0"));
    assert_ne!(Decimal::PositiveInf, Decimal::NegativeInf);
}

#[test]
fn try_into_integers() {
    assert_eq!(dec("15.7").try_into_i64().unwrap(), 15);
    assert_eq!(dec("-15.7").try_into_i32().unwrap(), -15);
    assert_eq!(dec("32767").try_into_i16().unwrap(), 32767);
    match dec("32768").try_into_i16() {
        Err(DecimalError::ConversionTo(m)) => assert_eq!(m, "i16"),
        other => panic!("unexpected {:?}", other),
    }
    match dec("3000000000").try_into_i32() {
        Err(DecimalError::ConversionTo(m)) => assert_eq!(m, "i32"),
        other => panic!("unexpected {:?}", other),
    }
    match Decimal::NaN.try_into_i64() {
        Err(DecimalError::ConversionTo(m)) => assert_eq!(m, ""),
        other => panic!("unexpected {:?}", other),
    }
}

#[test]
fn storage_bytes_roundtrip() {
    assert_eq!(Decimal::NaN.unordered_serialize(), [1, 0, 0, 0, 0, 0, 0, 0, 0, 0, 0, 0, 0, 0, 0, 0]);
    assert_eq!(Decimal::PositiveInf.unordered_serialize()[0], 2);
    assert_eq!(Decimal::NegativeInf.unordered_serialize()[0], 3);
    for s in ["1.5", "-0.001", "79228162514264337593543950335", "0"] {
        let d = dec(s);
        let b = d.unordered_serialize();
        assert_eq!(b[0], 0);
        let back = Decimal::unordered_deserialize(b);
        assert_eq!(back, d);
        assert_eq!(text(back), text(d));
    }
    for d in [Decimal::NaN, Decimal::PositiveInf, Decimal::NegativeInf] {
        assert_eq!(Decimal::unordered_deserialize(d.unordered_serialize()), d);
    }
}

#[test]
fn postgres_binary_form() {
    assert_eq!(Decimal::NaN.to_binary(), vec![0, 0, 0, 0, 0xC0, 0, 0, 0]);
    assert_eq!(Decimal::PositiveInf.to_binary(), vec![0, 0, 0, 0, 0xD0, 0, 0, 0]);
    assert_eq!(Decimal::NegativeInf.to_binary(), vec![0, 0, 0, 0, 0xF0, 0, 0, 0]);
    assert_eq!(dec("1").to_binary(), vec![0, 1, 0, 0, 0, 0, 0, 0, 0, 1]);
}

#[test]
fn fixed_decimal_basics() {
    let z = FixedDecimal::zero();
    assert!(z.is_zero());
    let n = FixedDecimal::new(-25, 1);
    assert!(n.is_sign_negative());
    assert!(!n.is_sign_positive());
    assert_eq!(n.scale(), 1);
    assert_eq!(n.mantissa(), -25);
    assert_eq!(n.negated().mantissa(), 25);
    assert_eq!(FixedDecimal::from_i64(-4).mantissa(), -4);
    assert_eq!(FixedDecimal::from_u64(4).mantissa(), 4);
    let b = FixedDecimal::from_i128_with_scale(7, 0).to_bytes();
    assert_eq!(b[4], 7);
}

#[test]
fn order_by_value_then_kind() {
    assert!(dec("1") < dec("2"));
    assert!(dec("-3") < dec("-2.5"));
    assert_eq!(dec("1.0").partial_cmp(&dec("1")), Some(Ordering::Equal));
    assert_eq!(dec("-0").partial_cmp(&dec("0")), Some(Ordering::Equal));
    assert!(dec("79228162514264337593543950335") < Decimal::NaN);
    assert!(Decimal::NaN < Decimal::PositiveInf);
    assert!(Decimal::PositiveInf < Decimal::NegativeInf);
    assert!(dec("-5") < Decimal::NegativeInf);
}

#[test]
fn min_and_max_of_decimals() {
    let a = dec("2");
    let b = dec("1.5");
    assert_eq!(min(Some(a), Some(b)).unwrap().unwrap().to_text(), "1.5");
    assert_eq!(max(Some(a), Some(b)).unwrap().unwrap().to_text(), "2");
    assert_eq!(max(Some(a), Some(Decimal::NaN)).unwrap(), Some(Decimal::NaN));
}

#[test]
fn storage_bytes_with_oversized_scale_are_rounded() {
    let mut b = [0u8; 16];
    b[2] = 29;
    b[3] = 0x80;
    b[4] = 15;
    let d = Decimal::unordered_deserialize(b);
    assert_eq!(text(d), "-0.0000000000000000000000000002");
    b[2] = 30;
    b[4] = 104;
    assert_eq!(text(Decimal::unordered_deserialize(b)), "-0.0000000000000000000000000001");
    b[4] = 4;
    b[2] = 31;
    assert_eq!(text(Decimal::unordered_deserialize(b)), "-0.0000000000000000000000000000");
}

#[test]
fn text_of_small_and_zero_values() {
    assert_eq!(text(dec("0.000")), "0.000");
    assert_eq!(text(dec("-0.005")), "-0.005");
    assert_eq!(text(dec("120.50")), "120.50");
    assert_eq!(text(dec("0")), "0");
}
