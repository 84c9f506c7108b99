use rwcore::agg::{count, count_str, first, first_str, max, max_str, min, min_str, sum, ExprError};
use rwcore::decimal::Decimal;

#[test]
fn sum_starts_adds_and_skips_nulls() {
    assert_eq!(sum::<i64, i32>(None, Some(5)), Ok(Some(5i64)));
    assert_eq!(sum::<i64, i32>(Some(5), None), Ok(Some(5i64)));
    assert_eq!(sum::<i64, i32>(None, None), Ok(None));
    assert_eq!(sum::<i64, i16>(Some(7), Some(-2)), Ok(Some(5i64)));
    assert_eq!(sum::<i64, i64>(Some(i64::MAX - 1), Some(1)), Ok(Some(i64::MAX)));
}

#[test]
fn sum_overflow_is_an_error() {
    assert_eq!(sum::<i64, i64>(Some(i64::MAX), Some(1)), Err(ExprError::NumericOutOfRange));
    assert_eq!(sum::<i64, i32>(Some(i64::MIN), Some(-1)), Err(ExprError::NumericOutOfRange));
}

#[test]
fn sum_of_decimals() {
    let a = Decimal::from_str("1.5").unwrap();
    let b = Decimal::from_str("2.25").unwrap();
    let r = sum::<Decimal, Decimal>(Some(a), Some(b)).unwrap().unwrap();
    assert_eq!(r.to_text(), "3.75");
    let r = sum::<Decimal, i64>(Some(a), Some(2)).unwrap().unwrap();
    assert_eq!(r.to_text(), "3.5");
    let max = Decimal::from_str("79228162514264337593543950335").unwrap();
    assert_eq!(
        sum::<Decimal, Decimal>(Some(max), Some(max)).map(|o| o.is_some()),
        Err(ExprError::NumericOutOfRange)
    );
}

#[test]
fn min_and_max_numbers() {
    assert_eq!(min(Some(3i32), Some(2)), Ok(Some(2)));
    assert_eq!(min(Some(2i32), Some(3)), Ok(Some(2)));
    assert_eq!(min(None, Some(3i32)), Ok(Some(3)));
    assert_eq!(min(Some(3i32), None), Ok(Some(3)));
    assert_eq!(min::<i32>(None, None), Ok(None));
    assert_eq!(max(Some(3i64), Some(2)), Ok(Some(3)));
    assert_eq!(max(Some(2i64), Some(3)), Ok(Some(3)));
    assert_eq!(max(None, Some(-1i64)), Ok(Some(-1)));
}

#[test]
fn min_and_max_text() {
    assert_eq!(min_str(Some("b"), Some("a")), Ok(Some("a")));
    assert_eq!(min_str(Some("ab"), Some("abc")), Ok(Some("ab")));
    assert_eq!(min_str(None, Some("z")), Ok(Some("z")));
    assert_eq!(max_str(Some("b"), Some("a")), Ok(Some("b")));
    assert_eq!(max_str(Some("ab"), Some("abc")), Ok(Some("abc")));
    assert_eq!(max_str(Some("x"), None), Ok(Some("x")));
    assert_eq!(min_str(Some("Z"), Some("a")), Ok(Some("Z")));
}

#[test]
fn first_keeps_the_first_non_null() {
    assert_eq!(first(None, Some(1)), Ok(Some(1)));
    assert_eq!(first(Some(2), Some(1)), Ok(Some(2)));
    assert_eq!(first(Some(2), None), Ok(Some(2)));
    assert_eq!(first::<i32>(None, None), Ok(None));
    assert_eq!(first_str(None, Some("a")), Ok(Some("a")));
    assert_eq!(first_str(Some("b"), Some("a")), Ok(Some("b")));
}

#[test]
fn count_counts_non_nulls() {
    assert_eq!(count::<i32>(None, None), Ok(Some(0)));
    assert_eq!(count(None, Some(9)), Ok(Some(1)));
    assert_eq!(count(Some(3), Some(9)), Ok(Some(4)));
    assert_eq!(count::<i32>(Some(3), None), Ok(Some(3)));
    assert_eq!(count_str(Some(1), Some("x")), Ok(Some(2)));
    assert_eq!(count_str(None, None), Ok(Some(0)));
}

#[test]
fn fold_over_a_column() {
    let column = [Some(4i32), None, Some(-1), Some(10), None];
    let mut s: Option<i64> = None;
    let mut c: Option<i64> = None;
    let mut lo: Option<i32> = None;
    let mut f: Option<i32> = None;
    for v in column {
        s = sum::<i64, i32>(s, v).unwrap();
        c = count(c, v).unwrap();
        lo = min(lo, v).unwrap();
        f = first(f, v).unwrap();
    }
    assert_eq!(s, Some(13));
    assert_eq!(c, Some(3));
    assert_eq!(lo, Some(-1));
    assert_eq!(f, Some(4));
}
