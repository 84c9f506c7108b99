//! Aggregate state transitions: each function folds one input (`None` for SQL NULL) into
//! the running result (`None` while nothing has been aggregated).

use crate::decimal;
use crate::decimal::Decimal;
use crate::fixed;
use crate::strings;
use crate::strings::text_lt;
use vstd::prelude::*;
use vstd::std_specs::cmp::{PartialOrdIs, PartialOrdSpec};

verus! {

/// Errors an aggregate step reports.
#[derive(Debug, Clone, Copy, PartialEq, Eq, Structural)]
pub enum ExprError {
    /// A running sum left the range of its type.
    NumericOutOfRange,
}

/// A type `sum` accumulates inputs of type `T` into: inputs are widened into it and added
/// with overflow detection.
pub trait SumAccumulator<T>: Sized + Copy {
    spec fn spec_widen(t: T) -> Self;

    spec fn spec_accumulate(self, other: Self) -> Option<Self>;

    /// The input as an accumulator value.
    fn widen(t: T) -> (r: Self)
        ensures
            r == Self::spec_widen(t),
    ;

    /// The sum, or `None` when it overflows.
    fn accumulate(&self, other: &Self) -> (r: Option<Self>)
        ensures
            r == self.spec_accumulate(*other),
    ;
}

impl SumAccumulator<i16> for i64 {
    open spec fn spec_widen(t: i16) -> i64 {
        t as i64
    }

    open spec fn spec_accumulate(self, other: i64) -> Option<i64> {
        if i64::MIN <= self + other <= i64::MAX {
            Some((self + other) as i64)
        } else {
            None
        }
    }

    fn widen(t: i16) -> (r: i64) {
        t as i64
    }

    fn accumulate(&self, other: &i64) -> (r: Option<i64>) {
        self.checked_add(*other)
    }
}

impl SumAccumulator<i32> for i64 {
    open spec fn spec_widen(t: i32) -> i64 {
        t as i64
    }

    open spec fn spec_accumulate(self, other: i64) -> Option<i64> {
        if i64::MIN <= self + other <= i64::MAX {
            Some((self + other) as i64)
        } else {
            None
        }
    }

    fn widen(t: i32) -> (r: i64) {
        t as i64
    }

    fn accumulate(&self, other: &i64) -> (r: Option<i64>) {
        self.checked_add(*other)
    }
}

impl SumAccumulator<i64> for i64 {
    open spec fn spec_widen(t: i64) -> i64 {
        t
    }

    open spec fn spec_accumulate(self, other: i64) -> Option<i64> {
        if i64::MIN <= self + other <= i64::MAX {
            Some((self + other) as i64)
        } else {
            None
        }
    }

    fn widen(t: i64) -> (r: i64) {
        t
    }

    fn accumulate(&self, other: &i64) -> (r: Option<i64>) {
        self.checked_add(*other)
    }
}

/// The sum of two decimals as `checked_add` gives it.
pub open spec fn decimal_accumulate(a: Decimal, b: Decimal) -> Option<Decimal> {
    if decimal::both_finite(a, b) {
        decimal::finite_option(fixed::decimal_sum(decimal::content(a), decimal::content(b)))
    } else {
        Some(decimal::spec_add(a, b))
    }
}

impl SumAccumulator<i64> for Decimal {
    open spec fn spec_widen(t: i64) -> Decimal {
        decimal::finite(decimal::integer_view(t as int))
    }

    open spec fn spec_accumulate(self, other: Decimal) -> Option<Decimal> {
        decimal_accumulate(self, other)
    }

    fn widen(t: i64) -> (r: Decimal) {
        Decimal::from_i64(t)
    }

    fn accumulate(&self, other: &Decimal) -> (r: Option<Decimal>) {
        self.checked_add(other)
    }
}

impl SumAccumulator<Decimal> for Decimal {
    open spec fn spec_widen(t: Decimal) -> Decimal {
        t
    }

    open spec fn spec_accumulate(self, other: Decimal) -> Option<Decimal> {
        decimal_accumulate(self, other)
    }

    fn widen(t: Decimal) -> (r: Decimal) {
        t
    }

    fn accumulate(&self, other: &Decimal) -> (r: Option<Decimal>) {
        self.checked_add(other)
    }
}

/// One step of `sum`: a NULL input leaves the result; the first input starts it; later
/// inputs are added, and an overflowing addition is an error.
pub open spec fn sum_step<R: SumAccumulator<T>, T>(result: Option<R>, input: Option<T>) -> Result<Option<R>, ExprError> {
    match (result, input) {
        (_, None) => Ok(result),
        (None, Some(i)) => Ok(Some(R::spec_widen(i))),
        (Some(r), Some(i)) => match r.spec_accumulate(R::spec_widen(i)) {
            Some(x) => Ok(Some(x)),
            None => Err(ExprError::NumericOutOfRange),
        },
    }
}

/// Folds one input into a running sum.
pub fn sum<R: SumAccumulator<T>, T>(result: Option<R>, input: Option<T>) -> (r: Result<Option<R>, ExprError>)
    ensures
        r == sum_step(result, input),
{
    match (result, input) {
        (_, None) => Ok(result),
        (None, Some(i)) => Ok(Some(R::widen(i))),
        (Some(r), Some(i)) => {
            let w = R::widen(i);
            match r.accumulate(&w) {
                Some(x) => Ok(Some(x)),
                None => Err(ExprError::NumericOutOfRange),
            }
        },
    }
}

/// One step of an extremum: a NULL on either side gives the other side; otherwise `keep_left`
/// decides between the running result and the input.
pub open spec fn extremum_step<T>(result: Option<T>, input: Option<T>, keep_left: bool) -> Option<T> {
    match (result, input) {
        (None, _) => input,
        (_, None) => result,
        (Some(r), Some(i)) => Some(if keep_left { r } else { i }),
    }
}

/// Folds one input into a running minimum: the input replaces the result unless the result
/// is strictly smaller.
pub fn min<T: PartialOrd + Copy>(result: Option<T>, input: Option<T>) -> (r: Result<Option<T>, ExprError>)
    ensures
        match (result, input) {
            (Some(a), Some(b)) => {
                &&& (r == Ok::<Option<T>, ExprError>(Some(a)) || r == Ok::<Option<T>, ExprError>(Some(b)))
                &&& T::obeys_partial_cmp_spec() ==> r == Ok::<Option<T>, ExprError>(Some(if a.is_lt(&b) { a } else { b }))
            },
            _ => r == Ok::<Option<T>, ExprError>(extremum_step(result, input, true)),
        },
{
    let res = match (result, input) {
        (None, _) => input,
        (_, None) => result,
        (Some(r), Some(i)) => Some(if r < i { r } else { i }),
    };
    Ok(res)
}

/// Folds one input into a running maximum: the input replaces the result unless the result
/// is strictly greater.
pub fn max<T: PartialOrd + Copy>(result: Option<T>, input: Option<T>) -> (r: Result<Option<T>, ExprError>)
    ensures
        match (result, input) {
            (Some(a), Some(b)) => {
                &&& (r == Ok::<Option<T>, ExprError>(Some(a)) || r == Ok::<Option<T>, ExprError>(Some(b)))
                &&& T::obeys_partial_cmp_spec() ==> r == Ok::<Option<T>, ExprError>(Some(if a.is_gt(&b) { a } else { b }))
            },
            _ => r == Ok::<Option<T>, ExprError>(extremum_step(result, input, true)),
        },
{
    let res = match (result, input) {
        (None, _) => input,
        (_, None) => result,
        (Some(r), Some(i)) => Some(if r > i { r } else { i }),
    };
    Ok(res)
}

/// `min` on text, by character order.
pub fn min_str<'a>(r: Option<&'a str>, i: Option<&'a str>) -> (res: Result<Option<&'a str>, ExprError>)
    ensures
        res == Ok::<Option<&'a str>, ExprError>(extremum_step(r, i, (r, i) matches (Some(a), Some(b)) && strings::text_less(a@, b@))),
{
    let res = match (r, i) {
        (None, _) => i,
        (_, None) => r,
        (Some(a), Some(b)) => Some(if text_lt(a, b) { a } else { b }),
    };
    Ok(res)
}

/// `max` on text, by character order.
pub fn max_str<'a>(r: Option<&'a str>, i: Option<&'a str>) -> (res: Result<Option<&'a str>, ExprError>)
    ensures
        res == Ok::<Option<&'a str>, ExprError>(extremum_step(r, i, (r, i) matches (Some(a), Some(b)) && strings::text_less(b@, a@))),
{
    let res = match (r, i) {
        (None, _) => i,
        (_, None) => r,
        (Some(a), Some(b)) => Some(if text_lt(b, a) { a } else { b }),
    };
    Ok(res)
}

/// Folds one input into `first`: the first non-NULL value seen stays.
pub fn first<T>(result: Option<T>, input: Option<T>) -> (r: Result<Option<T>, ExprError>)
    ensures
        r == Ok::<Option<T>, ExprError>(if result is Some { result } else { input }),
{
    match result {
        Some(v) => Ok(Some(v)),
        None => Ok(input),
    }
}

/// `first` on text.
pub fn first_str<'a>(r: Option<&'a str>, i: Option<&'a str>) -> (res: Result<Option<&'a str>, ExprError>)
    ensures
        res == Ok::<Option<&'a str>, ExprError>(if r is Some { r } else { i }),
{
    first(r, i)
}

/// One step of `count`: a NULL input is not counted, but makes the count 0 if it had not
/// started.
pub open spec fn count_step<T>(result: Option<i64>, input: Option<T>) -> Option<i64> {
    match (result, input) {
        (None, None) => Some(0),
        (Some(r), None) => Some(r),
        (None, Some(_)) => Some(1),
        (Some(r), Some(_)) => Some((r + 1) as i64),
    }
}

/// Folds one input into a running count; the count must not already be `i64::MAX` when a
/// non-NULL input arrives.
pub fn count<T>(result: Option<i64>, input: Option<T>) -> (r: Result<Option<i64>, ExprError>)
    requires
        result is Some && input is Some ==> result.unwrap() < i64::MAX,
    ensures
        r == Ok::<Option<i64>, ExprError>(count_step(result, input)),
{
    let res = match (result, input) {
        (None, None) => Some(0),
        (Some(r), None) => Some(r),
        (None, Some(_)) => Some(1),
        (Some(r), Some(_)) => Some(r + 1),
    };
    Ok(res)
}

/// `count` on text.
pub fn count_str(r: Option<i64>, i: Option<&str>) -> (res: Result<Option<i64>, ExprError>)
    requires
        r is Some && i is Some ==> r.unwrap() < i64::MAX,
    ensures
        res == Ok::<Option<i64>, ExprError>(count_step(r, i)),
{
    count(r, i)
}

} // verus!
