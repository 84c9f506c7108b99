//! The order of decimals: finite values by number, then NaN, then +infinity, then
//! -infinity (the kinds in the order `Decimal` declares them).

use std::cmp::Ordering;
use vstd::prelude::*;
use crate::decimal::Decimal;
use crate::fixed;
use crate::fixed::FixedDecimal;

verus! {

/// The position of a decimal's kind: finite, NaN, +infinity, -infinity.
pub open spec fn kind_rank(d: Decimal) -> int {
    match d {
        Decimal::Normalized(_) => 0,
        Decimal::NaN => 1,
        Decimal::PositiveInf => 2,
        Decimal::NegativeInf => 3,
    }
}

/// How two integers compare.
pub open spec fn int_order(a: int, b: int) -> Ordering {
    if a < b {
        Ordering::Less
    } else if a == b {
        Ordering::Equal
    } else {
        Ordering::Greater
    }
}

/// How two decimals compare: two finite values by number; otherwise by kind.
pub open spec fn decimal_order(a: Decimal, b: Decimal) -> Ordering {
    match (a, b) {
        (Decimal::Normalized(x), Decimal::Normalized(y)) => int_order(
            x@.scaled_value(),
            y@.scaled_value(),
        ),
        _ => int_order(kind_rank(a), kind_rank(b)),
    }
}

fn kind_position(d: &Decimal) -> (r: u8)
    ensures
        r == kind_rank(*d),
{
    match d {
        Decimal::Normalized(_) => 0,
        Decimal::NaN => 1,
        Decimal::PositiveInf => 2,
        Decimal::NegativeInf => 3,
    }
}

impl PartialOrd for Decimal {
    fn partial_cmp(&self, other: &Decimal) -> (r: Option<Ordering>) {
        match (self, other) {
            (Decimal::Normalized(x), Decimal::Normalized(y)) => {
                proof {
                    use_type_invariant(x);
                    use_type_invariant(y);
                    FixedDecimal::lemma_magnitude_bound(*x);
                    FixedDecimal::lemma_magnitude_bound(*y);
                }
                Some(fixed::number_order(*x, *y))
            },
            _ => {
                let a = kind_position(self);
                let b = kind_position(other);
                if a < b {
                    Some(Ordering::Less)
                } else if a == b {
                    Some(Ordering::Equal)
                } else {
                    Some(Ordering::Greater)
                }
            },
        }
    }
}

impl vstd::std_specs::cmp::PartialOrdSpecImpl for Decimal {
    open spec fn obeys_partial_cmp_spec() -> bool {
        true
    }

    open spec fn partial_cmp_spec(&self, other: &Decimal) -> Option<Ordering> {
        Some(decimal_order(*self, *other))
    }
}

/// Two decimals compare equal exactly when they are equal (`==`).
pub proof fn law_order_matches_equality(a: Decimal, b: Decimal)
    ensures
        (decimal_order(a, b) == Ordering::Equal) == crate::decimal::same_decimal(a, b),
{
}

/// Swapping the operands reverses the order.
pub proof fn law_order_antisymmetric(a: Decimal, b: Decimal)
    ensures
        (decimal_order(a, b) == Ordering::Less) == (decimal_order(b, a) == Ordering::Greater),
{
}

/// The order is transitive.
pub proof fn law_order_transitive(a: Decimal, b: Decimal, c: Decimal)
    requires
        decimal_order(a, b) == Ordering::Less,
        decimal_order(b, c) == Ordering::Less,
    ensures
        decimal_order(a, c) == Ordering::Less,
{
}

/// Every finite value comes before NaN, and NaN before the infinities.
pub proof fn law_finite_before_special(x: fixed::FixedView)
    ensures
        decimal_order(crate::decimal::finite(x), Decimal::NaN) == Ordering::Less,
        decimal_order(Decimal::NaN, Decimal::PositiveInf) == Ordering::Less,
        decimal_order(Decimal::PositiveInf, Decimal::NegativeInf) == Ordering::Less,
{
}

} // verus!
