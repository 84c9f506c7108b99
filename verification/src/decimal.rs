//! `Decimal`: a finite decimal, NaN, or a signed infinity, with SQL arithmetic over
//! all four kinds. Finite operands are computed by `rust_decimal`; what happens around
//! NaN, the infinities and zero divisors is decided here.

use crate::fixed;
use crate::fixed::FixedDecimal;
use vstd::prelude::*;

verus! {

/// A SQL `decimal`: a finite number, NaN, or one of the two infinities.
#[derive(Clone, Copy, Debug)]
pub enum Decimal {
    Normalized(FixedDecimal),
    NaN,
    PositiveInf,
    NegativeInf,
}

/// The finite decimal whose content is `v`.
pub open spec fn finite(v: fixed::FixedView) -> Decimal {
    Decimal::Normalized(FixedDecimal::from_view(v))
}

/// Finite zero with scale 0.
pub open spec fn zero_view() -> fixed::FixedView {
    fixed::FixedView { negative: false, magnitude: 0, scale: 0 }
}

/// The finite content of a decimal (meaningless for the other kinds).
pub open spec fn content(d: Decimal) -> fixed::FixedView {
    match d {
        Decimal::Normalized(x) => x@,
        _ => zero_view(),
    }
}

pub open spec fn is_infinite(d: Decimal) -> bool {
    d is PositiveInf || d is NegativeInf
}

/// The sign the arithmetic rules go by: 0 for a finite zero (whatever its sign flag)
/// and for NaN, -1 for negatives and -infinity, 1 for positives and +infinity.
pub open spec fn sign_class(d: Decimal) -> int {
    match d {
        Decimal::Normalized(x) => if x@.is_zero() {
            0
        } else if x@.negative {
            -1
        } else {
            1
        },
        Decimal::PositiveInf => 1,
        Decimal::NegativeInf => -1,
        Decimal::NaN => 0,
    }
}

/// The infinity of the given sign.
pub open spec fn infinity(sign: int) -> Decimal {
    if sign < 0 {
        Decimal::NegativeInf
    } else {
        Decimal::PositiveInf
    }
}

/// The finite value with its sign flag flipped.
pub open spec fn flipped(v: fixed::FixedView) -> fixed::FixedView {
    fixed::FixedView { negative: !v.negative, ..v }
}

/// Negation: the sign flag of a finite value flips (0 becomes -0); the infinities swap.
pub open spec fn spec_neg(a: Decimal) -> Decimal {
    match a {
        Decimal::Normalized(x) => finite(flipped(x@)),
        Decimal::NaN => Decimal::NaN,
        Decimal::PositiveInf => Decimal::NegativeInf,
        Decimal::NegativeInf => Decimal::PositiveInf,
    }
}

/// Both operands finite.
pub open spec fn both_finite(a: Decimal, b: Decimal) -> bool {
    a is Normalized && b is Normalized
}

/// Addition: finite sums are `rust_decimal`'s; NaN absorbs; opposite infinities give NaN;
/// otherwise an infinity wins.
pub open spec fn spec_add(a: Decimal, b: Decimal) -> Decimal {
    if both_finite(a, b) {
        finite(fixed::decimal_sum(content(a), content(b)).unwrap())
    } else if a is NaN || b is NaN {
        Decimal::NaN
    } else if is_infinite(a) && is_infinite(b) && a != b {
        Decimal::NaN
    } else if is_infinite(a) {
        a
    } else {
        b
    }
}

/// Subtraction: finite differences are `rust_decimal`'s; otherwise adding the negation.
pub open spec fn spec_sub(a: Decimal, b: Decimal) -> Decimal {
    if both_finite(a, b) {
        finite(fixed::decimal_difference(content(a), content(b)).unwrap())
    } else {
        spec_add(a, spec_neg(b))
    }
}

/// Multiplication: finite products are `rust_decimal`'s; NaN absorbs; zero times an infinity
/// is NaN; otherwise the infinity whose sign is the product of the signs.
pub open spec fn spec_mul(a: Decimal, b: Decimal) -> Decimal {
    if both_finite(a, b) {
        finite(fixed::decimal_product(content(a), content(b)).unwrap())
    } else if a is NaN || b is NaN || sign_class(a) == 0 || sign_class(b) == 0 {
        Decimal::NaN
    } else {
        infinity(sign_class(a) * sign_class(b))
    }
}

/// A finite zero.
pub open spec fn is_finite_zero(d: Decimal) -> bool {
    d is Normalized && content(d).is_zero()
}

/// Division: NaN absorbs; dividing by a finite zero gives the infinity of the dividend's sign
/// (NaN for a zero dividend); a finite number over an infinity is 0, an infinity over an
/// infinity NaN; an infinity over a non-zero finite number keeps the product sign; finite
/// quotients are `rust_decimal`'s.
pub open spec fn spec_div(a: Decimal, b: Decimal) -> Decimal {
    if a is NaN || b is NaN {
        Decimal::NaN
    } else if is_finite_zero(b) {
        if sign_class(a) == 0 {
            Decimal::NaN
        } else {
            infinity(sign_class(a))
        }
    } else if is_infinite(b) {
        if a is Normalized {
            finite(zero_view())
        } else {
            Decimal::NaN
        }
    } else if is_infinite(a) {
        infinity(sign_class(a) * sign_class(b))
    } else {
        finite(fixed::decimal_quotient(content(a), content(b)).unwrap())
    }
}

/// Remainder: finite by non-zero finite is `rust_decimal`'s; finite by an infinity is the
/// dividend; everything else is NaN.
pub open spec fn spec_rem(a: Decimal, b: Decimal) -> Decimal {
    if both_finite(a, b) && !is_finite_zero(b) {
        finite(fixed::decimal_remainder(content(a), content(b)).unwrap())
    } else if a is Normalized && is_infinite(b) {
        a
    } else {
        Decimal::NaN
    }
}

/// Absolute value: a negative finite value is negated; -infinity becomes +infinity.
pub open spec fn spec_abs(a: Decimal) -> Decimal {
    match a {
        Decimal::Normalized(x) => if x@.negative {
            spec_neg(a)
        } else {
            a
        },
        Decimal::NegativeInf => Decimal::PositiveInf,
        _ => a,
    }
}

/// An optional finite result carried over into decimals.
pub open spec fn finite_option(r: Option<fixed::FixedView>) -> Option<Decimal> {
    match r {
        Some(v) => Some(finite(v)),
        None => None,
    }
}

/// `a + b` does not overflow.
pub open spec fn sum_fits(a: Decimal, b: Decimal) -> bool {
    both_finite(a, b) ==> fixed::decimal_sum(content(a), content(b)) is Some
}

/// `a - b` does not overflow.
pub open spec fn difference_fits(a: Decimal, b: Decimal) -> bool {
    both_finite(a, b) ==> fixed::decimal_difference(content(a), content(b)) is Some
}

/// `a * b` does not overflow.
pub open spec fn product_fits(a: Decimal, b: Decimal) -> bool {
    both_finite(a, b) ==> fixed::decimal_product(content(a), content(b)) is Some
}

/// `a / b` does not overflow.
pub open spec fn quotient_fits(a: Decimal, b: Decimal) -> bool {
    both_finite(a, b) && !is_finite_zero(b) ==> fixed::decimal_quotient(content(a), content(b)) is Some
}

/// `a % b` does not overflow.
pub open spec fn remainder_fits(a: Decimal, b: Decimal) -> bool {
    both_finite(a, b) && !is_finite_zero(b) ==> fixed::decimal_remainder(content(a), content(b)) is Some
}

/// A finite operand goes through `f`; NaN and the infinities stay as they are.
pub open spec fn on_finite(d: Decimal, f: spec_fn(fixed::FixedView) -> fixed::FixedView) -> Decimal {
    match d {
        Decimal::Normalized(x) => finite(f(x@)),
        _ => d,
    }
}

/// Normal form of a finite value: the same number with trailing zeros stripped and no -0.
pub open spec fn normal_form_of(v: fixed::FixedView, w: fixed::FixedView) -> bool {
    w.scaled_value() == v.scaled_value() && fixed::is_normal_form(w) && (!v.is_zero() ==> w.negative == v.negative)
}

impl Decimal {
    /// Finite contents are valid `rust_decimal` values.
    pub open spec fn wf(self) -> bool {
        match self {
            Decimal::Normalized(x) => x.wf(),
            _ => true,
        }
    }

    /// Difference; panics (as `rust_decimal`'s `-` does) when two finite operands overflow.
    pub fn sub(self, other: Decimal) -> (r: Decimal)
        requires
            difference_fits(self, other),
        ensures
            r == spec_sub(self, other),
            r.wf(),
    {
        match (self, other) {
            (Decimal::Normalized(x), Decimal::Normalized(y)) => {
                proof {
                    use_type_invariant(&x);
                    use_type_invariant(&y);
                    FixedDecimal::lemma_magnitude_bound(x);
                    FixedDecimal::lemma_magnitude_bound(y);
                }
                match fixed::checked_difference(x, y) {
                    Some(v) => {
                        proof {
                            FixedDecimal::lemma_from_own_view(v);
                        }
                        Decimal::Normalized(v)
                    },
                    None => Decimal::NaN,
                }
            },
            (Decimal::NaN, _) => Decimal::NaN,
            (_, Decimal::NaN) => Decimal::NaN,
            (Decimal::PositiveInf, Decimal::PositiveInf) => Decimal::NaN,
            (Decimal::NegativeInf, Decimal::NegativeInf) => Decimal::NaN,
            (Decimal::PositiveInf, _) => Decimal::PositiveInf,
            (_, Decimal::PositiveInf) => Decimal::NegativeInf,
            (Decimal::NegativeInf, _) => Decimal::NegativeInf,
            (_, Decimal::NegativeInf) => Decimal::PositiveInf,
        }
    }

    /// Product; panics (as `rust_decimal`'s `*` does) when two finite operands overflow.
    pub fn mul(self, other: Decimal) -> (r: Decimal)
        requires
            product_fits(self, other),
        ensures
            r == spec_mul(self, other),
            r.wf(),
    {
        match (self, other) {
            (Decimal::Normalized(x), Decimal::Normalized(y)) => {
                proof {
                    use_type_invariant(&x);
                    use_type_invariant(&y);
                    FixedDecimal::lemma_magnitude_bound(x);
                    FixedDecimal::lemma_magnitude_bound(y);
                }
                match fixed::checked_product(x, y) {
                    Some(v) => {
                        proof {
                            FixedDecimal::lemma_from_own_view(v);
                        }
                        Decimal::Normalized(v)
                    },
                    None => Decimal::NaN,
                }
            },
            (Decimal::NaN, _) => Decimal::NaN,
            (_, Decimal::NaN) => Decimal::NaN,
            (Decimal::PositiveInf, Decimal::Normalized(rhs)) if !rhs.is_zero() && rhs.is_sign_negative() => {
                Decimal::NegativeInf
            },
            (Decimal::PositiveInf, Decimal::Normalized(rhs)) if !rhs.is_zero() && rhs.is_sign_positive() => {
                Decimal::PositiveInf
            },
            (Decimal::PositiveInf, Decimal::PositiveInf) => Decimal::PositiveInf,
            (Decimal::PositiveInf, Decimal::NegativeInf) => Decimal::NegativeInf,
            (Decimal::Normalized(lhs), Decimal::PositiveInf) if !lhs.is_zero() && lhs.is_sign_negative() => {
                Decimal::NegativeInf
            },
            (Decimal::Normalized(lhs), Decimal::PositiveInf) if !lhs.is_zero() && lhs.is_sign_positive() => {
                Decimal::PositiveInf
            },
            (Decimal::NegativeInf, Decimal::PositiveInf) => Decimal::NegativeInf,
            (Decimal::NegativeInf, Decimal::Normalized(rhs)) if !rhs.is_zero() && rhs.is_sign_negative() => {
                Decimal::PositiveInf
            },
            (Decimal::NegativeInf, Decimal::Normalized(rhs)) if !rhs.is_zero() && rhs.is_sign_positive() => {
                Decimal::NegativeInf
            },
            (Decimal::NegativeInf, Decimal::NegativeInf) => Decimal::PositiveInf,
            (Decimal::Normalized(lhs), Decimal::NegativeInf) if !lhs.is_zero() && lhs.is_sign_negative() => {
                Decimal::PositiveInf
            },
            (Decimal::Normalized(lhs), Decimal::NegativeInf) if !lhs.is_zero() && lhs.is_sign_positive() => {
                Decimal::NegativeInf
            },
            // zero times an infinity
            _ => Decimal::NaN,
        }
    }

    /// Quotient; panics (as `rust_decimal`'s `/` does) when two finite operands overflow.
    pub fn div(self, other: Decimal) -> (r: Decimal)
        requires
            quotient_fits(self, other),
        ensures
            r == spec_div(self, other),
            r.wf(),
    {
        match (self, other) {
            (Decimal::NaN, _) => Decimal::NaN,
            (_, Decimal::NaN) => Decimal::NaN,
            (lhs, Decimal::Normalized(rhs)) if rhs.is_zero() => match lhs {
                Decimal::Normalized(lhs) => {
                    if lhs.is_sign_positive() && !lhs.is_zero() {
                        Decimal::PositiveInf
                    } else if lhs.is_sign_negative() && !lhs.is_zero() {
                        Decimal::NegativeInf
                    } else {
                        Decimal::NaN
                    }
                },
                Decimal::PositiveInf => Decimal::PositiveInf,
                Decimal::NegativeInf => Decimal::NegativeInf,
                Decimal::NaN => Decimal::NaN,
            },
            (Decimal::Normalized(_), Decimal::PositiveInf) => {
                let z = FixedDecimal::zero();
                proof {
                    FixedDecimal::lemma_from_own_view(z);
                }
                Decimal::Normalized(z)
            },
            (_, Decimal::PositiveInf) => Decimal::NaN,
            (Decimal::Normalized(_), Decimal::NegativeInf) => {
                let z = FixedDecimal::zero();
                proof {
                    FixedDecimal::lemma_from_own_view(z);
                }
                Decimal::Normalized(z)
            },
            (_, Decimal::NegativeInf) => Decimal::NaN,
            (Decimal::PositiveInf, Decimal::Normalized(d)) => {
                if d.is_sign_positive() {
                    Decimal::PositiveInf
                } else {
                    Decimal::NegativeInf
                }
            },
            (Decimal::NegativeInf, Decimal::Normalized(d)) => {
                if d.is_sign_positive() {
                    Decimal::NegativeInf
                } else {
                    Decimal::PositiveInf
                }
            },
            (Decimal::Normalized(x), Decimal::Normalized(y)) => {
                proof {
                    use_type_invariant(&x);
                    use_type_invariant(&y);
                    FixedDecimal::lemma_magnitude_bound(x);
                    FixedDecimal::lemma_magnitude_bound(y);
                }
                match fixed::checked_quotient(x, y) {
                    Some(v) => {
                        proof {
                            FixedDecimal::lemma_from_own_view(v);
                        }
                        Decimal::Normalized(v)
                    },
                    None => Decimal::NaN,
                }
            },
        }
    }

    /// Remainder; panics (as `rust_decimal`'s `%` does) when two finite operands overflow.
    pub fn rem(self, other: Decimal) -> (r: Decimal)
        requires
            remainder_fits(self, other),
        ensures
            r == spec_rem(self, other),
            r.wf(),
    {
        match (self, other) {
            (Decimal::Normalized(x), Decimal::Normalized(y)) if !y.is_zero() => {
                proof {
                    use_type_invariant(&x);
                    use_type_invariant(&y);
                    FixedDecimal::lemma_magnitude_bound(x);
                    FixedDecimal::lemma_magnitude_bound(y);
                }
                match fixed::checked_remainder(x, y) {
                    Some(v) => {
                        proof {
                            FixedDecimal::lemma_from_own_view(v);
                        }
                        Decimal::Normalized(v)
                    },
                    None => Decimal::NaN,
                }
            },
            (Decimal::Normalized(_), Decimal::Normalized(_)) => Decimal::NaN,
            (Decimal::Normalized(lhs), Decimal::PositiveInf) | (Decimal::Normalized(lhs), Decimal::NegativeInf) => {
                proof {
                    use_type_invariant(&lhs);
                    FixedDecimal::lemma_magnitude_bound(lhs);
                }
                Decimal::Normalized(lhs)
            },
            _ => Decimal::NaN,
        }
    }

    /// Negation.
    pub fn neg(self) -> (r: Decimal)
        ensures
            r == spec_neg(self),
            r.wf(),
    {
        match self {
            Decimal::Normalized(d) => {
                let v = d.negated();
                proof {
                    FixedDecimal::lemma_from_own_view(v);
                }
                Decimal::Normalized(v)
            },
            Decimal::NaN => Decimal::NaN,
            Decimal::PositiveInf => Decimal::NegativeInf,
            Decimal::NegativeInf => Decimal::PositiveInf,
        }
    }

    /// Negation never fails.
    pub fn checked_neg(&self) -> (r: Option<Decimal>)
        ensures
            r == Some(spec_neg(*self)),
    {
        Some(self.neg())
    }

    /// Sum, or `None` when two finite operands overflow.
    pub fn checked_add(&self, other: &Decimal) -> (r: Option<Decimal>)
        ensures
            r == (if both_finite(*self, *other) {
                finite_option(fixed::decimal_sum(content(*self), content(*other)))
            } else {
                Some(spec_add(*self, *other))
            }),
    {
        match (self, other) {
            (Decimal::Normalized(x), Decimal::Normalized(y)) => {
                proof {
                    use_type_invariant(x);
                    use_type_invariant(y);
                    FixedDecimal::lemma_magnitude_bound(*x);
                    FixedDecimal::lemma_magnitude_bound(*y);
                }
                match fixed::checked_sum(*x, *y) {
                    Some(v) => {
                        proof {
                            FixedDecimal::lemma_from_own_view(v);
                        }
                        Some(Decimal::Normalized(v))
                    },
                    None => None,
                }
            },
            (lhs, rhs) => Some(lhs.add(*rhs)),
        }
    }

    /// Difference, or `None` when two finite operands overflow.
    pub fn checked_sub(&self, other: &Decimal) -> (r: Option<Decimal>)
        ensures
            r == (if both_finite(*self, *other) {
                finite_option(fixed::decimal_difference(content(*self), content(*other)))
            } else {
                Some(spec_sub(*self, *other))
            }),
    {
        match (self, other) {
            (Decimal::Normalized(x), Decimal::Normalized(y)) => {
                proof {
                    use_type_invariant(x);
                    use_type_invariant(y);
                    FixedDecimal::lemma_magnitude_bound(*x);
                    FixedDecimal::lemma_magnitude_bound(*y);
                }
                match fixed::checked_difference(*x, *y) {
                    Some(v) => {
                        proof {
                            FixedDecimal::lemma_from_own_view(v);
                        }
                        Some(Decimal::Normalized(v))
                    },
                    None => None,
                }
            },
            (lhs, rhs) => Some(lhs.sub(*rhs)),
        }
    }

    /// Product, or `None` when two finite operands overflow.
    pub fn checked_mul(&self, other: &Decimal) -> (r: Option<Decimal>)
        ensures
            r == (if both_finite(*self, *other) {
                finite_option(fixed::decimal_product(content(*self), content(*other)))
            } else {
                Some(spec_mul(*self, *other))
            }),
    {
        match (self, other) {
            (Decimal::Normalized(x), Decimal::Normalized(y)) => {
                proof {
                    use_type_invariant(x);
                    use_type_invariant(y);
                    FixedDecimal::lemma_magnitude_bound(*x);
                    FixedDecimal::lemma_magnitude_bound(*y);
                }
                match fixed::checked_product(*x, *y) {
                    Some(v) => {
                        proof {
                            FixedDecimal::lemma_from_own_view(v);
                        }
                        Some(Decimal::Normalized(v))
                    },
                    None => None,
                }
            },
            (lhs, rhs) => Some(lhs.mul(*rhs)),
        }
    }

    /// Quotient of two finite operands as `rust_decimal` gives it (`None` on overflow or a
    /// zero divisor); otherwise the quotient by the rules of `div`.
    pub fn checked_div(&self, other: &Decimal) -> (r: Option<Decimal>)
        ensures
            r == (if both_finite(*self, *other) {
                finite_option(fixed::decimal_quotient(content(*self), content(*other)))
            } else {
                Some(spec_div(*self, *other))
            }),
    {
        match (self, other) {
            (Decimal::Normalized(x), Decimal::Normalized(y)) => {
                proof {
                    use_type_invariant(x);
                    use_type_invariant(y);
                    FixedDecimal::lemma_magnitude_bound(*x);
                    FixedDecimal::lemma_magnitude_bound(*y);
                }
                match fixed::checked_quotient(*x, *y) {
                    Some(v) => {
                        proof {
                            FixedDecimal::lemma_from_own_view(v);
                        }
                        Some(Decimal::Normalized(v))
                    },
                    None => None,
                }
            },
            (lhs, rhs) => Some(lhs.div(*rhs)),
        }
    }

    /// Remainder of two finite operands as `rust_decimal` gives it (`None` on overflow or a
    /// zero divisor); otherwise the remainder by the rules of `rem`.
    pub fn checked_rem(&self, other: &Decimal) -> (r: Option<Decimal>)
        ensures
            r == (if both_finite(*self, *other) {
                finite_option(fixed::decimal_remainder(content(*self), content(*other)))
            } else {
                Some(spec_rem(*self, *other))
            }),
    {
        match (self, other) {
            (Decimal::Normalized(x), Decimal::Normalized(y)) => {
                proof {
                    use_type_invariant(x);
                    use_type_invariant(y);
                    FixedDecimal::lemma_magnitude_bound(*x);
                    FixedDecimal::lemma_magnitude_bound(*y);
                }
                match fixed::checked_remainder(*x, *y) {
                    Some(v) => {
                        proof {
                            FixedDecimal::lemma_from_own_view(v);
                        }
                        Some(Decimal::Normalized(v))
                    },
                    None => None,
                }
            },
            (lhs, rhs) => Some(lhs.rem(*rhs)),
        }
    }

    /// Absolute value.
    pub fn abs(&self) -> (r: Decimal)
        ensures
            r == spec_abs(*self),
            r.wf(),
    {
        match self {
            Decimal::Normalized(d) => {
                if d.is_sign_negative() {
                    let v = d.negated();
                    proof {
                        FixedDecimal::lemma_from_own_view(v);
                    }
                    Decimal::Normalized(v)
                } else {
                    proof {
                        use_type_invariant(d);
                        FixedDecimal::lemma_magnitude_bound(*d);
                    }
                    Decimal::Normalized(*d)
                }
            },
            Decimal::NaN => Decimal::NaN,
            Decimal::PositiveInf => Decimal::PositiveInf,
            Decimal::NegativeInf => Decimal::PositiveInf,
        }
    }

    /// Rounds a finite value to `dp` fractional digits, midpoints away from zero. NaN and the infinities are returned as they are.
    pub fn round_dp(&self, dp: u32) -> (r: Decimal)
        ensures
            r == on_finite(*self, |v: fixed::FixedView| fixed::decimal_round_half_away(v, dp)),
            r.wf(),
    {
        match self {
            Decimal::Normalized(d) => {
                proof {
                    use_type_invariant(d);
                    FixedDecimal::lemma_magnitude_bound(*d);
                }
                let v = fixed::rounded_half_away(*d, dp);
                proof {
                    FixedDecimal::lemma_from_own_view(v);
                }
                Decimal::Normalized(v)
            },
            d => *d,
        }
    }

    /// Smallest integer not below a finite value. NaN and the infinities are returned as they are.
    pub fn ceil(&self) -> (r: Decimal)
        ensures
            r == on_finite(*self, |v: fixed::FixedView| fixed::decimal_ceil(v)),
            r.wf(),
    {
        match self {
            Decimal::Normalized(d) => {
                proof {
                    use_type_invariant(d);
                    FixedDecimal::lemma_magnitude_bound(*d);
                }
                let v = fixed::ceiling(*d);
                proof {
                    FixedDecimal::lemma_from_own_view(v);
                }
                Decimal::Normalized(v)
            },
            d => *d,
        }
    }

    /// Largest integer not above a finite value. NaN and the infinities are returned as they are.
    pub fn floor(&self) -> (r: Decimal)
        ensures
            r == on_finite(*self, |v: fixed::FixedView| fixed::decimal_floor(v)),
            r.wf(),
    {
        match self {
            Decimal::Normalized(d) => {
                proof {
                    use_type_invariant(d);
                    FixedDecimal::lemma_magnitude_bound(*d);
                }
                let v = fixed::flooring(*d);
                proof {
                    FixedDecimal::lemma_from_own_view(v);
                }
                Decimal::Normalized(v)
            },
            d => *d,
        }
    }

    /// Rounds a finite value to an integer, midpoints to even. NaN and the infinities are returned as they are.
    pub fn round(&self) -> (r: Decimal)
        ensures
            r == on_finite(*self, |v: fixed::FixedView| fixed::decimal_round_half_even(v)),
            r.wf(),
    {
        match self {
            Decimal::Normalized(d) => {
                proof {
                    use_type_invariant(d);
                    FixedDecimal::lemma_magnitude_bound(*d);
                }
                let v = fixed::rounded_half_even(*d);
                proof {
                    FixedDecimal::lemma_from_own_view(v);
                }
                Decimal::Normalized(v)
            },
            d => *d,
        }
    }

    /// Strips trailing zeros from a finite value and turns -0 into 0. NaN and the infinities
    /// are returned as they are.
    pub fn normalize(&self) -> (r: Decimal)
        ensures
            r.wf(),
            match *self {
                Decimal::Normalized(x) => r is Normalized && normal_form_of(x@, content(r)),
                _ => r == *self,
            },
    {
        match self {
            Decimal::Normalized(d) => {
                proof {
                    use_type_invariant(d);
                    FixedDecimal::lemma_magnitude_bound(*d);
                }
                Decimal::Normalized(fixed::normalized(*d))
            },
            d => *d,
        }
    }

    /// A finite zero (of either sign and any scale).
    pub fn is_zero(&self) -> (r: bool)
        ensures
            r == is_finite_zero(*self),
    {
        match self {
            Decimal::Normalized(d) => d.is_zero(),
            _ => false,
        }
    }

    /// The signed mantissa of a finite value; 0 for NaN and the infinities.
    pub fn mantissa(&self) -> (r: i128)
        ensures
            r == (match *self {
                Decimal::Normalized(x) => x@.signed_mantissa(),
                _ => 0,
            }),
    {
        match self {
            Decimal::Normalized(d) => d.mantissa(),
            _ => 0,
        }
    }

    /// The scale of a finite value; 0 for NaN and the infinities.
    pub fn scale(&self) -> (r: i32)
        ensures
            r == (match *self {
                Decimal::Normalized(x) => x@.scale as int,
                _ => 0,
            }),
    {
        match self {
            Decimal::Normalized(d) => d.scale() as i32,
            _ => 0,
        }
    }

    /// `num / 10^scale`; panics (as `rust_decimal` does) on a scale above 28.
    pub fn new(num: i64, scale: u32) -> (r: Decimal)
        requires
            scale <= fixed::MAX_SCALE,
        ensures
            r.wf(),
            r == finite(fixed::FixedView {
                negative: num < 0,
                magnitude: if num < 0 { (-num) as nat } else { num as nat },
                scale: scale as nat,
            }),
    {
        let v = FixedDecimal::new(num, scale);
        proof {
            FixedDecimal::lemma_from_own_view(v);
        }
        Decimal::Normalized(v)
    }

    /// `num / 10^scale`; panics (as `rust_decimal` does) on a scale above 28 or a magnitude
    /// of 2^96 or more.
    pub fn from_i128_with_scale(num: i128, scale: u32) -> (r: Decimal)
        requires
            scale <= fixed::MAX_SCALE,
            -0xffff_ffff_ffff_ffff_ffff_ffff <= num <= 0xffff_ffff_ffff_ffff_ffff_ffff,
        ensures
            r.wf(),
            r == finite(fixed::FixedView {
                negative: num < 0,
                magnitude: if num < 0 { (-num) as nat } else { num as nat },
                scale: scale as nat,
            }),
    {
        let v = FixedDecimal::from_i128_with_scale(num, scale);
        proof {
            FixedDecimal::lemma_from_own_view(v);
        }
        Decimal::Normalized(v)
    }

    /// Finite zero with scale 0.
    pub fn zero() -> (r: Decimal)
        ensures
            r == finite(zero_view()),
            r.wf(),
    {
        let v = FixedDecimal::zero();
        proof {
            FixedDecimal::lemma_from_own_view(v);
        }
        Decimal::Normalized(v)
    }

    /// The finite value of a signed integer.
    pub fn from_i64(n: i64) -> (r: Decimal)
        ensures
            r.wf(),
            r == finite(fixed::FixedView {
                negative: n < 0,
                magnitude: if n < 0 { (-n) as nat } else { n as nat },
                scale: 0,
            }),
    {
        let v = FixedDecimal::from_i64(n);
        proof {
            FixedDecimal::lemma_from_own_view(v);
        }
        Decimal::Normalized(v)
    }

    /// The finite value of an unsigned integer.
    pub fn from_u64(n: u64) -> (r: Decimal)
        ensures
            r.wf(),
            r == finite(fixed::FixedView { negative: false, magnitude: n as nat, scale: 0 }),
    {
        let v = FixedDecimal::from_u64(n);
        proof {
            FixedDecimal::lemma_from_own_view(v);
        }
        Decimal::Normalized(v)
    }

    /// Sum; panics (as `rust_decimal`'s `+` does) when two finite operands overflow.
    pub fn add(self, other: Decimal) -> (r: Decimal)
        requires
            sum_fits(self, other),
        ensures
            r == spec_add(self, other),
            r.wf(),
    {
        match (self, other) {
            (Decimal::Normalized(x), Decimal::Normalized(y)) => {
                proof {
                    use_type_invariant(&x);
                    use_type_invariant(&y);
                    FixedDecimal::lemma_magnitude_bound(x);
                    FixedDecimal::lemma_magnitude_bound(y);
                }
                let s = fixed::checked_sum(x, y);
                match s {
                    Some(v) => {
                        proof {
                            FixedDecimal::lemma_from_own_view(v);
                        }
                        Decimal::Normalized(v)
                    },
                    None => Decimal::NaN,
                }
            },
            (Decimal::NaN, _) => Decimal::NaN,
            (_, Decimal::NaN) => Decimal::NaN,
            (Decimal::PositiveInf, Decimal::NegativeInf) => Decimal::NaN,
            (Decimal::NegativeInf, Decimal::PositiveInf) => Decimal::NaN,
            (Decimal::PositiveInf, _) => Decimal::PositiveInf,
            (_, Decimal::PositiveInf) => Decimal::PositiveInf,
            (Decimal::NegativeInf, _) => Decimal::NegativeInf,
            (_, Decimal::NegativeInf) => Decimal::NegativeInf,
        }
    }
}

/// Equality as SQL sees it: finite values compare by number (1.0 = 1.00, -0 = 0); NaN
/// equals NaN and each infinity itself.
pub open spec fn same_decimal(a: Decimal, b: Decimal) -> bool {
    match (a, b) {
        (Decimal::Normalized(x), Decimal::Normalized(y)) => x@.scaled_value() == y@.scaled_value(),
        (Decimal::NaN, Decimal::NaN) => true,
        (Decimal::PositiveInf, Decimal::PositiveInf) => true,
        (Decimal::NegativeInf, Decimal::NegativeInf) => true,
        _ => false,
    }
}

impl PartialEq for Decimal {
    fn eq(&self, other: &Decimal) -> (r: bool) {
        match (self, other) {
            (Decimal::Normalized(x), Decimal::Normalized(y)) => {
                proof {
                    use_type_invariant(x);
                    use_type_invariant(y);
                    FixedDecimal::lemma_magnitude_bound(*x);
                    FixedDecimal::lemma_magnitude_bound(*y);
                }
                fixed::same_number(*x, *y)
            },
            (Decimal::NaN, Decimal::NaN) => true,
            (Decimal::PositiveInf, Decimal::PositiveInf) => true,
            (Decimal::NegativeInf, Decimal::NegativeInf) => true,
            _ => false,
        }
    }
}

impl vstd::std_specs::cmp::PartialEqSpecImpl for Decimal {
    open spec fn obeys_eq_spec() -> bool {
        true
    }

    open spec fn eq_spec(&self, other: &Decimal) -> bool {
        same_decimal(*self, *other)
    }
}

impl Default for Decimal {
    /// Finite zero, as `rust_decimal`'s default.
    fn default() -> (r: Decimal)
        ensures
            r == finite(zero_view()),
    {
        Decimal::zero()
    }
}

/// The content of an integer.
pub open spec fn integer_view(n: int) -> fixed::FixedView {
    fixed::FixedView { negative: n < 0, magnitude: (if n < 0 { -n } else { n }) as nat, scale: 0 }
}

impl From<i16> for Decimal {
    fn from(n: i16) -> (r: Decimal) {
        Decimal::from_i64(n as i64)
    }
}

impl vstd::std_specs::convert::FromSpecImpl<i16> for Decimal {
    open spec fn obeys_from_spec() -> bool {
        true
    }

    open spec fn from_spec(n: i16) -> Decimal {
        finite(integer_view(n as int))
    }
}

impl From<i32> for Decimal {
    fn from(n: i32) -> (r: Decimal) {
        Decimal::from_i64(n as i64)
    }
}

impl vstd::std_specs::convert::FromSpecImpl<i32> for Decimal {
    open spec fn obeys_from_spec() -> bool {
        true
    }

    open spec fn from_spec(n: i32) -> Decimal {
        finite(integer_view(n as int))
    }
}

impl From<i64> for Decimal {
    fn from(n: i64) -> (r: Decimal) {
        Decimal::from_i64(n as i64)
    }
}

impl vstd::std_specs::convert::FromSpecImpl<i64> for Decimal {
    open spec fn obeys_from_spec() -> bool {
        true
    }

    open spec fn from_spec(n: i64) -> Decimal {
        finite(integer_view(n as int))
    }
}

impl From<u32> for Decimal {
    fn from(n: u32) -> (r: Decimal) {
        Decimal::from_u64(n as u64)
    }
}

impl vstd::std_specs::convert::FromSpecImpl<u32> for Decimal {
    open spec fn obeys_from_spec() -> bool {
        true
    }

    open spec fn from_spec(n: u32) -> Decimal {
        finite(integer_view(n as int))
    }
}

impl From<u64> for Decimal {
    fn from(n: u64) -> (r: Decimal) {
        Decimal::from_u64(n as u64)
    }
}

impl vstd::std_specs::convert::FromSpecImpl<u64> for Decimal {
    open spec fn obeys_from_spec() -> bool {
        true
    }

    open spec fn from_spec(n: u64) -> Decimal {
        finite(integer_view(n as int))
    }
}

impl From<usize> for Decimal {
    fn from(n: usize) -> (r: Decimal) {
        Decimal::from_u64(n as u64)
    }
}

impl vstd::std_specs::convert::FromSpecImpl<usize> for Decimal {
    open spec fn obeys_from_spec() -> bool {
        true
    }

    open spec fn from_spec(n: usize) -> Decimal {
        finite(integer_view(n as int))
    }
}

} // verus!
