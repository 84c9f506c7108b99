//! Laws of `Decimal`: what holds of every value, or relates several operations.

use crate::decimal;
use crate::decimal::Decimal;
use crate::decimal_codec;
use crate::fixed;
use crate::fixed::FixedDecimal;
use crate::strings;
use vstd::prelude::*;

verus! {

/// Storing a decimal and reading the bytes back gives the same decimal: the tag byte of
/// the stored form is one `unordered_deserialize` accepts, and decoding restores the value.
pub proof fn law_storage_roundtrip(d: Decimal)
    requires
        d.wf(),
    ensures
        decimal_codec::storage_bytes(d)[0] <= 3,
        decimal_codec::from_storage(decimal_codec::storage_bytes(d)) == d,
{
    match d {
        Decimal::Normalized(x) => {
            fixed::lemma_bytes_roundtrip(x@);
            FixedDecimal::lemma_from_own_view(x);
        },
        _ => {},
    }
}

/// Negating twice gives the value back.
pub proof fn law_neg_involution(d: Decimal)
    requires
        d.wf(),
    ensures
        decimal::spec_neg(decimal::spec_neg(d)) == d,
{
    match d {
        Decimal::Normalized(x) => {
            let v = decimal::flipped(x@);
            fixed::FixedDecimal::lemma_from_view(v);
            FixedDecimal::lemma_from_own_view(x);
            assert(decimal::flipped(v) == x@);
        },
        _ => {},
    }
}

/// The absolute value is never negative, and taking it twice changes nothing.
pub proof fn law_abs_nonnegative(d: Decimal)
    requires
        d.wf(),
    ensures
        !(decimal::spec_abs(d) is NegativeInf),
        decimal::spec_abs(d) matches Decimal::Normalized(y) ==> !y@.negative,
        decimal::spec_abs(decimal::spec_abs(d)) == decimal::spec_abs(d),
{
    match d {
        Decimal::Normalized(x) => {
            FixedDecimal::lemma_from_view(decimal::flipped(x@));
        },
        _ => {},
    }
}

/// A value and its negation have the same absolute value.
pub proof fn law_abs_of_neg(d: Decimal)
    requires
        d.wf(),
    ensures
        decimal::spec_abs(decimal::spec_neg(d)) == decimal::spec_abs(d),
{
    match d {
        Decimal::Normalized(x) => {
            let v = decimal::flipped(x@);
            FixedDecimal::lemma_from_view(v);
            FixedDecimal::lemma_from_own_view(x);
            FixedDecimal::lemma_from_view(decimal::flipped(v));
            assert(decimal::flipped(v) == x@);
        },
        _ => {},
    }
}

/// NaN in either operand of any arithmetic operation gives NaN.
pub proof fn law_nan_absorbs(d: Decimal)
    ensures
        decimal::spec_add(Decimal::NaN, d) == Decimal::NaN,
        decimal::spec_add(d, Decimal::NaN) == Decimal::NaN,
        decimal::spec_sub(Decimal::NaN, d) == Decimal::NaN,
        decimal::spec_sub(d, Decimal::NaN) == Decimal::NaN,
        decimal::spec_mul(Decimal::NaN, d) == Decimal::NaN,
        decimal::spec_mul(d, Decimal::NaN) == Decimal::NaN,
        decimal::spec_div(Decimal::NaN, d) == Decimal::NaN,
        decimal::spec_div(d, Decimal::NaN) == Decimal::NaN,
        decimal::spec_rem(Decimal::NaN, d) == Decimal::NaN,
        decimal::spec_rem(d, Decimal::NaN) == Decimal::NaN,
{
}

/// Addition and multiplication are symmetric whenever an operand is NaN or infinite (for
/// two finite operands they are what `rust_decimal` computes).
pub proof fn law_special_commutative(a: Decimal, b: Decimal)
    requires
        !decimal::both_finite(a, b),
    ensures
        decimal::spec_add(a, b) == decimal::spec_add(b, a),
        decimal::spec_mul(a, b) == decimal::spec_mul(b, a),
{
}

/// An infinity minus itself is NaN, and so is an infinity plus its opposite.
pub proof fn law_infinity_cancels()
    ensures
        decimal::spec_sub(Decimal::PositiveInf, Decimal::PositiveInf) == Decimal::NaN,
        decimal::spec_sub(Decimal::NegativeInf, Decimal::NegativeInf) == Decimal::NaN,
        decimal::spec_add(Decimal::PositiveInf, Decimal::NegativeInf) == Decimal::NaN,
{
}

/// Equality is reflexive and symmetric.
pub proof fn law_equality(a: Decimal, b: Decimal)
    ensures
        decimal::same_decimal(a, a),
        decimal::same_decimal(a, b) == decimal::same_decimal(b, a),
{
}

/// The text of NaN or an infinity parses back to the same value.
pub proof fn law_special_text_roundtrip(d: Decimal)
    requires
        !(d is Normalized),
    ensures
        decimal_codec::parsed(decimal_codec::display_text(d)) == Ok::<Decimal, fixed::DecimalError>(d),
{
    reveal_strlit("NaN");
    reveal_strlit("nan");
    reveal_strlit("Infinity");
    reveal_strlit("infinity");
    reveal_strlit("-Infinity");
    reveal_strlit("-infinity");
    reveal_strlit("inf");
    reveal_strlit("+inf");
    reveal_strlit("+infinity");
    reveal_strlit("-inf");
    let t = decimal_codec::display_text(d);
    let l = strings::ascii_lower(t);
    match d {
        Decimal::NaN => {
            assert(l =~= "nan"@);
        },
        Decimal::PositiveInf => {
            assert(l =~= "infinity"@);
            assert(l != "nan"@) by {
                assert(l.len() != "nan"@.len());
            }
        },
        _ => {
            assert(l =~= "-infinity"@);
            assert(l != "nan"@) by {
                assert(l.len() != "nan"@.len());
            }
            assert(!decimal_codec::is_positive_infinity_word(l)) by {
                assert(l[0] == '-');
            }
        },
    }
}

/// An infinity plus or minus a finite number stays that infinity; a finite number minus an
/// infinity is the opposite infinity.
pub proof fn law_infinity_absorbs_finite(x: fixed::FixedView)
    requires
        x.wf(),
    ensures
        decimal::spec_add(Decimal::PositiveInf, decimal::finite(x)) == Decimal::PositiveInf,
        decimal::spec_add(decimal::finite(x), Decimal::PositiveInf) == Decimal::PositiveInf,
        decimal::spec_add(Decimal::NegativeInf, decimal::finite(x)) == Decimal::NegativeInf,
        decimal::spec_add(decimal::finite(x), Decimal::NegativeInf) == Decimal::NegativeInf,
        decimal::spec_sub(Decimal::PositiveInf, decimal::finite(x)) == Decimal::PositiveInf,
        decimal::spec_sub(Decimal::NegativeInf, decimal::finite(x)) == Decimal::NegativeInf,
        decimal::spec_sub(decimal::finite(x), Decimal::PositiveInf) == Decimal::NegativeInf,
        decimal::spec_sub(decimal::finite(x), Decimal::NegativeInf) == Decimal::PositiveInf,
        decimal::spec_add(Decimal::PositiveInf, Decimal::PositiveInf) == Decimal::PositiveInf,
        decimal::spec_sub(Decimal::PositiveInf, Decimal::NegativeInf) == Decimal::PositiveInf,
        decimal::spec_sub(Decimal::NegativeInf, Decimal::PositiveInf) == Decimal::NegativeInf,
{
}

/// An infinity times a non-zero finite number is the infinity whose sign is the product of
/// the signs; times zero it is NaN; two infinities multiply by their signs.
pub proof fn law_infinity_times(x: fixed::FixedView)
    requires
        x.wf(),
    ensures
        x.magnitude != 0 ==> decimal::spec_mul(Decimal::PositiveInf, decimal::finite(x)) == (if x.negative {
            Decimal::NegativeInf
        } else {
            Decimal::PositiveInf
        }),
        x.magnitude != 0 ==> decimal::spec_mul(decimal::finite(x), Decimal::NegativeInf) == (if x.negative {
            Decimal::PositiveInf
        } else {
            Decimal::NegativeInf
        }),
        x.magnitude == 0 ==> decimal::spec_mul(Decimal::PositiveInf, decimal::finite(x)) == Decimal::NaN,
        x.magnitude == 0 ==> decimal::spec_mul(decimal::finite(x), Decimal::NegativeInf) == Decimal::NaN,
        decimal::spec_mul(Decimal::NegativeInf, Decimal::NegativeInf) == Decimal::PositiveInf,
        decimal::spec_mul(Decimal::PositiveInf, Decimal::NegativeInf) == Decimal::NegativeInf,
        decimal::spec_mul(Decimal::PositiveInf, Decimal::PositiveInf) == Decimal::PositiveInf,
{
    FixedDecimal::lemma_from_view(x);
}

/// Dividing by a finite zero: a positive number gives +infinity, a negative one -infinity, a
/// zero NaN; an infinity keeps its sign. A finite number over an infinity is zero; an infinity
/// over an infinity is NaN.
pub proof fn law_division_by_zero_and_infinity(x: fixed::FixedView, z: fixed::FixedView)
    requires
        x.wf(),
        z.wf(),
        z.magnitude == 0,
    ensures
        decimal::spec_div(decimal::finite(x), decimal::finite(z)) == (if x.magnitude == 0 {
            Decimal::NaN
        } else if x.negative {
            Decimal::NegativeInf
        } else {
            Decimal::PositiveInf
        }),
        decimal::spec_div(Decimal::PositiveInf, decimal::finite(z)) == Decimal::PositiveInf,
        decimal::spec_div(Decimal::NegativeInf, decimal::finite(z)) == Decimal::NegativeInf,
        decimal::spec_div(decimal::finite(x), Decimal::PositiveInf) is Normalized,
        decimal::content(decimal::spec_div(decimal::finite(x), Decimal::PositiveInf)).magnitude == 0,
        decimal::content(decimal::spec_div(decimal::finite(x), Decimal::NegativeInf)).magnitude == 0,
        decimal::spec_div(Decimal::PositiveInf, Decimal::NegativeInf) == Decimal::NaN,
        decimal::spec_div(Decimal::NegativeInf, Decimal::NegativeInf) == Decimal::NaN,
{
    FixedDecimal::lemma_from_view(x);
    FixedDecimal::lemma_from_view(z);
    FixedDecimal::lemma_from_view(decimal::zero_view());
}

/// An infinity over a non-zero finite number is the infinity whose sign is the product of
/// the signs.
pub proof fn law_infinity_over_finite(x: fixed::FixedView)
    requires
        x.wf(),
        x.magnitude != 0,
    ensures
        decimal::spec_div(Decimal::PositiveInf, decimal::finite(x)) == (if x.negative {
            Decimal::NegativeInf
        } else {
            Decimal::PositiveInf
        }),
        decimal::spec_div(Decimal::NegativeInf, decimal::finite(x)) == (if x.negative {
            Decimal::PositiveInf
        } else {
            Decimal::NegativeInf
        }),
{
    FixedDecimal::lemma_from_view(x);
}

/// The remainder of a finite number by an infinity is the number itself; by a finite zero,
/// or of an infinity, it is NaN.
pub proof fn law_remainder_cases(x: fixed::FixedView, z: fixed::FixedView)
    requires
        x.wf(),
        z.wf(),
        z.magnitude == 0,
    ensures
        decimal::spec_rem(decimal::finite(x), Decimal::PositiveInf) == decimal::finite(x),
        decimal::spec_rem(decimal::finite(x), Decimal::NegativeInf) == decimal::finite(x),
        decimal::spec_rem(decimal::finite(x), decimal::finite(z)) == Decimal::NaN,
        decimal::spec_rem(Decimal::PositiveInf, decimal::finite(x)) == Decimal::NaN,
        decimal::spec_rem(Decimal::NegativeInf, Decimal::PositiveInf) == Decimal::NaN,
{
    FixedDecimal::lemma_from_view(z);
}

/// Negation flips the sign flag of a finite value and keeps its magnitude and scale; it swaps
/// the infinities.
pub proof fn law_negation_flips_sign(x: fixed::FixedView)
    requires
        x.wf(),
    ensures
        decimal::spec_neg(decimal::finite(x)) is Normalized,
        decimal::content(decimal::spec_neg(decimal::finite(x))).negative == !x.negative,
        decimal::content(decimal::spec_neg(decimal::finite(x))).magnitude == x.magnitude,
        decimal::content(decimal::spec_neg(decimal::finite(x))).scale == x.scale,
        decimal::spec_neg(Decimal::PositiveInf) == Decimal::NegativeInf,
        decimal::spec_neg(Decimal::NegativeInf) == Decimal::PositiveInf,
{
    FixedDecimal::lemma_from_view(x);
    FixedDecimal::lemma_from_view(decimal::flipped(x));
}

/// Parsing ignores ASCII case and reads the special words: `nan` is NaN; `inf`, `+inf`,
/// `infinity`, `+infinity` are +infinity; `-inf`, `-infinity` are -infinity; any other text is
/// read as a number by `rust_decimal` (after lower-casing).
pub proof fn law_parse_special_words(s: Seq<char>)
    ensures
        strings::ascii_lower(s) == seq!['n', 'a', 'n'] ==> decimal_codec::parsed(s) == Ok::<
            Decimal,
            fixed::DecimalError,
        >(Decimal::NaN),
        (strings::ascii_lower(s) == seq!['i', 'n', 'f'] || strings::ascii_lower(s) == seq![
            '+',
            'i',
            'n',
            'f',
        ] || strings::ascii_lower(s) == seq!['i', 'n', 'f', 'i', 'n', 'i', 't', 'y']
            || strings::ascii_lower(s) == seq!['+', 'i', 'n', 'f', 'i', 'n', 'i', 't', 'y'])
            ==> decimal_codec::parsed(s) == Ok::<Decimal, fixed::DecimalError>(Decimal::PositiveInf),
        (strings::ascii_lower(s) == seq!['-', 'i', 'n', 'f'] || strings::ascii_lower(s) == seq![
            '-',
            'i',
            'n',
            'f',
            'i',
            'n',
            'i',
            't',
            'y',
        ]) ==> decimal_codec::parsed(s) == Ok::<Decimal, fixed::DecimalError>(Decimal::NegativeInf),
        !(strings::ascii_lower(s) == seq!['n', 'a', 'n'] || strings::ascii_lower(s) == seq![
            'i',
            'n',
            'f',
        ] || strings::ascii_lower(s) == seq!['+', 'i', 'n', 'f'] || strings::ascii_lower(s)
            == seq!['i', 'n', 'f', 'i', 'n', 'i', 't', 'y'] || strings::ascii_lower(s) == seq![
            '+',
            'i',
            'n',
            'f',
            'i',
            'n',
            'i',
            't',
            'y',
        ] || strings::ascii_lower(s) == seq!['-', 'i', 'n', 'f'] || strings::ascii_lower(s)
            == seq!['-', 'i', 'n', 'f', 'i', 'n', 'i', 't', 'y']) ==> decimal_codec::parsed(s)
            == match fixed::decimal_parse(strings::ascii_lower(s)) {
            Ok(v) => Ok::<Decimal, fixed::DecimalError>(decimal::finite(v)),
            Err(e) => Err(e),
        },
{
    reveal_strlit("nan");
    reveal_strlit("inf");
    reveal_strlit("+inf");
    reveal_strlit("infinity");
    reveal_strlit("+infinity");
    reveal_strlit("-inf");
    reveal_strlit("-infinity");
    assert("nan"@ =~= seq!['n', 'a', 'n']);
    assert("inf"@ =~= seq!['i', 'n', 'f']);
    assert("+inf"@ =~= seq!['+', 'i', 'n', 'f']);
    assert("infinity"@ =~= seq!['i', 'n', 'f', 'i', 'n', 'i', 't', 'y']);
    assert("+infinity"@ =~= seq!['+', 'i', 'n', 'f', 'i', 'n', 'i', 't', 'y']);
    assert("-inf"@ =~= seq!['-', 'i', 'n', 'f']);
    assert("-infinity"@ =~= seq!['-', 'i', 'n', 'f', 'i', 'n', 'i', 't', 'y']);
}

/// ASCII lower-casing maps `A`..=`Z` to `a`..=`z` and keeps every other character, position
/// by position.
pub proof fn law_ascii_lower_per_char(s: Seq<char>, i: int)
    requires
        0 <= i < s.len(),
    ensures
        strings::ascii_lower(s).len() == s.len(),
        ('A' <= s[i] && s[i] <= 'Z') ==> strings::ascii_lower(s)[i] as int == s[i] as int + 32,
        !('A' <= s[i] && s[i] <= 'Z') ==> strings::ascii_lower(s)[i] == s[i],
{
    let c = s[i];
    if 'A' <= c && c <= 'Z' {
        assert(((c as u32) + 32) as char as int == c as int + 32) by {
            assert(c as int <= 90);
        }
    }
}

} // verus!
