//! Decimal encodings: the 16-byte storage form, text (display and parsing), the
//! PostgreSQL binary form, conversion to integers, and precision.

use crate::decimal::{finite, Decimal};
use crate::decimal;
use crate::fixed;
use crate::fixed::{DecimalError, FixedDecimal};
use crate::strings;
use crate::strings::{contains_char, text_equals, to_ascii_lowercase};
use vstd::prelude::*;
use vstd::string::{StrSliceExecFns, StringExecFns};

verus! {

/// 16 bytes: the tag `t`, then zeros.
pub open spec fn tag_bytes(t: u8) -> Seq<u8> {
    seq![t] + Seq::new(15, |i: int| 0u8)
}

/// The storage form: a finite value is `rust_decimal`'s serialization (whose first byte, the
/// low byte of the flags word, is always 0); NaN, +infinity and -infinity are the tags 1, 2, 3.
pub open spec fn storage_bytes(d: Decimal) -> Seq<u8> {
    match d {
        Decimal::Normalized(x) => fixed::serialized_bytes(x@),
        Decimal::NaN => tag_bytes(1),
        Decimal::PositiveInf => tag_bytes(2),
        Decimal::NegativeInf => tag_bytes(3),
    }
}

/// The value stored in 16 bytes whose tag byte is 0..=3.
pub open spec fn from_storage(b: Seq<u8>) -> Decimal {
    if b[0] == 0 {
        finite(fixed::deserialized(b))
    } else if b[0] == 1 {
        Decimal::NaN
    } else if b[0] == 2 {
        Decimal::PositiveInf
    } else {
        Decimal::NegativeInf
    }
}

/// The display text: `rust_decimal`'s for a finite value, `NaN`, `Infinity`, `-Infinity`.
pub open spec fn display_text(d: Decimal) -> Seq<char> {
    match d {
        Decimal::Normalized(x) => fixed::decimal_text(x@),
        Decimal::NaN => "NaN"@,
        Decimal::PositiveInf => "Infinity"@,
        Decimal::NegativeInf => "-Infinity"@,
    }
}

/// The lower-cased words that spell the special values.
pub open spec fn is_nan_word(l: Seq<char>) -> bool {
    l == "nan"@
}

pub open spec fn is_positive_infinity_word(l: Seq<char>) -> bool {
    l == "inf"@ || l == "+inf"@ || l == "infinity"@ || l == "+infinity"@
}

pub open spec fn is_negative_infinity_word(l: Seq<char>) -> bool {
    l == "-inf"@ || l == "-infinity"@
}

/// Parsing: the text is lower-cased (ASCII); the special words give NaN and the infinities;
/// anything else is parsed by `rust_decimal` (from the lower-cased text).
pub open spec fn parsed(s: Seq<char>) -> Result<Decimal, DecimalError> {
    let l = strings::ascii_lower(s);
    if is_nan_word(l) {
        Ok(Decimal::NaN)
    } else if is_positive_infinity_word(l) {
        Ok(Decimal::PositiveInf)
    } else if is_negative_infinity_word(l) {
        Ok(Decimal::NegativeInf)
    } else {
        match fixed::decimal_parse(l) {
            Ok(v) => Ok(finite(v)),
            Err(e) => Err(e),
        }
    }
}

/// The precision reported for a finite value's text: its length (the text is ASCII, so
/// characters and bytes agree), less one for a decimal point and one for a minus sign.
pub open spec fn precision_of(t: Seq<char>) -> u32 {
    (t.len() - (if t.contains('.') { 1int } else { 0 }) - (if t.contains('-') {
        1int
    } else {
        0
    })) as u32
}

/// The PostgreSQL binary `numeric` header of a special value: no digit groups, weight 0,
/// the given sign word, display scale 0 (all big-endian).
pub open spec fn pg_special(sign_hi: u8) -> Seq<u8> {
    seq![0u8, 0u8, 0u8, 0u8, sign_hi, 0u8, 0u8, 0u8]
}

/// The PostgreSQL binary `numeric` form.
pub open spec fn pg_binary(d: Decimal) -> Seq<u8> {
    match d {
        Decimal::Normalized(x) => fixed::decimal_pg_binary(x@),
        Decimal::NaN => pg_special(0xC0),
        Decimal::PositiveInf => pg_special(0xD0),
        Decimal::NegativeInf => pg_special(0xF0),
    }
}

impl Decimal {
    /// The 16-byte storage form.
    pub fn unordered_serialize(&self) -> (r: [u8; 16])
        ensures
            r@ == storage_bytes(*self),
    {
        match self {
            Decimal::Normalized(d) => d.to_bytes(),
            Decimal::NaN => {
                let r = [1u8, 0, 0, 0, 0, 0, 0, 0, 0, 0, 0, 0, 0, 0, 0, 0];
                assert(r@ =~= tag_bytes(1));
                r
            },
            Decimal::PositiveInf => {
                let r = [2u8, 0, 0, 0, 0, 0, 0, 0, 0, 0, 0, 0, 0, 0, 0, 0];
                assert(r@ =~= tag_bytes(2));
                r
            },
            Decimal::NegativeInf => {
                let r = [3u8, 0, 0, 0, 0, 0, 0, 0, 0, 0, 0, 0, 0, 0, 0, 0];
                assert(r@ =~= tag_bytes(3));
                r
            },
        }
    }

    /// The value stored in 16 bytes; the tag byte must be one of the four this form writes.
    pub fn unordered_deserialize(bytes: [u8; 16]) -> (r: Decimal)
        requires
            bytes[0] <= 3,
        ensures
            r == from_storage(bytes@),
            r.wf(),
    {
        match bytes[0] {
            0u8 => {
                let v = fixed::from_bytes(bytes);
                proof {
                    FixedDecimal::lemma_from_own_view(v);
                }
                Decimal::Normalized(v)
            },
            1u8 => Decimal::NaN,
            2u8 => Decimal::PositiveInf,
            _ => Decimal::NegativeInf,
        }
    }

    /// The display text.
    pub fn to_text(&self) -> (r: String)
        ensures
            r@ == display_text(*self),
    {
        match self {
            Decimal::Normalized(d) => {
                proof {
                    use_type_invariant(d);
                    FixedDecimal::lemma_magnitude_bound(*d);
                }
                fixed::display_text(*d)
            },
            Decimal::NaN => String::from_str("NaN"),
            Decimal::PositiveInf => String::from_str("Infinity"),
            Decimal::NegativeInf => String::from_str("-Infinity"),
        }
    }

    /// Parses a decimal: `nan`, `inf`, `+inf`, `infinity`, `+infinity`, `-inf`, `-infinity`
    /// in any ASCII case, or a number `rust_decimal` accepts.
    pub fn from_str(s: &str) -> (r: Result<Decimal, DecimalError>)
        ensures
            r == parsed(s@),
            r matches Ok(d) ==> d.wf(),
    {
        let lower = to_ascii_lowercase(s);
        let l = lower.as_str();
        if text_equals(l, "nan") {
            Ok(Decimal::NaN)
        } else if text_equals(l, "inf") || text_equals(l, "+inf") || text_equals(l, "infinity")
            || text_equals(l, "+infinity") {
            Ok(Decimal::PositiveInf)
        } else if text_equals(l, "-inf") || text_equals(l, "-infinity") {
            Ok(Decimal::NegativeInf)
        } else {
            match fixed::parse_text(l) {
                Ok(v) => {
                    proof {
                        FixedDecimal::lemma_from_own_view(v);
                    }
                    Ok(Decimal::Normalized(v))
                },
                Err(e) => Err(e),
            }
        }
    }

    /// Parses scientific notation such as `1.5e3` with `rust_decimal`; `None` if it fails.
    pub fn from_scientific(value: &str) -> (r: Option<Decimal>)
        ensures
            r == decimal::finite_option(fixed::decimal_parse_scientific(value@)),
            r matches Some(d) ==> d.wf(),
    {
        match fixed::parse_scientific(value) {
            Some(v) => {
                proof {
                    FixedDecimal::lemma_from_own_view(v);
                }
                Some(Decimal::Normalized(v))
            },
            None => None,
        }
    }

    /// The number of digits of a finite value's text; 0 for NaN and the infinities.
    pub fn precision(&self) -> (r: u32)
        ensures
            r == (match *self {
                Decimal::Normalized(x) => precision_of(fixed::decimal_text(x@)),
                _ => 0,
            }),
    {
        match self {
            Decimal::Normalized(d) => {
                proof {
                    use_type_invariant(d);
                    FixedDecimal::lemma_magnitude_bound(*d);
                }
                let s = fixed::display_text(*d);
                let t = s.as_str();
                let mut res = t.unicode_len();
                let has_point = contains_char(t, '.');
                let has_minus = contains_char(t, '-');
                proof {
                    if has_point && has_minus {
                        strings::lemma_two_chars(t@, '.', '-');
                    }
                    if has_point || has_minus {
                        assert(t@.len() >= 1);
                    }
                }
                if has_point {
                    res = res - 1;
                }
                if has_minus {
                    res = res - 1;
                }
                res as u32
            },
            _ => 0,
        }
    }

    /// The number truncated toward zero as `i64`; `ConversionTo("i64")` when it does not fit,
    /// `ConversionTo("")` for NaN and the infinities.
    pub fn try_into_i64(&self) -> (r: Result<i64, DecimalError>)
        ensures
            match *self {
                Decimal::Normalized(x) => if i64::MIN <= x@.truncated() <= i64::MAX {
                    r == Ok::<i64, DecimalError>(x@.truncated() as i64)
                } else {
                    r matches Err(DecimalError::ConversionTo(m)) && m@ == "i64"@
                },
                _ => r matches Err(DecimalError::ConversionTo(m)) && m@ == ""@,
            },
    {
        match self {
            Decimal::Normalized(d) => {
                proof {
                    use_type_invariant(d);
                    FixedDecimal::lemma_magnitude_bound(*d);
                }
                match fixed::truncated_i64(*d) {
                    Some(v) => Ok(v),
                    None => Err(DecimalError::ConversionTo(String::from_str("i64"))),
                }
            },
            _ => Err(DecimalError::ConversionTo(String::from_str(""))),
        }
    }

    /// The number truncated toward zero as `i32`; `ConversionTo("i32")` when it does not fit,
    /// `ConversionTo("")` for NaN and the infinities.
    pub fn try_into_i32(&self) -> (r: Result<i32, DecimalError>)
        ensures
            match *self {
                Decimal::Normalized(x) => if i32::MIN <= x@.truncated() <= i32::MAX {
                    r == Ok::<i32, DecimalError>(x@.truncated() as i32)
                } else {
                    r matches Err(DecimalError::ConversionTo(m)) && m@ == "i32"@
                },
                _ => r matches Err(DecimalError::ConversionTo(m)) && m@ == ""@,
            },
    {
        match self {
            Decimal::Normalized(d) => {
                proof {
                    use_type_invariant(d);
                    FixedDecimal::lemma_magnitude_bound(*d);
                }
                match fixed::truncated_i32(*d) {
                    Some(v) => Ok(v),
                    None => Err(DecimalError::ConversionTo(String::from_str("i32"))),
                }
            },
            _ => Err(DecimalError::ConversionTo(String::from_str(""))),
        }
    }

    /// The number truncated toward zero as `i16`; `ConversionTo("i16")` when it does not fit,
    /// `ConversionTo("")` for NaN and the infinities.
    pub fn try_into_i16(&self) -> (r: Result<i16, DecimalError>)
        ensures
            match *self {
                Decimal::Normalized(x) => if i16::MIN <= x@.truncated() <= i16::MAX {
                    r == Ok::<i16, DecimalError>(x@.truncated() as i16)
                } else {
                    r matches Err(DecimalError::ConversionTo(m)) && m@ == "i16"@
                },
                _ => r matches Err(DecimalError::ConversionTo(m)) && m@ == ""@,
            },
    {
        match self {
            Decimal::Normalized(d) => {
                proof {
                    use_type_invariant(d);
                    FixedDecimal::lemma_magnitude_bound(*d);
                }
                match fixed::truncated_i16(*d) {
                    Some(v) => Ok(v),
                    None => Err(DecimalError::ConversionTo(String::from_str("i16"))),
                }
            },
            _ => Err(DecimalError::ConversionTo(String::from_str(""))),
        }
    }

    /// The PostgreSQL binary `numeric` form.
    pub fn to_binary(&self) -> (r: Vec<u8>)
        ensures
            r@ == pg_binary(*self),
    {
        match self {
            Decimal::Normalized(d) => {
                proof {
                    use_type_invariant(d);
                    FixedDecimal::lemma_magnitude_bound(*d);
                }
                fixed::pg_binary(*d)
            },
            Decimal::NaN => {
                let r = vec![0u8, 0, 0, 0, 0xC0, 0, 0, 0];
                assert(r@ =~= pg_special(0xC0));
                r
            },
            Decimal::PositiveInf => {
                let r = vec![0u8, 0, 0, 0, 0xD0, 0, 0, 0];
                assert(r@ =~= pg_special(0xD0));
                r
            },
            Decimal::NegativeInf => {
                let r = vec![0u8, 0, 0, 0, 0xF0, 0, 0, 0];
                assert(r@ =~= pg_special(0xF0));
                r
            },
        }
    }
}

} // verus!
