//! `FixedDecimal`: a finite decimal number in the 96-bit representation used by
//! `rust_decimal`, together with the calls into that crate that compute on it.

use postgres_types::ToSql;
use rust_decimal::Error as RustDecimalError;
use vstd::prelude::*;

verus! {

/// Largest scale (number of fractional digits) a finite decimal can carry.
pub const MAX_SCALE: u32 = 28;

/// 2^32, the weight of the middle limb of the mantissa.
pub open spec fn limb() -> nat {
    0x1_0000_0000nat
}

/// 10^n.
pub open spec fn pow10(n: nat) -> nat
    decreases n,
{
    if n == 0 {
        1
    } else {
        10 * pow10((n - 1) as nat)
    }
}

/// The mathematical content of a `FixedDecimal`: sign flag, 96-bit magnitude and scale.
/// The number denoted is `(-1)^negative * magnitude / 10^scale`.
pub ghost struct FixedView {
    pub negative: bool,
    pub magnitude: nat,
    pub scale: nat,
}

impl FixedView {
    /// Every value `rust_decimal` can hold.
    pub open spec fn wf(self) -> bool {
        &&& self.magnitude < limb() * limb() * limb()
        &&& self.scale <= MAX_SCALE
    }

    pub open spec fn is_zero(self) -> bool {
        self.magnitude == 0
    }

    /// The mantissa with its sign.
    pub open spec fn signed_mantissa(self) -> int {
        if self.negative {
            -(self.magnitude as int)
        } else {
            self.magnitude as int
        }
    }

    /// The number scaled by 10^28: two values denote the same number iff these agree.
    pub open spec fn scaled_value(self) -> int {
        self.signed_mantissa() * pow10((MAX_SCALE - self.scale) as nat)
    }

    /// The number rounded toward zero to an integer.
    pub open spec fn truncated(self) -> int {
        if self.negative {
            -((self.magnitude / pow10(self.scale)) as int)
        } else {
            (self.magnitude / pow10(self.scale)) as int
        }
    }
}

/// A finite decimal: sign, 96-bit magnitude split into three 32-bit limbs, and scale.
#[derive(Clone, Copy, Debug)]
pub struct FixedDecimal {
    lo: u32,
    mid: u32,
    hi: u32,
    negative: bool,
    scale: u32,
}

impl View for FixedDecimal {
    type V = FixedView;

    closed spec fn view(&self) -> FixedView {
        FixedView {
            negative: self.negative,
            magnitude: self.lo as nat + self.mid as nat * limb() + self.hi as nat * limb() * limb(),
            scale: self.scale as nat,
        }
    }
}

/// The limbs of a magnitude below 2^96.
pub open spec fn low_limb(m: nat) -> u32 {
    (m % limb()) as u32
}

pub open spec fn mid_limb(m: nat) -> u32 {
    ((m / limb()) % limb()) as u32
}

pub open spec fn high_limb(m: nat) -> u32 {
    (m / (limb() * limb())) as u32
}

impl FixedDecimal {
    pub open spec fn wf(self) -> bool {
        self@.wf()
    }

    /// Every `FixedDecimal` has a scale of at most 28, as every `rust_decimal` value does.
    #[verifier::type_invariant]
    pub closed spec fn scale_in_range(self) -> bool {
        self.scale <= MAX_SCALE
    }

    /// Three 32-bit limbs hold a magnitude below 2^96; with the type invariant
    /// (`use_type_invariant`) this makes any exec value well formed.
    pub proof fn lemma_magnitude_bound(a: FixedDecimal)
        ensures
            a@.magnitude < limb() * limb() * limb(),
            a.scale_in_range() ==> a.wf(),
    {
        lemma_limbs_bound(a.lo, a.mid, a.hi);
    }

    /// The value whose content is `v`.
    pub closed spec fn from_view(v: FixedView) -> FixedDecimal {
        FixedDecimal {
            lo: low_limb(v.magnitude),
            mid: mid_limb(v.magnitude),
            hi: high_limb(v.magnitude),
            negative: v.negative,
            scale: v.scale as u32,
        }
    }

    /// `from_view` inverts the view on well-formed contents.
    pub proof fn lemma_from_view(v: FixedView)
        requires
            v.wf(),
        ensures
            FixedDecimal::from_view(v)@ == v,
            FixedDecimal::from_view(v).wf(),
    {
        let m = v.magnitude as int;
        let l = limb() as int;
        let q1 = m / l;
        let r1 = m % l;
        let q2 = q1 / l;
        let r2 = q1 % l;
        vstd::arithmetic::div_mod::lemma_fundamental_div_mod(m, l);
        vstd::arithmetic::div_mod::lemma_fundamental_div_mod(q1, l);
        vstd::arithmetic::div_mod::lemma_div_pos_is_pos(m, l);
        vstd::arithmetic::div_mod::lemma_div_denominator(m, l, l);
        assert(m == r1 + r2 * l + q2 * l * l) by (nonlinear_arith)
            requires
                m == l * q1 + r1,
                q1 == l * q2 + r2,
        ;
        vstd::arithmetic::div_mod::lemma_multiply_divide_lt(m, l * l, l);
        assert(q2 == m / (l * l));
        assert(q2 < l);
    }

    /// A value is rebuilt from its own content.
    pub proof fn lemma_from_own_view(a: FixedDecimal)
        ensures
            FixedDecimal::from_view(a@) == a,
    {
        lemma_limbs(a.lo, a.mid, a.hi);
    }
}

/// Three 32-bit limbs make a magnitude below 2^96.
proof fn lemma_limbs_bound(lo: u32, mid: u32, hi: u32)
    ensures
        lo as nat + mid as nat * limb() + hi as nat * limb() * limb() < limb() * limb() * limb(),
{
    let l = limb() as int;
    assert(lo as int + mid as int * l + hi as int * l * l < l * l * l) by (nonlinear_arith)
        requires 0 <= lo < l, 0 <= mid < l, 0 <= hi < l;
}

/// Splitting `lo + mid * 2^32 + hi * 2^64` back into its limbs.
proof fn lemma_limbs(lo: u32, mid: u32, hi: u32)
    ensures
        ({
            let m = lo as nat + mid as nat * limb() + hi as nat * limb() * limb();
            low_limb(m) == lo && mid_limb(m) == mid && high_limb(m) == hi
        }),
{
    let l = limb() as int;
    let m = lo as int + mid as int * l + hi as int * l * l;
    assert(m == (mid as int + hi as int * l) * l + lo as int) by (nonlinear_arith)
        requires m == lo as int + mid as int * l + hi as int * l * l;
    vstd::arithmetic::div_mod::lemma_fundamental_div_mod_converse(m, l, mid as int + hi as int * l, lo as int);
    vstd::arithmetic::div_mod::lemma_fundamental_div_mod_converse(mid as int + hi as int * l, l, hi as int, mid as int);
    assert(m == hi as int * (l * l) + (lo as int + mid as int * l)) by (nonlinear_arith)
        requires m == lo as int + mid as int * l + hi as int * l * l;
    assert(lo as int + mid as int * l < l * l) by (nonlinear_arith)
        requires lo < l, mid < l, 0 <= lo, 0 <= mid;
    vstd::arithmetic::div_mod::lemma_fundamental_div_mod_converse(m, l * l, hi as int, lo as int + mid as int * l);
}


/// The four bytes of a 32-bit limb, little-endian.
pub open spec fn limb_bytes(x: u32) -> Seq<u8> {
    seq![(x & 0xff) as u8, ((x >> 8) & 0xff) as u8, ((x >> 16) & 0xff) as u8, ((x >> 24) & 0xff) as u8]
}

/// The little-endian 32-bit number stored at `b[i..i + 4]`.
pub open spec fn le_u32(b: Seq<u8>, i: int) -> nat {
    b[i] as nat + b[i + 1] as nat * 0x100 + b[i + 2] as nat * 0x1_0000 + b[i + 3] as nat * 0x100_0000
}

/// The 16-byte layout `rust_decimal` serializes to: the flags word (scale in byte 2,
/// sign in the top bit of byte 3), then the low, middle and high limbs, little-endian.
pub open spec fn serialized_bytes(v: FixedView) -> Seq<u8> {
    seq![0u8, 0u8, v.scale as u8, if v.negative { 0x80u8 } else { 0u8 }]
        + limb_bytes(low_limb(v.magnitude)) + limb_bytes(mid_limb(v.magnitude))
        + limb_bytes(high_limb(v.magnitude))
}

/// The scale field of a serialized flags word.
pub open spec fn bytes_scale(b: Seq<u8>) -> u8 {
    b[2] & 0x1f
}

/// The content of 16 serialized bytes whose scale field is at most 28.
pub open spec fn bytes_content(b: Seq<u8>) -> FixedView {
    FixedView {
        negative: b[3] & 0x80 != 0,
        magnitude: le_u32(b, 4) + le_u32(b, 8) * limb() + le_u32(b, 12) * limb() * limb(),
        scale: bytes_scale(b) as nat,
    }
}

/// A value with no trailing zero in its mantissa (unless it is an integer) and no
/// negative zero: the unique representation of its number.
pub open spec fn is_normal_form(v: FixedView) -> bool {
    &&& (v.magnitude % 10 != 0 || v.scale == 0)
    &&& (v.magnitude == 0 ==> !v.negative)
}

/// Errors reported by `rust_decimal` when it parses or converts.
#[derive(Debug)]
pub enum DecimalError {
    ErrorString(String),
    ExceedsMaximumPossibleValue,
    LessThanMinimumPossibleValue,
    Underflow,
    ScaleExceedsMaximumPrecision(u32),
    ConversionTo(String),
}

/// The content of a parse outcome.
pub open spec fn outcome_view(r: Result<FixedDecimal, DecimalError>) -> Result<FixedView, DecimalError> {
    match r {
        Ok(v) => Ok(v@),
        Err(e) => Err(e),
    }
}

/// Name for what `rust_decimal::Decimal::checked_add` returns.
pub uninterp spec fn decimal_sum(a: FixedView, b: FixedView) -> Option<FixedView>;

/// Name for what `rust_decimal::Decimal::checked_sub` returns.
pub uninterp spec fn decimal_difference(a: FixedView, b: FixedView) -> Option<FixedView>;

/// Name for what `rust_decimal::Decimal::checked_mul` returns.
pub uninterp spec fn decimal_product(a: FixedView, b: FixedView) -> Option<FixedView>;

/// Name for what `rust_decimal::Decimal::checked_div` returns.
pub uninterp spec fn decimal_quotient(a: FixedView, b: FixedView) -> Option<FixedView>;

/// Name for what `rust_decimal::Decimal::checked_rem` returns.
pub uninterp spec fn decimal_remainder(a: FixedView, b: FixedView) -> Option<FixedView>;

/// What `rust_decimal::Decimal::round_dp_with_strategy` returns with
/// `RoundingStrategy::MidpointAwayFromZero`: a value with at most `dp` fractional digits as it
/// is; a zero at scale `dp`, sign flag kept; otherwise the mantissa divided by 10^(scale - dp),
/// plus one when the dropped digits are at least half a unit, at scale `dp` (a zero result
/// is not negative).
pub open spec fn decimal_round_half_away(a: FixedView, dp: u32) -> FixedView {
    if a.scale <= dp {
        a
    } else if a.magnitude == 0 {
        FixedView { negative: a.negative, magnitude: 0, scale: dp as nat }
    } else {
        let d = (a.scale - dp) as nat;
        let q = a.magnitude / pow10(d);
        let rest = a.magnitude % pow10(d);
        let m = if rest >= 5 * pow10((d - 1) as nat) { q + 1 } else { q };
        FixedView { negative: a.negative && m != 0, magnitude: m, scale: dp as nat }
    }
}

/// What `rust_decimal::Decimal::round` (midpoints to even) returns: a value of scale 0 as it
/// is; a zero at scale 0, sign flag kept; otherwise the integer part, plus one when the
/// fraction is above one half, or exactly one half and the integer part is odd, at scale 0 (a
/// zero result is not negative).
pub open spec fn decimal_round_half_even(a: FixedView) -> FixedView {
    if a.scale == 0 {
        a
    } else if a.magnitude == 0 {
        FixedView { negative: a.negative, magnitude: 0, scale: 0 }
    } else {
        let q = a.magnitude / pow10(a.scale);
        let rest = a.magnitude % pow10(a.scale);
        let half = 5 * pow10((a.scale - 1) as nat);
        let m = if rest > half || (rest == half && q % 2 == 1) { q + 1 } else { q };
        FixedView { negative: a.negative && m != 0, magnitude: m, scale: 0 }
    }
}

/// What `rust_decimal::Decimal::ceil` returns: a value of scale 0 as it is; otherwise the
/// integer part at scale 0, one more when a positive value had a fraction, sign flag kept.
pub open spec fn decimal_ceil(a: FixedView) -> FixedView {
    if a.scale == 0 {
        a
    } else {
        let q = a.magnitude / pow10(a.scale);
        let fraction = a.magnitude % pow10(a.scale) != 0;
        FixedView {
            negative: a.negative,
            magnitude: if !a.negative && fraction { q + 1 } else { q },
            scale: 0,
        }
    }
}

/// What `rust_decimal::Decimal::floor` returns: a value of scale 0 as it is; otherwise the
/// integer part at scale 0, one more in magnitude when a negative value had a fraction, sign
/// flag kept.
pub open spec fn decimal_floor(a: FixedView) -> FixedView {
    if a.scale == 0 {
        a
    } else {
        let q = a.magnitude / pow10(a.scale);
        let fraction = a.magnitude % pow10(a.scale) != 0;
        FixedView {
            negative: a.negative,
            magnitude: if a.negative && fraction { q + 1 } else { q },
            scale: 0,
        }
    }
}

/// The decimal digits of a magnitude, most significant first, left-padded with zeros to at
/// least `width` digits (no digits at all for zero and width 0).
pub open spec fn padded_digits(m: nat, width: nat) -> Seq<char> {
    let d = if m == 0 {
        Seq::<char>::empty()
    } else {
        crate::strings::nat_text(m)
    };
    if d.len() >= width {
        d
    } else {
        Seq::new((width - d.len()) as nat, |i: int| '0') + d
    }
}

/// The text `rust_decimal::Decimal`'s `Display` writes: `-` when the sign flag is set, then
/// the digits of the magnitude (padded with zeros to at least `scale` digits) with a `.`
/// before the last `scale` of them and `0` for an empty integer part; `0` for a zero of
/// scale 0.
pub open spec fn decimal_text(a: FixedView) -> Seq<char> {
    let d = padded_digits(a.magnitude, a.scale);
    let body = if a.scale == 0 {
        if d.len() == 0 {
            seq!['0']
        } else {
            d
        }
    } else {
        let w = d.len() - a.scale;
        (if w == 0 {
            seq!['0']
        } else {
            d.take(w)
        }) + seq!['.'] + d.skip(w)
    };
    if a.negative {
        seq!['-'] + body
    } else {
        body
    }
}

/// Name for what `<rust_decimal::Decimal as FromStr>::from_str` returns.
pub uninterp spec fn decimal_parse(s: Seq<char>) -> Result<FixedView, DecimalError>;

/// Name for what `rust_decimal::Decimal::from_scientific` returns, errors dropped.
pub uninterp spec fn decimal_parse_scientific(s: Seq<char>) -> Option<FixedView>;

/// What `rust_decimal::Decimal::deserialize` returns when the scale field of the bytes is
/// above 28: the mantissa divided by 10^(scale - 28), plus one when the remainder is at least
/// 5, at scale 28, with the sign flag of the bytes.
pub open spec fn decimal_from_bytes(b: Seq<u8>) -> FixedView {
    let c = bytes_content(b);
    let p = pow10((c.scale - MAX_SCALE) as nat);
    let q = c.magnitude / p;
    FixedView {
        negative: c.negative,
        magnitude: if c.magnitude % p >= 5 { q + 1 } else { q },
        scale: MAX_SCALE as nat,
    }
}

/// Name for the bytes `rust_decimal::Decimal`'s `postgres_types::ToSql::to_sql` writes
/// (PostgreSQL binary `numeric`).
pub uninterp spec fn decimal_pg_binary(a: FixedView) -> Seq<u8>;

/// Calls `rust_decimal::Decimal::checked_add`: the sum (rounded when it has too many
/// digits), or `None` on overflow. Claimed: the result is `decimal_sum` of the arguments.
#[verifier::external_body]
pub(crate) fn checked_sum(a: FixedDecimal, b: FixedDecimal) -> (r: Option<FixedDecimal>)
    requires
        a.wf(),
        b.wf(),
    ensures
        r matches Some(v) ==> v.wf() && decimal_sum(a@, b@) == Some(v@),
        r is None <==> decimal_sum(a@, b@) is None,
{
    let mut x = rust_decimal::Decimal::from_parts(a.lo, a.mid, a.hi, a.negative, a.scale);
    x.set_sign_negative(a.negative);
    let mut y = rust_decimal::Decimal::from_parts(b.lo, b.mid, b.hi, b.negative, b.scale);
    y.set_sign_negative(b.negative);
    match x.checked_add(y) {
        Some(r) => {
            let u = r.unpack();
            Some(FixedDecimal { lo: u.lo, mid: u.mid, hi: u.hi, negative: u.negative, scale: u.scale })
        },
        None => None,
    }
}

/// Calls `rust_decimal::Decimal::checked_sub`: the difference (rounded when it has too many digits), or `None` on overflow.
/// Claimed: the result is `decimal_difference` of the arguments.
#[verifier::external_body]
pub(crate) fn checked_difference(a: FixedDecimal, b: FixedDecimal) -> (r: Option<FixedDecimal>)
    requires
        a.wf(),
        b.wf(),
    ensures
        r matches Some(v) ==> v.wf() && decimal_difference(a@, b@) == Some(v@),
        r is None <==> decimal_difference(a@, b@) is None,
{
    let mut x = rust_decimal::Decimal::from_parts(a.lo, a.mid, a.hi, a.negative, a.scale);
    x.set_sign_negative(a.negative);
    let mut y = rust_decimal::Decimal::from_parts(b.lo, b.mid, b.hi, b.negative, b.scale);
    y.set_sign_negative(b.negative);
    match x.checked_sub(y) {
        Some(r) => {
            let u = r.unpack();
            Some(FixedDecimal { lo: u.lo, mid: u.mid, hi: u.hi, negative: u.negative, scale: u.scale })
        },
        None => None,
    }
}

/// Calls `rust_decimal::Decimal::checked_mul`: the product (rounded when it has too many digits), or `None` on overflow.
/// Claimed: the result is `decimal_product` of the arguments.
#[verifier::external_body]
pub(crate) fn checked_product(a: FixedDecimal, b: FixedDecimal) -> (r: Option<FixedDecimal>)
    requires
        a.wf(),
        b.wf(),
    ensures
        r matches Some(v) ==> v.wf() && decimal_product(a@, b@) == Some(v@),
        r is None <==> decimal_product(a@, b@) is None,
{
    let mut x = rust_decimal::Decimal::from_parts(a.lo, a.mid, a.hi, a.negative, a.scale);
    x.set_sign_negative(a.negative);
    let mut y = rust_decimal::Decimal::from_parts(b.lo, b.mid, b.hi, b.negative, b.scale);
    y.set_sign_negative(b.negative);
    match x.checked_mul(y) {
        Some(r) => {
            let u = r.unpack();
            Some(FixedDecimal { lo: u.lo, mid: u.mid, hi: u.hi, negative: u.negative, scale: u.scale })
        },
        None => None,
    }
}

/// Calls `rust_decimal::Decimal::checked_div`: the quotient (rounded to the digits that fit), or `None` on overflow or a zero divisor.
/// Claimed: the result is `decimal_quotient` of the arguments.
#[verifier::external_body]
pub(crate) fn checked_quotient(a: FixedDecimal, b: FixedDecimal) -> (r: Option<FixedDecimal>)
    requires
        a.wf(),
        b.wf(),
    ensures
        r matches Some(v) ==> v.wf() && decimal_quotient(a@, b@) == Some(v@),
        r is None <==> decimal_quotient(a@, b@) is None,
{
    let mut x = rust_decimal::Decimal::from_parts(a.lo, a.mid, a.hi, a.negative, a.scale);
    x.set_sign_negative(a.negative);
    let mut y = rust_decimal::Decimal::from_parts(b.lo, b.mid, b.hi, b.negative, b.scale);
    y.set_sign_negative(b.negative);
    match x.checked_div(y) {
        Some(r) => {
            let u = r.unpack();
            Some(FixedDecimal { lo: u.lo, mid: u.mid, hi: u.hi, negative: u.negative, scale: u.scale })
        },
        None => None,
    }
}

/// Calls `rust_decimal::Decimal::checked_rem`: the remainder, or `None` on overflow or a zero divisor.
/// Claimed: the result is `decimal_remainder` of the arguments.
#[verifier::external_body]
pub(crate) fn checked_remainder(a: FixedDecimal, b: FixedDecimal) -> (r: Option<FixedDecimal>)
    requires
        a.wf(),
        b.wf(),
    ensures
        r matches Some(v) ==> v.wf() && decimal_remainder(a@, b@) == Some(v@),
        r is None <==> decimal_remainder(a@, b@) is None,
{
    let mut x = rust_decimal::Decimal::from_parts(a.lo, a.mid, a.hi, a.negative, a.scale);
    x.set_sign_negative(a.negative);
    let mut y = rust_decimal::Decimal::from_parts(b.lo, b.mid, b.hi, b.negative, b.scale);
    y.set_sign_negative(b.negative);
    match x.checked_rem(y) {
        Some(r) => {
            let u = r.unpack();
            Some(FixedDecimal { lo: u.lo, mid: u.mid, hi: u.hi, negative: u.negative, scale: u.scale })
        },
        None => None,
    }
}

/// Calls `rust_decimal::Decimal::round_dp_with_strategy` with midpoints rounded away
/// from zero. Claimed: the result is `decimal_round_half_away` of the value and `dp`.
#[verifier::external_body]
pub(crate) fn rounded_half_away(a: FixedDecimal, dp: u32) -> (r: FixedDecimal)
    requires
        a.wf(),
    ensures
        r.wf(),
        r@ == decimal_round_half_away(a@, dp),
{
    let mut x = rust_decimal::Decimal::from_parts(a.lo, a.mid, a.hi, a.negative, a.scale);
    x.set_sign_negative(a.negative);
    let u = x.round_dp_with_strategy(dp, rust_decimal::RoundingStrategy::MidpointAwayFromZero).unpack();
    FixedDecimal { lo: u.lo, mid: u.mid, hi: u.hi, negative: u.negative, scale: u.scale }
}

/// Calls `rust_decimal::Decimal::round` (midpoints to even, to an integer). Claimed: the
/// result is `decimal_round_half_even` of the value.
#[verifier::external_body]
pub(crate) fn rounded_half_even(a: FixedDecimal) -> (r: FixedDecimal)
    requires
        a.wf(),
    ensures
        r.wf(),
        r@ == decimal_round_half_even(a@),
{
    let mut x = rust_decimal::Decimal::from_parts(a.lo, a.mid, a.hi, a.negative, a.scale);
    x.set_sign_negative(a.negative);
    let u = x.round().unpack();
    FixedDecimal { lo: u.lo, mid: u.mid, hi: u.hi, negative: u.negative, scale: u.scale }
}

/// Calls `rust_decimal::Decimal::ceil`, which truncates to scale 0 and adds one to a positive
/// value that had a fraction. Claimed: the result is `decimal_ceil` of the value.
#[verifier::external_body]
pub(crate) fn ceiling(a: FixedDecimal) -> (r: FixedDecimal)
    requires
        a.wf(),
    ensures
        r.wf(),
        r@ == decimal_ceil(a@),
{
    let mut x = rust_decimal::Decimal::from_parts(a.lo, a.mid, a.hi, a.negative, a.scale);
    x.set_sign_negative(a.negative);
    let u = x.ceil().unpack();
    FixedDecimal { lo: u.lo, mid: u.mid, hi: u.hi, negative: u.negative, scale: u.scale }
}

/// Calls `rust_decimal::Decimal::floor`, which truncates to scale 0 and subtracts one from a
/// negative value that had a fraction. Claimed: the result is `decimal_floor` of the value.
#[verifier::external_body]
pub(crate) fn flooring(a: FixedDecimal) -> (r: FixedDecimal)
    requires
        a.wf(),
    ensures
        r.wf(),
        r@ == decimal_floor(a@),
{
    let mut x = rust_decimal::Decimal::from_parts(a.lo, a.mid, a.hi, a.negative, a.scale);
    x.set_sign_negative(a.negative);
    let u = x.floor().unpack();
    FixedDecimal { lo: u.lo, mid: u.mid, hi: u.hi, negative: u.negative, scale: u.scale }
}

/// Calls `rust_decimal::Decimal::normalize`, which strips trailing zeros from the mantissa
/// and turns -0 into 0. Claimed: the number is unchanged, the result is in normal form, and
/// a non-zero value keeps its sign.
#[verifier::external_body]
pub(crate) fn normalized(a: FixedDecimal) -> (r: FixedDecimal)
    requires
        a.wf(),
    ensures
        r.wf(),
        r@.scaled_value() == a@.scaled_value(),
        is_normal_form(r@),
        !a@.is_zero() ==> r@.negative == a@.negative,
{
    let mut x = rust_decimal::Decimal::from_parts(a.lo, a.mid, a.hi, a.negative, a.scale);
    x.set_sign_negative(a.negative);
    let u = x.normalize().unpack();
    FixedDecimal { lo: u.lo, mid: u.mid, hi: u.hi, negative: u.negative, scale: u.scale }
}

/// Calls `<rust_decimal::Decimal as PartialEq>::eq`, which compares numbers (so 1.0 equals
/// 1.00 and -0 equals 0). Claimed: exactly that.
#[verifier::external_body]
pub(crate) fn same_number(a: FixedDecimal, b: FixedDecimal) -> (r: bool)
    requires
        a.wf(),
        b.wf(),
    ensures
        r == (a@.scaled_value() == b@.scaled_value()),
{
    let mut x = rust_decimal::Decimal::from_parts(a.lo, a.mid, a.hi, a.negative, a.scale);
    x.set_sign_negative(a.negative);
    let mut y = rust_decimal::Decimal::from_parts(b.lo, b.mid, b.hi, b.negative, b.scale);
    y.set_sign_negative(b.negative);
    x == y
}

/// Calls `<rust_decimal::Decimal as Ord>::cmp`, which orders numbers by value (so -0 and 0
/// are equal, and 1.0 equals 1.00). Claimed: exactly that.
#[verifier::external_body]
pub(crate) fn number_order(a: FixedDecimal, b: FixedDecimal) -> (r: std::cmp::Ordering)
    requires
        a.wf(),
        b.wf(),
    ensures
        r == (if a@.scaled_value() < b@.scaled_value() {
            std::cmp::Ordering::Less
        } else if a@.scaled_value() == b@.scaled_value() {
            std::cmp::Ordering::Equal
        } else {
            std::cmp::Ordering::Greater
        }),
{
    let mut x = rust_decimal::Decimal::from_parts(a.lo, a.mid, a.hi, a.negative, a.scale);
    x.set_sign_negative(a.negative);
    let mut y = rust_decimal::Decimal::from_parts(b.lo, b.mid, b.hi, b.negative, b.scale);
    y.set_sign_negative(b.negative);
    x.cmp(&y)
}

/// Calls `rust_decimal::Decimal`'s `Display` (through `to_string`), which writes digits, at
/// most one `.` and a leading `-` for a negative sign. Claimed: the text is `decimal_text`
/// of the value, and is ASCII.
#[verifier::external_body]
pub(crate) fn display_text(a: FixedDecimal) -> (r: String)
    requires
        a.wf(),
    ensures
        r@ == decimal_text(a@),
        vstd::utf8::is_ascii_chars(r@),
{
    let mut x = rust_decimal::Decimal::from_parts(a.lo, a.mid, a.hi, a.negative, a.scale);
    x.set_sign_negative(a.negative);
    x.to_string()
}

/// Calls `<rust_decimal::Decimal as FromStr>::from_str` and carries its error over
/// variant by variant. Claimed: the outcome is `decimal_parse` of the text.
#[verifier::external_body]
pub(crate) fn parse_text(s: &str) -> (r: Result<FixedDecimal, DecimalError>)
    ensures
        r matches Ok(v) ==> v.wf(),
        outcome_view(r) == decimal_parse(s@),
{
    match <rust_decimal::Decimal as std::str::FromStr>::from_str(s) {
        Ok(d) => {
            let u = d.unpack();
            Ok(FixedDecimal { lo: u.lo, mid: u.mid, hi: u.hi, negative: u.negative, scale: u.scale })
        },
        Err(RustDecimalError::ErrorString(m)) => Err(DecimalError::ErrorString(m)),
        Err(RustDecimalError::ExceedsMaximumPossibleValue) => Err(DecimalError::ExceedsMaximumPossibleValue),
        Err(RustDecimalError::LessThanMinimumPossibleValue) => Err(DecimalError::LessThanMinimumPossibleValue),
        Err(RustDecimalError::Underflow) => Err(DecimalError::Underflow),
        Err(RustDecimalError::ScaleExceedsMaximumPrecision(n)) => Err(DecimalError::ScaleExceedsMaximumPrecision(n)),
        Err(RustDecimalError::ConversionTo(m)) => Err(DecimalError::ConversionTo(m)),
    }
}

/// Calls `rust_decimal::Decimal::from_scientific` (text such as `1.5e3`), dropping the error.
/// Claimed: the outcome is `decimal_parse_scientific` of the text.
#[verifier::external_body]
pub(crate) fn parse_scientific(s: &str) -> (r: Option<FixedDecimal>)
    ensures
        r matches Some(v) ==> v.wf() && decimal_parse_scientific(s@) == Some(v@),
        r is None <==> decimal_parse_scientific(s@) is None,
{
    match rust_decimal::Decimal::from_scientific(s) {
        Ok(d) => {
            let u = d.unpack();
            Some(FixedDecimal { lo: u.lo, mid: u.mid, hi: u.hi, negative: u.negative, scale: u.scale })
        },
        Err(_) => None,
    }
}

/// What `rust_decimal::Decimal::deserialize` gives for 16 bytes.
pub open spec fn deserialized(b: Seq<u8>) -> FixedView {
    if bytes_scale(b) <= MAX_SCALE {
        bytes_content(b)
    } else {
        decimal_from_bytes(b)
    }
}

/// Calls `rust_decimal::Decimal::deserialize`. The source keeps the sign bit and the five
/// scale bits of the flags word and takes the limbs as they are (`bytes_content`); a scale
/// field of 29..=31 it brings to 28 by dividing the mantissa with rounding
/// (`decimal_from_bytes`). Claimed: the result is `deserialized(b)`.
#[verifier::external_body]
pub(crate) fn from_bytes(b: [u8; 16]) -> (r: FixedDecimal)
    ensures
        r.wf(),
        bytes_scale(b@) <= MAX_SCALE ==> r@ == bytes_content(b@),
        bytes_scale(b@) > MAX_SCALE ==> r@ == decimal_from_bytes(b@),
{
    let u = rust_decimal::Decimal::deserialize(b).unpack();
    FixedDecimal { lo: u.lo, mid: u.mid, hi: u.hi, negative: u.negative, scale: u.scale }
}

/// Calls `<rust_decimal::Decimal as postgres_types::ToSql>::to_sql`, which never fails for a
/// decimal. Claimed: the bytes are `decimal_pg_binary` of the value.
#[verifier::external_body]
pub(crate) fn pg_binary(a: FixedDecimal) -> (r: Vec<u8>)
    requires
        a.wf(),
    ensures
        r@ == decimal_pg_binary(a@),
{
    let mut x = rust_decimal::Decimal::from_parts(a.lo, a.mid, a.hi, a.negative, a.scale);
    x.set_sign_negative(a.negative);
    let mut out = bytes::BytesMut::new();
    x.to_sql(&postgres_types::Type::ANY, &mut out).unwrap();
    out.to_vec()
}

/// 10^i grows with i.
proof fn lemma_pow10_monotone(i: nat, j: nat)
    requires
        i <= j,
    ensures
        pow10(i) <= pow10(j),
    decreases j,
{
    if i < j {
        lemma_pow10_monotone(i, (j - 1) as nat);
    }
}

/// 10^n for a scale n.
fn pow10_u128(n: u32) -> (r: u128)
    requires
        n <= MAX_SCALE,
    ensures
        r == pow10(n as nat),
{
    proof {
        reveal_with_fuel(pow10, 29);
        assert(pow10(28) == 10000000000000000000000000000nat);
    }
    let mut r: u128 = 1;
    let mut i: u32 = 0;
    while i < n
        invariant
            i <= n <= MAX_SCALE,
            r == pow10(i as nat),
            pow10(28) == 10000000000000000000000000000nat,
        decreases n - i,
    {
        proof {
            lemma_pow10_monotone((i + 1) as nat, 28);
        }
        r = r * 10;
        i = i + 1;
    }
    r
}

/// The number rounded toward zero to an integer, as `rust_decimal`'s conversions to integer
/// types compute it.
fn truncated_i128(a: FixedDecimal) -> (r: i128)
    requires
        a.wf(),
    ensures
        r == a@.truncated(),
{
    proof {
        use_type_invariant(&a);
    }
    let m: u128 = (a.hi as u128) * 0x1_0000_0000_0000_0000u128 + (a.mid as u128) * 0x1_0000_0000u128
        + a.lo as u128;
    assert(m == a@.magnitude);
    let p = pow10_u128(a.scale);
    proof {
        lemma_pow10_monotone(0, a.scale as nat);
    }
    let q = m / p;
    assert(q <= m) by (nonlinear_arith)
        requires
            q == m / p,
            p >= 1,
    ;
    if a.negative {
        -(q as i128)
    } else {
        q as i128
    }
}

/// The number truncated toward zero as `i64`, if it fits (what
/// `<i64 as TryFrom<rust_decimal::Decimal>>::try_from` gives, error dropped).
pub(crate) fn truncated_i64(a: FixedDecimal) -> (r: Option<i64>)
    requires
        a.wf(),
    ensures
        r == (if i64::MIN <= a@.truncated() <= i64::MAX { Some(a@.truncated() as i64) } else { None }),
{
    let t = truncated_i128(a);
    if -0x8000_0000_0000_0000i128 <= t && t <= 0x7fff_ffff_ffff_ffffi128 {
        Some(t as i64)
    } else {
        None
    }
}

/// The number truncated toward zero as `i32`, if it fits (what
/// `<i32 as TryFrom<rust_decimal::Decimal>>::try_from` gives, error dropped).
pub(crate) fn truncated_i32(a: FixedDecimal) -> (r: Option<i32>)
    requires
        a.wf(),
    ensures
        r == (if i32::MIN <= a@.truncated() <= i32::MAX { Some(a@.truncated() as i32) } else { None }),
{
    let t = truncated_i128(a);
    if -0x8000_0000i128 <= t && t <= 0x7fff_ffffi128 {
        Some(t as i32)
    } else {
        None
    }
}

/// The number truncated toward zero as `i16`, if it fits (what
/// `<i16 as TryFrom<rust_decimal::Decimal>>::try_from` gives, error dropped).
pub(crate) fn truncated_i16(a: FixedDecimal) -> (r: Option<i16>)
    requires
        a.wf(),
    ensures
        r == (if i16::MIN <= a@.truncated() <= i16::MAX { Some(a@.truncated() as i16) } else { None }),
{
    let t = truncated_i128(a);
    if -0x8000i128 <= t && t <= 0x7fffi128 {
        Some(t as i16)
    } else {
        None
    }
}

impl FixedDecimal {
    /// Zero with scale 0.
    pub fn zero() -> (r: FixedDecimal)
        ensures
            r.wf(),
            r@ == (FixedView { negative: false, magnitude: 0, scale: 0 }),
    {
        FixedDecimal { lo: 0, mid: 0, hi: 0, negative: false, scale: 0 }
    }

    /// `rust_decimal`'s `is_zero`: the mantissa is zero, whatever the sign and scale.
    pub fn is_zero(&self) -> (r: bool)
        ensures
            r == self@.is_zero(),
            self.wf(),
    {
        proof {
            use_type_invariant(self);
            FixedDecimal::lemma_magnitude_bound(*self);
        }
        self.lo == 0 && self.mid == 0 && self.hi == 0
    }

    /// `rust_decimal`'s `is_sign_negative`: the sign flag (set on -0 too).
    pub fn is_sign_negative(&self) -> (r: bool)
        ensures
            r == self@.negative,
    {
        self.negative
    }

    /// `rust_decimal`'s `is_sign_positive`: the sign flag is clear.
    pub fn is_sign_positive(&self) -> (r: bool)
        ensures
            r == !self@.negative,
    {
        !self.negative
    }

    /// `rust_decimal`'s unary minus: the sign flag flipped, nothing else changed
    /// (so the negation of 0 is -0).
    pub fn negated(&self) -> (r: FixedDecimal)
        ensures
            r.wf(),
            r@ == (FixedView { negative: !self@.negative, ..self@ }),
    {
        proof {
            use_type_invariant(self);
            FixedDecimal::lemma_magnitude_bound(*self);
        }
        FixedDecimal { negative: !self.negative, ..*self }
    }

    /// `rust_decimal`'s `scale`.
    pub fn scale(&self) -> (r: u32)
        ensures
            r == self@.scale,
            r <= MAX_SCALE,
    {
        proof {
            use_type_invariant(self);
        }
        self.scale
    }

    /// `rust_decimal`'s `mantissa`: the magnitude with the sign applied (0 for -0).
    pub fn mantissa(&self) -> (r: i128)
        ensures
            r == self@.signed_mantissa(),
    {
        let raw: u128 = self.lo as u128 + self.mid as u128 * 0x1_0000_0000u128
            + self.hi as u128 * 0x1_0000_0000_0000_0000u128;
        if self.negative {
            -(raw as i128)
        } else {
            raw as i128
        }
    }

    /// `rust_decimal`'s `from_i128_with_scale`, which panics on a scale above 28 or a
    /// magnitude of 2^96 or more: `num / 10^scale`.
    pub fn from_i128_with_scale(num: i128, scale: u32) -> (r: FixedDecimal)
        requires
            scale <= MAX_SCALE,
            -0xffff_ffff_ffff_ffff_ffff_ffff <= num <= 0xffff_ffff_ffff_ffff_ffff_ffff,
        ensures
            r.wf(),
            r@ == (FixedView {
                negative: num < 0,
                magnitude: if num < 0 { (-num) as nat } else { num as nat },
                scale: scale as nat,
            }),
    {
        let m: u128 = if num < 0 { (-num) as u128 } else { num as u128 };
        let lo = (m & 0xffff_ffff) as u32;
        let mid = ((m >> 32) & 0xffff_ffff) as u32;
        let hi = (m >> 64) as u32;
        proof {
            assert(m == (m & 0xffff_ffff) + ((m >> 32) & 0xffff_ffff) * 0x1_0000_0000
                + (m >> 64) * 0x1_0000_0000_0000_0000) by (bit_vector)
                requires m <= 0xffff_ffff_ffff_ffff_ffff_ffff;
            assert((m & 0xffff_ffff) < 0x1_0000_0000 && ((m >> 32) & 0xffff_ffff) < 0x1_0000_0000
                && (m >> 64) < 0x1_0000_0000) by (bit_vector)
                requires m <= 0xffff_ffff_ffff_ffff_ffff_ffff;
        }
        FixedDecimal { lo, mid, hi, negative: num < 0, scale }
    }

    /// `rust_decimal`'s `new`, which panics on a scale above 28: `num / 10^scale`.
    pub fn new(num: i64, scale: u32) -> (r: FixedDecimal)
        requires
            scale <= MAX_SCALE,
        ensures
            r.wf(),
            r@ == (FixedView {
                negative: num < 0,
                magnitude: if num < 0 { (-num) as nat } else { num as nat },
                scale: scale as nat,
            }),
    {
        FixedDecimal::from_i128_with_scale(num as i128, scale)
    }

    /// `rust_decimal`'s conversion from a signed integer.
    pub fn from_i64(n: i64) -> (r: FixedDecimal)
        ensures
            r.wf(),
            r@ == (FixedView {
                negative: n < 0,
                magnitude: if n < 0 { (-n) as nat } else { n as nat },
                scale: 0,
            }),
    {
        FixedDecimal::from_i128_with_scale(n as i128, 0)
    }

    /// `rust_decimal`'s conversion from an unsigned integer.
    pub fn from_u64(n: u64) -> (r: FixedDecimal)
        ensures
            r.wf(),
            r@ == (FixedView { negative: false, magnitude: n as nat, scale: 0 }),
    {
        FixedDecimal::from_i128_with_scale(n as i128, 0)
    }

    /// `rust_decimal`'s `serialize`: the flags word, then the three limbs, little-endian.
    pub fn to_bytes(&self) -> (r: [u8; 16])
        ensures
            r@ == serialized_bytes(self@),
    {
        proof {
            use_type_invariant(self);
            lemma_limbs(self.lo, self.mid, self.hi);
        }
        let (lo, mid, hi) = (self.lo, self.mid, self.hi);
        let r = [
            0u8, 0u8, self.scale as u8, if self.negative { 0x80u8 } else { 0u8 },
            (lo & 0xff) as u8, ((lo >> 8) & 0xff) as u8, ((lo >> 16) & 0xff) as u8, ((lo >> 24) & 0xff) as u8,
            (mid & 0xff) as u8, ((mid >> 8) & 0xff) as u8, ((mid >> 16) & 0xff) as u8, ((mid >> 24) & 0xff) as u8,
            (hi & 0xff) as u8, ((hi >> 8) & 0xff) as u8, ((hi >> 16) & 0xff) as u8, ((hi >> 24) & 0xff) as u8,
        ];
        assert(r@ =~= serialized_bytes(self@));
        r
    }
}

/// A 32-bit limb is the little-endian sum of its bytes.
pub proof fn lemma_limb_bytes(x: u32)
    ensures
        le_u32(limb_bytes(x), 0) == x as nat,
{
    assert(((x & 0xff) as u8) as u32 + (((x >> 8) & 0xff) as u8) as u32 * 0x100
        + (((x >> 16) & 0xff) as u8) as u32 * 0x1_0000 + (((x >> 24) & 0xff) as u8) as u32 * 0x100_0000
        == x) by (bit_vector);
}

/// Deserializing the serialized bytes of a value gives the value back.
pub proof fn lemma_bytes_roundtrip(v: FixedView)
    requires
        v.wf(),
    ensures
        bytes_scale(serialized_bytes(v)) <= MAX_SCALE,
        bytes_content(serialized_bytes(v)) == v,
{
    let b = serialized_bytes(v);
    let s = v.scale as u8;
    assert(s & 0x1f == s) by (bit_vector)
        requires s <= 28;
    assert(0x80u8 & 0x80 != 0 && 0u8 & 0x80 == 0) by (bit_vector);
    FixedDecimal::lemma_from_view(v);
    let f = FixedDecimal::from_view(v);
    lemma_limb_bytes(low_limb(v.magnitude));
    lemma_limb_bytes(mid_limb(v.magnitude));
    lemma_limb_bytes(high_limb(v.magnitude));
    let lb = limb_bytes(low_limb(v.magnitude));
    let mb = limb_bytes(mid_limb(v.magnitude));
    let hb = limb_bytes(high_limb(v.magnitude));
    assert(b.subrange(4, 8) =~= lb);
    assert(b.subrange(8, 12) =~= mb);
    assert(b.subrange(12, 16) =~= hb);
    assert(le_u32(b, 4) == le_u32(lb, 0));
    assert(le_u32(b, 8) == le_u32(mb, 0));
    assert(le_u32(b, 12) == le_u32(hb, 0));
}

} // verus!
