//! Decimal numbers as the library holds them: the mantissa and scale of a
//! `rust_decimal::Decimal`, whose value is `mantissa / 10^scale`. Parsing,
//! printing and arithmetic are done by `rust_decimal`.
use vstd::prelude::*;
use vstd::arithmetic::power::pow;

verus! {

/// The largest mantissa magnitude a `rust_decimal::Decimal` holds (96 bits).
pub open spec fn max_mantissa() -> int {
    79228162514264337593543950335
}

/// A decimal number `mantissa / 10^scale`.
#[derive(Clone, Copy, Debug, PartialEq, Eq, Hash)]
pub struct DecimalValue {
    pub mantissa: i128,
    pub scale: u32,
}

impl DecimalValue {
    /// The ranges `rust_decimal::Decimal` keeps: a 96-bit mantissa and a
    /// scale of at most 28.
    pub open spec fn wf(self) -> bool {
        &&& self.scale <= 28
        &&& -max_mantissa() <= self.mantissa <= max_mantissa()
    }

    /// The value is below zero.
    pub open spec fn spec_is_negative(self) -> bool {
        self.mantissa < 0
    }

    /// Zero, with scale zero.
    pub fn zero() -> (r: DecimalValue)
        ensures
            r.mantissa == 0,
            r.scale == 0,
            r.wf(),
    {
        DecimalValue { mantissa: 0, scale: 0 }
    }

    /// Whether the value is below zero.
    pub fn is_negative(&self) -> (r: bool)
        ensures
            r == self.spec_is_negative(),
    {
        self.mantissa < 0
    }
}

/// Two decimals denote the same number.
pub open spec fn same_value(a: DecimalValue, b: DecimalValue) -> bool {
    a.mantissa * pow(10, b.scale as nat) == b.mantissa * pow(10, a.scale as nat)
}

/// What `<rust_decimal::Decimal as FromStr>::from_str` gives for a string,
/// as (mantissa, scale).
pub uninterp spec fn spec_decimal_parse(s: Seq<char>) -> Option<(i128, u32)>;

/// What `Display` prints for the decimal with this mantissa and scale.
pub uninterp spec fn spec_decimal_to_string(mantissa: i128, scale: u32) -> Seq<char>;

/// What `Decimal::checked_add` gives for two decimals.
pub uninterp spec fn spec_decimal_add(m1: i128, s1: u32, m2: i128, s2: u32) -> Option<(i128, u32)>;

/// What `Decimal::checked_mul` gives for two decimals.
pub uninterp spec fn spec_decimal_mul(m1: i128, s1: u32, m2: i128, s2: u32) -> Option<(i128, u32)>;

/// A (mantissa, scale) pair as a decimal.
pub open spec fn from_parts(p: Option<(i128, u32)>) -> Option<DecimalValue> {
    match p {
        Some((m, s)) => Some(DecimalValue { mantissa: m, scale: s }),
        None => None,
    }
}

/// Calls `str::parse::<rust_decimal::Decimal>`. The result is named by
/// `spec_decimal_parse`; a parsed decimal keeps `Decimal`'s ranges.
#[verifier::external_body]
pub(crate) fn decimal_parse(s: &str) -> (r: Option<DecimalValue>)
    ensures
        r == from_parts(spec_decimal_parse(s@)),
        r matches Some(d) ==> d.wf(),
{
    match s.parse::<rust_decimal::Decimal>() {
        Ok(d) => Some(DecimalValue { mantissa: d.mantissa(), scale: d.scale() }),
        Err(_) => None,
    }
}

/// Calls `Display` of `rust_decimal::Decimal` (through `to_string`); the
/// result is named by `spec_decimal_to_string`.
#[verifier::external_body]
pub(crate) fn decimal_to_string(d: DecimalValue) -> (r: String)
    requires
        d.wf(),
    ensures
        r@ == spec_decimal_to_string(d.mantissa, d.scale),
{
    rust_decimal::Decimal::from_i128_with_scale(d.mantissa, d.scale).to_string()
}

/// Calls `Decimal::checked_add`; `None` on overflow. The result is named by
/// `spec_decimal_add` and keeps `Decimal`'s ranges.
#[verifier::external_body]
pub(crate) fn decimal_add(a: DecimalValue, b: DecimalValue) -> (r: Option<DecimalValue>)
    requires
        a.wf(),
        b.wf(),
    ensures
        r == from_parts(spec_decimal_add(a.mantissa, a.scale, b.mantissa, b.scale)),
        r matches Some(d) ==> d.wf(),
{
    let x = rust_decimal::Decimal::from_i128_with_scale(a.mantissa, a.scale);
    let y = rust_decimal::Decimal::from_i128_with_scale(b.mantissa, b.scale);
    x.checked_add(y).map(|d| DecimalValue { mantissa: d.mantissa(), scale: d.scale() })
}

/// Calls `Decimal::checked_mul`; `None` on overflow. The result is named by
/// `spec_decimal_mul` and keeps `Decimal`'s ranges.
#[verifier::external_body]
pub(crate) fn decimal_mul(a: DecimalValue, b: DecimalValue) -> (r: Option<DecimalValue>)
    requires
        a.wf(),
        b.wf(),
    ensures
        r == from_parts(spec_decimal_mul(a.mantissa, a.scale, b.mantissa, b.scale)),
        r matches Some(d) ==> d.wf(),
{
    let x = rust_decimal::Decimal::from_i128_with_scale(a.mantissa, a.scale);
    let y = rust_decimal::Decimal::from_i128_with_scale(b.mantissa, b.scale);
    x.checked_mul(y).map(|d| DecimalValue { mantissa: d.mantissa(), scale: d.scale() })
}

/// Calls `PartialEq::eq` of `rust_decimal::Decimal`, which compares the
/// numbers the two decimals denote (whatever their scales).
#[verifier::external_body]
pub(crate) fn decimal_eq(a: DecimalValue, b: DecimalValue) -> (r: bool)
    requires
        a.wf(),
        b.wf(),
    ensures
        r == same_value(a, b),
{
    let x = rust_decimal::Decimal::from_i128_with_scale(a.mantissa, a.scale);
    let y = rust_decimal::Decimal::from_i128_with_scale(b.mantissa, b.scale);
    x == y
}

} // verus!
