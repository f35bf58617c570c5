//! Exact decimal numbers.
//!
//! A `Dec` carries the two plain components of a 96-bit decimal value:
//! an integer mantissa and a scale, so that the value is
//! `mantissa * 10^(-scale)`. All arithmetic on such values is done by
//! the `rust_decimal` crate behind the trusted wrappers at the bottom of
//! this file; everything the rest of the library knows about a result is
//! what those wrappers state.

use vstd::prelude::*;

verus! {

/// Largest mantissa magnitude of the backing representation: 2^96 - 1.
pub const MAX_MANTISSA: i128 = 79228162514264337593543950335;

/// Largest number of fractional digits of the backing representation.
pub const MAX_SCALE: u32 = 28;

/// An exact decimal number, `mantissa * 10^(-scale)`.
#[derive(Clone, Copy, PartialEq, Eq, Structural, Debug)]
pub struct Dec {
    pub mantissa: i128,
    pub scale: u32,
}

/// What `checked_div` of the backing crate returns for the decimal
/// `am * 10^(-ascale)` divided by `bm * 10^(-bscale)`, as a
/// (mantissa, scale) pair; `None` where the division fails.
pub uninterp spec fn div_of(am: int, ascale: nat, bm: int, bscale: nat) -> Option<(int, nat)>;

/// What `checked_mul` of the backing crate returns, as `div_of`.
pub uninterp spec fn mul_of(am: int, ascale: nat, bm: int, bscale: nat) -> Option<(int, nat)>;

/// What parsing a decimal string with the backing crate returns;
/// `None` where the text is not a decimal number.
pub uninterp spec fn dec_of_str(s: Seq<char>) -> Option<(int, nat)>;

/// `div_of` read back as a `Dec`.
pub open spec fn spec_div(a: Dec, b: Dec) -> Option<Dec> {
    match div_of(a.mantissa as int, a.scale as nat, b.mantissa as int, b.scale as nat) {
        Some(p) => Some(Dec { mantissa: p.0 as i128, scale: p.1 as u32 }),
        None => None,
    }
}

/// `mul_of` read back as a `Dec`.
pub open spec fn spec_mul(a: Dec, b: Dec) -> Option<Dec> {
    match mul_of(a.mantissa as int, a.scale as nat, b.mantissa as int, b.scale as nat) {
        Some(p) => Some(Dec { mantissa: p.0 as i128, scale: p.1 as u32 }),
        None => None,
    }
}

/// `dec_of_str` read back as a `Dec`.
pub open spec fn spec_parse_dec(s: Seq<char>) -> Option<Dec> {
    match dec_of_str(s) {
        Some(p) => Some(Dec { mantissa: p.0 as i128, scale: p.1 as u32 }),
        None => None,
    }
}

impl Dec {
    /// The components fit the backing 96-bit representation.
    pub open spec fn wf(self) -> bool {
        &&& -MAX_MANTISSA <= self.mantissa <= MAX_MANTISSA
        &&& self.scale <= MAX_SCALE
    }

    /// The decimal one, as the backing crate's `Decimal::ONE` holds it.
    pub open spec fn spec_one() -> Dec {
        Dec { mantissa: 1, scale: 0 }
    }

    pub fn one() -> (r: Dec)
        ensures
            r == Dec::spec_one(),
            r.wf(),
    {
        Dec { mantissa: 1, scale: 0 }
    }

    /// A decimal is zero exactly when its mantissa is zero.
    pub open spec fn spec_is_zero(self) -> bool {
        self.mantissa == 0
    }

    /// A decimal is negative exactly when its mantissa is negative.
    pub open spec fn spec_is_negative(self) -> bool {
        self.mantissa < 0
    }

    pub fn is_negative(&self) -> (r: bool)
        ensures
            r == self.spec_is_negative(),
    {
        self.mantissa < 0
    }
}

/// Relies on `rust_decimal::Decimal::checked_div`: exact decimal division,
/// `None` on division by zero or overflow; any result fits the 96-bit form.
#[verifier::external_body]
pub(crate) fn dec_checked_div(a: Dec, b: Dec) -> (r: Option<Dec>)
    requires
        a.wf(),
        b.wf(),
    ensures
        r == spec_div(a, b),
        r is Some <==> div_of(
            a.mantissa as int,
            a.scale as nat,
            b.mantissa as int,
            b.scale as nat,
        ) is Some,
        r matches Some(d) ==> d.wf(),
        b.spec_is_zero() ==> r is None,
{
    let x = rust_decimal::Decimal::from_i128_with_scale(a.mantissa, a.scale);
    let y = rust_decimal::Decimal::from_i128_with_scale(b.mantissa, b.scale);
    x.checked_div(y).map(|d| Dec { mantissa: d.mantissa(), scale: d.scale() })
}

/// Relies on `rust_decimal::Decimal::checked_mul`: exact decimal
/// multiplication, `None` on overflow; any result fits the 96-bit form.
#[verifier::external_body]
pub(crate) fn dec_checked_mul(a: Dec, b: Dec) -> (r: Option<Dec>)
    requires
        a.wf(),
        b.wf(),
    ensures
        r == spec_mul(a, b),
        r is Some <==> mul_of(
            a.mantissa as int,
            a.scale as nat,
            b.mantissa as int,
            b.scale as nat,
        ) is Some,
        r matches Some(d) ==> d.wf(),
{
    let x = rust_decimal::Decimal::from_i128_with_scale(a.mantissa, a.scale);
    let y = rust_decimal::Decimal::from_i128_with_scale(b.mantissa, b.scale);
    x.checked_mul(y).map(|d| Dec { mantissa: d.mantissa(), scale: d.scale() })
}

/// Relies on `<rust_decimal::Decimal as FromStr>::from_str`: parses a
/// decimal string, `None` where the text is not a decimal number; any
/// parsed value fits the 96-bit form.
#[verifier::external_body]
pub fn dec_from_str(s: &str) -> (r: Option<Dec>)
    ensures
        r == spec_parse_dec(s@),
        r is Some <==> dec_of_str(s@) is Some,
        r matches Some(d) ==> d.wf(),
{
    match <rust_decimal::Decimal as core::str::FromStr>::from_str(s) {
        Ok(d) => Some(Dec { mantissa: d.mantissa(), scale: d.scale() }),
        Err(_) => None,
    }
}

} // verus!
