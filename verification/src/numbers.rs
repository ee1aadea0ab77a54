//! The numeric domain underlying every property value: fixed-point real
//! numbers held as a signed count of millionths, bounded to
//! [`CSS_NUMBER_MIN_UNITS`, `CSS_NUMBER_MAX_UNITS`].
//!
//! All four arithmetic operators are total: results clamp to the extremes on
//! overflow, and a division or remainder by zero resolves to the extreme
//! matching the sign of the dividend instead of failing. No invalid value is
//! ever observable.

use vstd::prelude::*;
use crate::serialization::abs_int;
use crate::serialization::css_decimal_chars;
use crate::serialization::units_to_decimal_string;

verus! {

/// Number of fixed-point units in the value one: six decimal digits of
/// fraction.
pub const CSS_NUMBER_SCALE: i64 = 1_000_000;

/// Largest representable count of units (one thousand million, in value).
pub const CSS_NUMBER_MAX_UNITS: i64 = 1_000_000_000_000_000;

/// Smallest representable count of units.
pub const CSS_NUMBER_MIN_UNITS: i64 = -1_000_000_000_000_000;

pub open spec fn in_units_range(x: int) -> bool {
    CSS_NUMBER_MIN_UNITS as int <= x <= CSS_NUMBER_MAX_UNITS as int
}

pub open spec fn clamp_units(x: int) -> int {
    if x > CSS_NUMBER_MAX_UNITS as int {
        CSS_NUMBER_MAX_UNITS as int
    } else if x < CSS_NUMBER_MIN_UNITS as int {
        CSS_NUMBER_MIN_UNITS as int
    } else {
        x
    }
}

/// The extreme value whose sign matches `a`: what a division by zero
/// resolves to.
pub open spec fn extreme_for_sign(a: int) -> int {
    if a < 0 {
        CSS_NUMBER_MIN_UNITS as int
    } else {
        CSS_NUMBER_MAX_UNITS as int
    }
}

pub open spec fn sign_apply(neg: bool, m: int) -> int {
    if neg {
        -m
    } else {
        m
    }
}

/// Exact product of two unit counts, truncated toward zero.
pub open spec fn mul_value(a: int, b: int) -> int {
    sign_apply((a < 0) != (b < 0), (abs_int(a) * abs_int(b)) / (CSS_NUMBER_SCALE as int))
}

/// Exact quotient of two unit counts (`b != 0`), truncated toward zero.
pub open spec fn div_value(a: int, b: int) -> int {
    sign_apply((a < 0) != (b < 0), (abs_int(a) * (CSS_NUMBER_SCALE as int)) / abs_int(b))
}

/// Remainder with the sign of the dividend (`b != 0`), as the underlying
/// real remainder has.
pub open spec fn rem_value(a: int, b: int) -> int {
    sign_apply(a < 0, abs_int(a) % abs_int(b))
}

/// Why a raw unit count was rejected during construction.
#[derive(Debug, Clone, Copy, PartialEq, Eq, Structural)]
pub enum CssNumberConversionError {
    ValueWasNegative,
    ValueWasOutOfRange,
}

/// The shared contract of the signed and unsigned numeric variants: bounded,
/// saturating, never invalid.
pub trait CssNumber: Sized + Copy {
    spec fn as_units(self) -> int;

    spec fn valid(self) -> bool;

    spec fn construction_allowed(units: int) -> bool;

    spec fn construction_error(units: int) -> CssNumberConversionError;

    proof fn lemma_valid_in_range(self)
        requires
            self.valid(),
        ensures
            in_units_range(self.as_units()),
    ;

    fn zero() -> (r: Self)
        ensures
            r.valid(),
            r.as_units() == 0,
    ;

    fn one() -> (r: Self)
        ensures
            r.valid(),
            r.as_units() == CSS_NUMBER_SCALE as int,
    ;

    fn minimum() -> (r: Self)
        ensures
            r.valid(),
            r.as_units() == CSS_NUMBER_MIN_UNITS as int,
    ;

    fn maximum() -> (r: Self)
        ensures
            r.valid(),
            r.as_units() == CSS_NUMBER_MAX_UNITS as int,
    ;

    fn new(units: i64) -> (r: Result<Self, CssNumberConversionError>)
        ensures
            Self::construction_allowed(units as int) ==> (r matches Ok(n) && n.valid()
                && n.as_units() == units as int),
            !Self::construction_allowed(units as int) ==> (r matches Err(e) && e
                == Self::construction_error(units as int)),
    ;

    fn to_units(self) -> (r: i64)
        ensures
            r as int == self.as_units(),
    ;

    fn is_zero(self) -> (r: bool)
        ensures
            r == (self.as_units() == 0),
    ;

    fn add(self, rhs: Self) -> (r: Self)
        requires
            self.valid(),
            rhs.valid(),
        ensures
            r.valid(),
            r.as_units() == clamp_units(self.as_units() + rhs.as_units()),
    ;

    fn sub(self, rhs: Self) -> (r: Self)
        requires
            self.valid(),
            rhs.valid(),
        ensures
            r.valid(),
            r.as_units() == clamp_units(self.as_units() - rhs.as_units()),
    ;

    fn mul(self, rhs: Self) -> (r: Self)
        requires
            self.valid(),
            rhs.valid(),
        ensures
            r.valid(),
            r.as_units() == clamp_units(mul_value(self.as_units(), rhs.as_units())),
    ;

    fn div(self, rhs: Self) -> (r: Self)
        requires
            self.valid(),
            rhs.valid(),
        ensures
            r.valid(),
            rhs.as_units() == 0 ==> r.as_units() == extreme_for_sign(self.as_units()),
            rhs.as_units() != 0 ==> r.as_units() == clamp_units(
                div_value(self.as_units(), rhs.as_units()),
            ),
    ;

    fn rem(self, rhs: Self) -> (r: Self)
        requires
            self.valid(),
            rhs.valid(),
        ensures
            r.valid(),
            rhs.as_units() == 0 ==> r.as_units() == extreme_for_sign(self.as_units()),
            rhs.as_units() != 0 ==> r.as_units() == rem_value(self.as_units(), rhs.as_units()),
    ;

    fn neg(self) -> (r: Self)
        requires
            self.valid(),
        ensures
            r.valid(),
            r.as_units() == -self.as_units(),
    ;
}

fn clamp_units_i128(x: i128) -> (r: i64)
    ensures
        r as int == clamp_units(x as int),
        in_units_range(r as int),
{
    if x > CSS_NUMBER_MAX_UNITS as i128 {
        CSS_NUMBER_MAX_UNITS
    } else if x < CSS_NUMBER_MIN_UNITS as i128 {
        CSS_NUMBER_MIN_UNITS
    } else {
        x as i64
    }
}

fn magnitude_u128(a: i64) -> (r: u128)
    ensures
        r as int == abs_int(a as int),
{
    if a < 0 {
        (-(a as i128)) as u128
    } else {
        a as u128
    }
}

fn add_units_exec(a: i64, b: i64) -> (r: i64)
    requires
        in_units_range(a as int),
        in_units_range(b as int),
    ensures
        r as int == clamp_units(a as int + b as int),
        in_units_range(r as int),
{
    clamp_units_i128((a as i128) + (b as i128))
}

fn sub_units_exec(a: i64, b: i64) -> (r: i64)
    requires
        in_units_range(a as int),
        in_units_range(b as int),
    ensures
        r as int == clamp_units(a as int - b as int),
        in_units_range(r as int),
{
    clamp_units_i128((a as i128) - (b as i128))
}

fn mul_units_exec(a: i64, b: i64) -> (r: i64)
    requires
        in_units_range(a as int),
        in_units_range(b as int),
    ensures
        r as int == clamp_units(mul_value(a as int, b as int)),
        in_units_range(r as int),
{
    let neg = (a < 0) != (b < 0);
    let au = magnitude_u128(a);
    let bu = magnitude_u128(b);
    proof {
        assert(au * bu <= 1000000000000000000000000000000int) by (nonlinear_arith)
            requires
                au <= 1000000000000000,
                bu <= 1000000000000000,
        ;
    }
    let p: u128 = au * bu;
    let q: u128 = p / 1000000;
    let qi: i128 = q as i128;
    let r = clamp_units_i128(if neg {
        -qi
    } else {
        qi
    });
    r
}

fn div_units_exec(a: i64, b: i64) -> (r: i64)
    requires
        in_units_range(a as int),
        in_units_range(b as int),
        b != 0,
    ensures
        r as int == clamp_units(div_value(a as int, b as int)),
        in_units_range(r as int),
{
    let neg = (a < 0) != (b < 0);
    let au = magnitude_u128(a);
    let bu = magnitude_u128(b);
    let p: u128 = au * 1000000;
    let q: u128 = p / bu;
    proof {
        assert(q <= p) by (nonlinear_arith)
            requires
                bu >= 1,
                q == p / bu,
        ;
    }
    let qi: i128 = q as i128;
    let r = clamp_units_i128(if neg {
        -qi
    } else {
        qi
    });
    r
}

fn rem_units_exec(a: i64, b: i64) -> (r: i64)
    requires
        in_units_range(a as int),
        in_units_range(b as int),
        b != 0,
    ensures
        r as int == rem_value(a as int, b as int),
        in_units_range(r as int),
{
    let au = magnitude_u128(a);
    let bu = magnitude_u128(b);
    let m: u128 = au % bu;
    let mi: i64 = m as i64;
    if a < 0 {
        -mi
    } else {
        mi
    }
}

/// The unsigned numeric variant: it rejects negative construction, though
/// arithmetic on it ranges over the full bounded domain.
#[derive(Debug, Clone, Copy, PartialEq, Eq, Structural, Hash, PartialOrd, Ord)]
pub struct CssUnsignedNumber(pub i64);

impl CssNumber for CssUnsignedNumber {
    open spec fn as_units(self) -> int {
        self.0 as int
    }

    open spec fn valid(self) -> bool {
        in_units_range(self.0 as int)
    }

    open spec fn construction_allowed(units: int) -> bool {
        0 <= units <= CSS_NUMBER_MAX_UNITS as int
    }

    open spec fn construction_error(units: int) -> CssNumberConversionError {
        if units < 0 {
            CssNumberConversionError::ValueWasNegative
        } else {
            CssNumberConversionError::ValueWasOutOfRange
        }
    }

    proof fn lemma_valid_in_range(self) {
    }

    fn zero() -> (r: Self) {
        CssUnsignedNumber(0)
    }

    fn one() -> (r: Self) {
        CssUnsignedNumber(CSS_NUMBER_SCALE)
    }

    fn minimum() -> (r: Self) {
        CssUnsignedNumber(CSS_NUMBER_MIN_UNITS)
    }

    fn maximum() -> (r: Self) {
        CssUnsignedNumber(CSS_NUMBER_MAX_UNITS)
    }

    fn new(units: i64) -> (r: Result<Self, CssNumberConversionError>) {
        if units < 0 {
            Err(CssNumberConversionError::ValueWasNegative)
        } else if units > CSS_NUMBER_MAX_UNITS {
            Err(CssNumberConversionError::ValueWasOutOfRange)
        } else {
            Ok(CssUnsignedNumber(units))
        }
    }

    fn to_units(self) -> (r: i64) {
        self.0
    }

    fn is_zero(self) -> (r: bool) {
        self.0 == 0
    }

    fn add(self, rhs: Self) -> (r: Self) {
        CssUnsignedNumber(add_units_exec(self.0, rhs.0))
    }

    fn sub(self, rhs: Self) -> (r: Self) {
        CssUnsignedNumber(sub_units_exec(self.0, rhs.0))
    }

    fn mul(self, rhs: Self) -> (r: Self) {
        CssUnsignedNumber(mul_units_exec(self.0, rhs.0))
    }

    fn div(self, rhs: Self) -> (r: Self) {
        if rhs.0 == 0 {
            if self.0 < 0 {
                CssUnsignedNumber(CSS_NUMBER_MIN_UNITS)
            } else {
                CssUnsignedNumber(CSS_NUMBER_MAX_UNITS)
            }
        } else {
            CssUnsignedNumber(div_units_exec(self.0, rhs.0))
        }
    }

    fn rem(self, rhs: Self) -> (r: Self) {
        if rhs.0 == 0 {
            if self.0 < 0 {
                CssUnsignedNumber(CSS_NUMBER_MIN_UNITS)
            } else {
                CssUnsignedNumber(CSS_NUMBER_MAX_UNITS)
            }
        } else {
            CssUnsignedNumber(rem_units_exec(self.0, rhs.0))
        }
    }

    fn neg(self) -> (r: Self) {
        CssUnsignedNumber(-self.0)
    }
}

impl CssUnsignedNumber {
    /// Canonical decimal text of this number.
    pub fn to_css_string(self) -> (r: String)
        ensures
            r@ == css_decimal_chars(self.0 as int),
    {
        units_to_decimal_string(self.0)
    }
}

/// Two numbers that print identically always compare equal: the canonical
/// decimal text determines the value.
pub proof fn lemma_identical_text_implies_equal_numbers(a: CssUnsignedNumber, b: CssUnsignedNumber)
    requires
        css_decimal_chars(a.0 as int) == css_decimal_chars(b.0 as int),
    ensures
        a == b,
{
    crate::serialization::lemma_css_decimal_chars_injective(a.0 as int, b.0 as int);
}

/// The signed variant of the same law.
pub proof fn lemma_identical_text_implies_equal_signed_numbers(
    a: CssSignedNumber,
    b: CssSignedNumber,
)
    requires
        css_decimal_chars(a.0 as int) == css_decimal_chars(b.0 as int),
    ensures
        a == b,
{
    crate::serialization::lemma_css_decimal_chars_injective(a.0 as int, b.0 as int);
}

/// The signed numeric variant: construction accepts the whole bounded range.
#[derive(Debug, Clone, Copy, PartialEq, Eq, Structural, Hash, PartialOrd, Ord)]
pub struct CssSignedNumber(pub i64);

impl CssNumber for CssSignedNumber {
    open spec fn as_units(self) -> int {
        self.0 as int
    }

    open spec fn valid(self) -> bool {
        in_units_range(self.0 as int)
    }

    open spec fn construction_allowed(units: int) -> bool {
        in_units_range(units)
    }

    open spec fn construction_error(units: int) -> CssNumberConversionError {
        CssNumberConversionError::ValueWasOutOfRange
    }

    proof fn lemma_valid_in_range(self) {
    }

    fn zero() -> (r: Self) {
        CssSignedNumber(0)
    }

    fn one() -> (r: Self) {
        CssSignedNumber(CSS_NUMBER_SCALE)
    }

    fn minimum() -> (r: Self) {
        CssSignedNumber(CSS_NUMBER_MIN_UNITS)
    }

    fn maximum() -> (r: Self) {
        CssSignedNumber(CSS_NUMBER_MAX_UNITS)
    }

    fn new(units: i64) -> (r: Result<Self, CssNumberConversionError>) {
        if units < CSS_NUMBER_MIN_UNITS || units > CSS_NUMBER_MAX_UNITS {
            Err(CssNumberConversionError::ValueWasOutOfRange)
        } else {
            Ok(CssSignedNumber(units))
        }
    }

    fn to_units(self) -> (r: i64) {
        self.0
    }

    fn is_zero(self) -> (r: bool) {
        self.0 == 0
    }

    fn add(self, rhs: Self) -> (r: Self) {
        CssSignedNumber(add_units_exec(self.0, rhs.0))
    }

    fn sub(self, rhs: Self) -> (r: Self) {
        CssSignedNumber(sub_units_exec(self.0, rhs.0))
    }

    fn mul(self, rhs: Self) -> (r: Self) {
        CssSignedNumber(mul_units_exec(self.0, rhs.0))
    }

    fn div(self, rhs: Self) -> (r: Self) {
        if rhs.0 == 0 {
            if self.0 < 0 {
                CssSignedNumber(CSS_NUMBER_MIN_UNITS)
            } else {
                CssSignedNumber(CSS_NUMBER_MAX_UNITS)
            }
        } else {
            CssSignedNumber(div_units_exec(self.0, rhs.0))
        }
    }

    fn rem(self, rhs: Self) -> (r: Self) {
        if rhs.0 == 0 {
            if self.0 < 0 {
                CssSignedNumber(CSS_NUMBER_MIN_UNITS)
            } else {
                CssSignedNumber(CSS_NUMBER_MAX_UNITS)
            }
        } else {
            CssSignedNumber(rem_units_exec(self.0, rhs.0))
        }
    }

    fn neg(self) -> (r: Self) {
        CssSignedNumber(-self.0)
    }
}

impl CssSignedNumber {
    /// Canonical decimal text of this number.
    pub fn to_css_string(self) -> (r: String)
        ensures
            r@ == css_decimal_chars(self.0 as int),
    {
        units_to_decimal_string(self.0)
    }
}

} // verus!
