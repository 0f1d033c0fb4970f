//! IEEE-754 binary32 and binary64 lanes held as bit patterns.
//!
//! What the order of two floats is, and when a float is NaN or zero, is
//! stated here on the bits. Arithmetic, rounding and conversion come from
//! `rustc_apfloat`, a software implementation of IEEE-754; each result of it
//! that takes pages to state has a name below.
use rustc_apfloat::ieee::{Double, Single};
use rustc_apfloat::{Float, Round, Status};
use std::cmp::Ordering;
use vstd::arithmetic::power2::pow2;
use vstd::prelude::*;

use crate::lane::{valid_width, ArithOp, LaneType};

verus! {

/// Where the first operand of a comparison stands relative to the second.
#[derive(Clone, Copy, Debug, PartialEq, Eq, Structural)]
pub enum FloatOrder {
    Less,
    Equal,
    Greater,
    /// One of the operands is NaN.
    Unordered,
}

/// The IEEE-754 rounding-direction attributes that instructions can select.
#[derive(Clone, Copy, Debug, PartialEq, Eq, Structural)]
pub enum RoundingMode {
    NearestTiesToEven,
    TowardNegative,
    TowardPositive,
    TowardZero,
}

/// The value of the sign bit of a float lane.
pub open spec fn sign_bit(ty: LaneType) -> int {
    if ty is Float32 {
        0x8000_0000
    } else {
        0x8000_0000_0000_0000
    }
}

/// The magnitude bits of an infinity: exponent all ones, fraction zero.
pub open spec fn infinity_bits(ty: LaneType) -> int {
    if ty is Float32 {
        0x7F80_0000
    } else {
        0x7FF0_0000_0000_0000
    }
}

/// The bits of a float lane without its sign.
pub open spec fn magnitude(b: u64, ty: LaneType) -> int {
    (b as int) % sign_bit(ty)
}

pub open spec fn is_negative(b: u64, ty: LaneType) -> bool {
    b >= sign_bit(ty)
}

/// NaN: exponent all ones and a fraction that is not zero.
pub open spec fn is_nan(b: u64, ty: LaneType) -> bool {
    magnitude(b, ty) > infinity_bits(ty)
}

/// Positive or negative zero.
pub open spec fn is_zero(b: u64, ty: LaneType) -> bool {
    magnitude(b, ty) == 0
}

/// For floats that are not NaN, the order of the values is the order of
/// the sign-magnitude integers that their bits spell (both zeros map to 0).
pub open spec fn order_key(b: u64, ty: LaneType) -> int {
    if is_negative(b, ty) {
        -magnitude(b, ty)
    } else {
        magnitude(b, ty)
    }
}

/// The IEEE-754 partial order of two floats of type `ty`.
pub open spec fn float_order(a: u64, b: u64, ty: LaneType) -> FloatOrder {
    if is_nan(a, ty) || is_nan(b, ty) {
        FloatOrder::Unordered
    } else if order_key(a, ty) < order_key(b, ty) {
        FloatOrder::Less
    } else if order_key(a, ty) == order_key(b, ty) {
        FloatOrder::Equal
    } else {
        FloatOrder::Greater
    }
}

/// The exponent field of a float lane less its bias; for a normal value
/// `x`, `2^e <= |x| < 2^(e+1)`.
pub open spec fn unbiased_exponent(b: u64, ty: LaneType) -> int {
    if ty is Float32 {
        magnitude(b, ty) / 0x80_0000 - 127
    } else {
        magnitude(b, ty) / 0x10_0000_0000_0000 - 1023
    }
}

/// The fraction bits of a float lane.
pub open spec fn fraction(b: u64, ty: LaneType) -> int {
    magnitude(b, ty) % fraction_one(ty)
}

/// The weight of the leading 1 of a normal value's significand, in units
/// of the fraction field.
pub open spec fn fraction_one(ty: LaneType) -> int {
    if ty is Float32 {
        0x80_0000
    } else {
        0x10_0000_0000_0000
    }
}

/// A float lane too large in magnitude for a signed integer of `width`
/// bits, whatever the rounding: infinite, at least `2^(width-1)`, at most
/// `-2^width`, or negative with exponent `width - 1` and a magnitude of at
/// least `2^(width-1) + 1` (its fraction is worth one or more).
pub open spec fn beyond_int_range(b: u64, width: nat, ty: LaneType) -> bool {
    &&& !is_nan(b, ty)
    &&& {
        ||| unbiased_exponent(b, ty) >= width
        ||| !is_negative(b, ty) && unbiased_exponent(b, ty) >= width - 1
        ||| is_negative(b, ty) && unbiased_exponent(b, ty) == width - 1 && fraction(b, ty) * pow2(
            (width - 1) as nat,
        ) >= fraction_one(ty)
    }
}

/// Bits of a binary32 lane.
pub open spec fn fits_single(b: u64) -> bool {
    b < 0x1_0000_0000
}

/// Bits of a lane of float type `ty`.
pub open spec fn fits_float(b: u64, ty: LaneType) -> bool {
    ty is Float32 ==> fits_single(b)
}

/// Result of rustc_apfloat's binary32 `+` (round to nearest, ties to even).
pub uninterp spec fn single_sum(a: u64, b: u64) -> u64;

/// Result of rustc_apfloat's binary32 `-`.
pub uninterp spec fn single_difference(a: u64, b: u64) -> u64;

/// Result of rustc_apfloat's binary32 `*`.
pub uninterp spec fn single_product(a: u64, b: u64) -> u64;

/// Result of rustc_apfloat's binary32 `/`.
pub uninterp spec fn single_quotient(a: u64, b: u64) -> u64;

/// Result of rustc_apfloat's binary64 `+`.
pub uninterp spec fn double_sum(a: u64, b: u64) -> u64;

/// Result of rustc_apfloat's binary64 `-`.
pub uninterp spec fn double_difference(a: u64, b: u64) -> u64;

/// Result of rustc_apfloat's binary64 `*`.
pub uninterp spec fn double_product(a: u64, b: u64) -> u64;

/// Result of rustc_apfloat's binary64 `/`.
pub uninterp spec fn double_quotient(a: u64, b: u64) -> u64;

/// Result of rustc_apfloat's binary32 `round_to_integral`.
pub uninterp spec fn single_integral(a: u64, mode: RoundingMode) -> u64;

/// Result of rustc_apfloat's binary64 `round_to_integral`.
pub uninterp spec fn double_integral(a: u64, mode: RoundingMode) -> u64;

/// Result of rustc_apfloat's binary32 `to_i128_r` into a signed integer of
/// `width` bits: `None` where it reports an invalid operation or a range error.
pub uninterp spec fn single_to_int(a: u64, width: nat, mode: RoundingMode) -> Option<int>;

/// Result of rustc_apfloat's binary64 `to_i128_r`, as for binary32.
pub uninterp spec fn double_to_int(a: u64, width: nat, mode: RoundingMode) -> Option<int>;

/// Result of rustc_apfloat's binary32 `from_u128` (round to nearest).
pub uninterp spec fn single_from_int(x: u64) -> u64;

/// Result of rustc_apfloat's binary32 `scalbn`: `a * 2^e`, rounded.
pub uninterp spec fn single_scaled(a: u64, e: int) -> u64;

/// Relies on `PartialOrd for rustc_apfloat::ieee::IeeeFloat` (binary32):
/// NaN on either side is unordered, both zeros are equal, and other values
/// are ordered by sign, then exponent, then significand.
#[verifier::external_body]
fn single_compare(a: u64, b: u64) -> (r: FloatOrder)
    requires
        fits_single(a),
        fits_single(b),
    ensures
        r == float_order(a, b, LaneType::Float32),
{
    match Single::from_bits(a as u128).partial_cmp(&Single::from_bits(b as u128)) {
        None => FloatOrder::Unordered,
        Some(Ordering::Less) => FloatOrder::Less,
        Some(Ordering::Equal) => FloatOrder::Equal,
        Some(Ordering::Greater) => FloatOrder::Greater,
    }
}

/// Relies on `PartialOrd for rustc_apfloat::ieee::IeeeFloat` (binary64), as
/// for binary32.
#[verifier::external_body]
fn double_compare(a: u64, b: u64) -> (r: FloatOrder)
    ensures
        r == float_order(a, b, LaneType::Float64),
{
    match Double::from_bits(a as u128).partial_cmp(&Double::from_bits(b as u128)) {
        None => FloatOrder::Unordered,
        Some(Ordering::Less) => FloatOrder::Less,
        Some(Ordering::Equal) => FloatOrder::Equal,
        Some(Ordering::Greater) => FloatOrder::Greater,
    }
}

/// The IEEE-754 order of two float lanes of type `ty`.
pub fn compare(a: u64, b: u64, ty: LaneType) -> (r: FloatOrder)
    requires
        ty.is_float(),
        fits_float(a, ty),
        fits_float(b, ty),
    ensures
        r == float_order(a, b, ty),
{
    match ty {
        LaneType::Float32 => single_compare(a, b),
        _ => double_compare(a, b),
    }
}

/// Relies on rustc_apfloat's `+` on binary32; its bits are named `single_sum`.
#[verifier::external_body]
fn single_add(a: u64, b: u64) -> (r: u64)
    requires
        fits_single(a),
        fits_single(b),
    ensures
        r == single_sum(a, b),
        fits_single(r),
{
    (Single::from_bits(a as u128) + Single::from_bits(b as u128)).value.to_bits() as u64
}

/// Relies on rustc_apfloat's `-` on binary32; its bits are named `single_difference`.
#[verifier::external_body]
fn single_sub(a: u64, b: u64) -> (r: u64)
    requires
        fits_single(a),
        fits_single(b),
    ensures
        r == single_difference(a, b),
        fits_single(r),
{
    (Single::from_bits(a as u128) - Single::from_bits(b as u128)).value.to_bits() as u64
}

/// Relies on rustc_apfloat's `*` on binary32; its bits are named `single_product`.
#[verifier::external_body]
fn single_mul(a: u64, b: u64) -> (r: u64)
    requires
        fits_single(a),
        fits_single(b),
    ensures
        r == single_product(a, b),
        fits_single(r),
{
    (Single::from_bits(a as u128) * Single::from_bits(b as u128)).value.to_bits() as u64
}

/// Relies on rustc_apfloat's `/` on binary32; its bits are named `single_quotient`.
#[verifier::external_body]
fn single_div(a: u64, b: u64) -> (r: u64)
    requires
        fits_single(a),
        fits_single(b),
    ensures
        r == single_quotient(a, b),
        fits_single(r),
{
    (Single::from_bits(a as u128) / Single::from_bits(b as u128)).value.to_bits() as u64
}

/// Relies on rustc_apfloat's `+` on binary64; its bits are named `double_sum`.
#[verifier::external_body]
fn double_add(a: u64, b: u64) -> (r: u64)
    ensures
        r == double_sum(a, b),
{
    (Double::from_bits(a as u128) + Double::from_bits(b as u128)).value.to_bits() as u64
}

/// Relies on rustc_apfloat's `-` on binary64; its bits are named `double_difference`.
#[verifier::external_body]
fn double_sub(a: u64, b: u64) -> (r: u64)
    ensures
        r == double_difference(a, b),
{
    (Double::from_bits(a as u128) - Double::from_bits(b as u128)).value.to_bits() as u64
}

/// Relies on rustc_apfloat's `*` on binary64; its bits are named `double_product`.
#[verifier::external_body]
fn double_mul(a: u64, b: u64) -> (r: u64)
    ensures
        r == double_product(a, b),
{
    (Double::from_bits(a as u128) * Double::from_bits(b as u128)).value.to_bits() as u64
}

/// Relies on rustc_apfloat's `/` on binary64; its bits are named `double_quotient`.
#[verifier::external_body]
fn double_div(a: u64, b: u64) -> (r: u64)
    ensures
        r == double_quotient(a, b),
{
    (Double::from_bits(a as u128) / Double::from_bits(b as u128)).value.to_bits() as u64
}

/// Relies on rustc_apfloat's `round_to_integral` on binary32.
#[verifier::external_body]
fn single_round(a: u64, mode: RoundingMode) -> (r: u64)
    requires
        fits_single(a),
    ensures
        r == single_integral(a, mode),
        fits_single(r),
{
    let round = match mode {
        RoundingMode::NearestTiesToEven => Round::NearestTiesToEven,
        RoundingMode::TowardNegative => Round::TowardNegative,
        RoundingMode::TowardPositive => Round::TowardPositive,
        RoundingMode::TowardZero => Round::TowardZero,
    };
    Single::from_bits(a as u128).round_to_integral(round).value.to_bits() as u64
}

/// Relies on rustc_apfloat's `round_to_integral` on binary64.
#[verifier::external_body]
fn double_round(a: u64, mode: RoundingMode) -> (r: u64)
    ensures
        r == double_integral(a, mode),
{
    let round = match mode {
        RoundingMode::NearestTiesToEven => Round::NearestTiesToEven,
        RoundingMode::TowardNegative => Round::TowardNegative,
        RoundingMode::TowardPositive => Round::TowardPositive,
        RoundingMode::TowardZero => Round::TowardZero,
    };
    Double::from_bits(a as u128).round_to_integral(round).value.to_bits() as u64
}

/// Relies on rustc_apfloat's `to_i128_r` on binary32: NaN and values out of
/// the signed range of `width` bits are reported as an invalid operation;
/// in particular a value whose exponent reaches `width` (or `width - 1`
/// when positive) is "hopelessly large", and a negative value whose
/// truncated magnitude exceeds `2^(width-1)` does not fit.
#[verifier::external_body]
fn single_to_i64(a: u64, width: u32, mode: RoundingMode) -> (r: Option<i64>)
    requires
        fits_single(a),
        valid_width(width as nat),
    ensures
        single_to_int(a, width as nat, mode) == (match r {
            Some(v) => Some(v as int),
            None => None,
        }),
        is_nan(a, LaneType::Float32) ==> r is None,
        beyond_int_range(a, width as nat, LaneType::Float32) ==> r is None,
        r matches Some(v) ==> -pow2((width - 1) as nat) <= v < pow2((width - 1) as nat),
{
    let round = match mode {
        RoundingMode::NearestTiesToEven => Round::NearestTiesToEven,
        RoundingMode::TowardNegative => Round::TowardNegative,
        RoundingMode::TowardPositive => Round::TowardPositive,
        RoundingMode::TowardZero => Round::TowardZero,
    };
    let res = Single::from_bits(a as u128).to_i128_r(width as usize, round, &mut false);
    if res.status.intersects(Status::INVALID_OP | Status::OVERFLOW | Status::UNDERFLOW) {
        None
    } else {
        Some(res.value as i64)
    }
}

/// Relies on rustc_apfloat's `to_i128_r` on binary64, as for binary32.
#[verifier::external_body]
fn double_to_i64(a: u64, width: u32, mode: RoundingMode) -> (r: Option<i64>)
    requires
        valid_width(width as nat),
    ensures
        double_to_int(a, width as nat, mode) == (match r {
            Some(v) => Some(v as int),
            None => None,
        }),
        is_nan(a, LaneType::Float64) ==> r is None,
        beyond_int_range(a, width as nat, LaneType::Float64) ==> r is None,
        r matches Some(v) ==> -pow2((width - 1) as nat) <= v < pow2((width - 1) as nat),
{
    let round = match mode {
        RoundingMode::NearestTiesToEven => Round::NearestTiesToEven,
        RoundingMode::TowardNegative => Round::TowardNegative,
        RoundingMode::TowardPositive => Round::TowardPositive,
        RoundingMode::TowardZero => Round::TowardZero,
    };
    let res = Double::from_bits(a as u128).to_i128_r(width as usize, round, &mut false);
    if res.status.intersects(Status::INVALID_OP | Status::OVERFLOW | Status::UNDERFLOW) {
        None
    } else {
        Some(res.value as i64)
    }
}

/// Relies on rustc_apfloat's `from_u128` on binary32.
#[verifier::external_body]
pub(crate) fn single_from_u64(x: u64) -> (r: u64)
    ensures
        r == single_from_int(x),
        fits_single(r),
{
    Single::from_u128(x as u128).value.to_bits() as u64
}

/// Relies on rustc_apfloat's `scalbn` on binary32.
#[verifier::external_body]
pub(crate) fn single_scalbn(a: u64, e: i32) -> (r: u64)
    requires
        fits_single(a),
    ensures
        r == single_scaled(a, e as int),
        fits_single(r),
{
    Single::from_bits(a as u128).scalbn(e).to_bits() as u64
}

/// The result of `op` on two float lanes of type `ty`.
pub open spec fn float_arith(op: ArithOp, a: u64, b: u64, ty: LaneType) -> u64 {
    if ty is Float32 {
        match op {
            ArithOp::Add => single_sum(a, b),
            ArithOp::Sub => single_difference(a, b),
            ArithOp::Mul => single_product(a, b),
            ArithOp::Div => single_quotient(a, b),
        }
    } else {
        match op {
            ArithOp::Add => double_sum(a, b),
            ArithOp::Sub => double_difference(a, b),
            ArithOp::Mul => double_product(a, b),
            ArithOp::Div => double_quotient(a, b),
        }
    }
}

/// Applies `op` to two float lanes of type `ty`.
pub fn arith_float(op: ArithOp, a: u64, b: u64, ty: LaneType) -> (r: u64)
    requires
        ty.is_float(),
        fits_float(a, ty),
        fits_float(b, ty),
    ensures
        r == float_arith(op, a, b, ty),
        fits_float(r, ty),
{
    match ty {
        LaneType::Float32 => match op {
            ArithOp::Add => single_add(a, b),
            ArithOp::Sub => single_sub(a, b),
            ArithOp::Mul => single_mul(a, b),
            ArithOp::Div => single_div(a, b),
        },
        _ => match op {
            ArithOp::Add => double_add(a, b),
            ArithOp::Sub => double_sub(a, b),
            ArithOp::Mul => double_mul(a, b),
            ArithOp::Div => double_div(a, b),
        },
    }
}

/// The lane `mode` rounds `a` to, for float type `ty`.
pub open spec fn float_integral(a: u64, mode: RoundingMode, ty: LaneType) -> u64 {
    if ty is Float32 {
        single_integral(a, mode)
    } else {
        double_integral(a, mode)
    }
}

/// Rounds a float lane of type `ty` to an integral value.
pub fn round_float(a: u64, mode: RoundingMode, ty: LaneType) -> (r: u64)
    requires
        ty.is_float(),
        fits_float(a, ty),
    ensures
        r == float_integral(a, mode, ty),
        fits_float(r, ty),
{
    match ty {
        LaneType::Float32 => single_round(a, mode),
        _ => double_round(a, mode),
    }
}

/// The signed integer of `width` bits that a float lane converts to, if any.
pub open spec fn float_to_int(a: u64, width: nat, mode: RoundingMode, ty: LaneType) -> Option<int> {
    if ty is Float32 {
        single_to_int(a, width, mode)
    } else {
        double_to_int(a, width, mode)
    }
}

/// Converts a float lane of type `ty` to a signed integer of `width` bits.
pub fn float_to_i64(a: u64, width: u32, mode: RoundingMode, ty: LaneType) -> (r: Option<i64>)
    requires
        ty.is_float(),
        fits_float(a, ty),
        valid_width(width as nat),
    ensures
        float_to_int(a, width as nat, mode, ty) == (match r {
            Some(v) => Some(v as int),
            None => None,
        }),
        is_nan(a, ty) ==> r is None,
        beyond_int_range(a, width as nat, ty) ==> r is None,
        r matches Some(v) ==> -pow2((width - 1) as nat) <= v < pow2((width - 1) as nat),
{
    match ty {
        LaneType::Float32 => single_to_i64(a, width, mode),
        _ => double_to_i64(a, width, mode),
    }
}

} // verus!
