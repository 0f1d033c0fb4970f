//! Operations on one or two scalar lanes.
use rand::rngs::StdRng;
use vstd::prelude::*;

use crate::float::{
    arith_float, compare, fits_float, fits_single, float_arith, float_order, is_nan, is_zero,
    order_key, single_from_int, single_from_u64, single_product,
    single_quotient, single_scalbn, single_scaled, single_sum, FloatOrder, RoundingMode,
};
use crate::lane::{ArithOp, LaneType, modulus};
use crate::random::{draw_bool, draw_u64};

verus! {

/// Why an instruction was refused.
#[derive(Clone, Copy, Debug, PartialEq, Eq, Structural)]
pub enum SimdError {
    /// An immediate operand has reserved bits set.
    InvalidImmediate,
    /// The instruction needs a target feature that is not enabled.
    MissingTargetFeature,
    /// A rounding-mode immediate outside the encodable range.
    UnsupportedRoundingMode,
    /// A memory access falls outside the memory handed in.
    OutOfBounds,
}

/// A binary operation on float lanes.
#[derive(Clone, Copy, Debug, PartialEq, Eq, Structural)]
pub enum FloatBinOp {
    /// Arithmetic operation.
    Arith(ArithOp),
    /// Comparison: the operands are compared, and one of the four booleans
    /// is the result, depending on which class the pair falls into.
    Cmp {
        /// Result when lhs > rhs.
        gt: bool,
        /// Result when lhs < rhs.
        lt: bool,
        /// Result when lhs == rhs.
        eq: bool,
        /// Result when lhs or rhs is NaN.
        unord: bool,
    },
    /// Minimum, with the hardware's handling of zeros and NaN.
    Min,
    /// Maximum, with the hardware's handling of zeros and NaN.
    Max,
}

/// The boolean that a comparison selects for the order of its operands.
pub open spec fn cmp_select(gt: bool, lt: bool, eq: bool, unord: bool, o: FloatOrder) -> bool {
    match o {
        FloatOrder::Greater => gt,
        FloatOrder::Less => lt,
        FloatOrder::Equal => eq,
        FloatOrder::Unordered => unord,
    }
}

/// The comparison predicate that bits 0..=3 of an immediate name:
/// bits 0..=2 pick one of eq, lt, le, unord, neq, nlt, nle, ord, and bit 3
/// inverts the result for unordered operands.
pub open spec fn compare_predicate(imm: int, o: FloatOrder) -> bool {
    let p = imm % 8;
    let base = if p == 0 {
        o is Equal
    } else if p == 1 {
        o is Less
    } else if p == 2 {
        o is Less || o is Equal
    } else if p == 3 {
        o is Unordered
    } else if p == 4 {
        !(o is Equal)
    } else if p == 5 {
        !(o is Less)
    } else if p == 6 {
        !(o is Less || o is Equal)
    } else {
        !(o is Unordered)
    };
    if (imm / 8) % 2 == 1 && o is Unordered {
        !base
    } else {
        base
    }
}

/// `op` is the comparison that the immediate `imm` names: for every order
/// of the operands it selects the outcome of the predicate.
pub open spec fn cmp_decoded(imm: i8, op: FloatBinOp) -> bool {
    &&& op is Cmp
    &&& forall|o: FloatOrder|
        #![trigger cmp_select(op->gt, op->lt, op->eq, op->unord, o)]
        #![trigger compare_predicate(imm as int, o)]
        cmp_select(op->gt, op->lt, op->eq, op->unord, o) == compare_predicate(imm as int, o)
}

/// Only bits 0..=4 of a comparison immediate may be set.
pub open spec fn cmp_imm_valid(imm: i8) -> bool {
    0 <= imm < 32
}

/// Bit 3 of a comparison immediate, which needs AVX.
pub open spec fn cmp_imm_needs_avx(imm: i8) -> bool {
    (imm / 8) % 2 == 1
}

impl FloatBinOp {
    /// Decodes the immediate that selects a comparison predicate.
    ///
    /// Bit 4 (quiet or signaling) is ignored. Bit 3 is only accepted when
    /// `has_avx` holds; the feature is asked for only when that bit is set.
    pub fn cmp_from_imm(imm: i8, has_avx: bool) -> (r: Result<FloatBinOp, SimdError>)
        ensures
            !cmp_imm_valid(imm) ==> r == Err::<FloatBinOp, SimdError>(SimdError::InvalidImmediate),
            cmp_imm_valid(imm) && cmp_imm_needs_avx(imm) && !has_avx ==> r == Err::<
                FloatBinOp,
                SimdError,
            >(SimdError::MissingTargetFeature),
            cmp_imm_valid(imm) && (!cmp_imm_needs_avx(imm) || has_avx) ==> (r matches Ok(op)
                && cmp_decoded(imm, op)),
    {
        if imm < 0 || imm >= 32 {
            return Err(SimdError::InvalidImmediate);
        }
        let (gt, lt, eq, mut unord) = match imm % 8 {
            0 => (false, false, true, false),
            1 => (false, true, false, false),
            2 => (false, true, true, false),
            3 => (false, false, false, true),
            4 => (true, true, false, true),
            5 => (true, false, true, true),
            6 => (true, false, false, true),
            _ => (true, true, true, false),
        };
        if (imm / 8) % 2 == 1 {
            if !has_avx {
                return Err(SimdError::MissingTargetFeature);
            }
            unord = !unord;
        }
        Ok(FloatBinOp::Cmp { gt, lt, eq, unord })
    }
}

/// A lane of width `w` with all bits set when `b` holds, else zero.
pub open spec fn mask_lane(b: bool, w: nat) -> u64 {
    if b {
        (modulus(w) - 1) as u64
    } else {
        0
    }
}

/// Minimum with hardware semantics: when both are zero or either is NaN,
/// the second operand.
pub open spec fn sse_min(a: u64, b: u64, ty: LaneType) -> u64 {
    if (is_zero(a, ty) && is_zero(b, ty)) || is_nan(a, ty) || is_nan(b, ty) || order_key(a, ty)
        >= order_key(b, ty) {
        b
    } else {
        a
    }
}

/// Maximum with hardware semantics: when both are zero or either is NaN,
/// the second operand.
pub open spec fn sse_max(a: u64, b: u64, ty: LaneType) -> u64 {
    if (is_zero(a, ty) && is_zero(b, ty)) || is_nan(a, ty) || is_nan(b, ty) || order_key(a, ty)
        <= order_key(b, ty) {
        b
    } else {
        a
    }
}

/// The result of a binary float operation on two lanes of type `ty`.
pub open spec fn float_bin(which: FloatBinOp, a: u64, b: u64, ty: LaneType) -> u64 {
    match which {
        FloatBinOp::Arith(op) => float_arith(op, a, b, ty),
        FloatBinOp::Cmp { gt, lt, eq, unord } => mask_lane(
            cmp_select(gt, lt, eq, unord, float_order(a, b, ty)),
            ty.width(),
        ),
        FloatBinOp::Min => sse_min(a, b, ty),
        FloatBinOp::Max => sse_max(a, b, ty),
    }
}

/// Whether a float lane is NaN, read from its bits.
pub fn lane_is_nan(b: u64, ty: LaneType) -> (r: bool)
    requires
        ty.is_float(),
    ensures
        r == is_nan(b, ty),
{
    match ty {
        LaneType::Float32 => b % 0x8000_0000 > 0x7F80_0000,
        _ => b % 0x8000_0000_0000_0000 > 0x7FF0_0000_0000_0000,
    }
}

/// Performs `which` on `left` and `right`, two float lanes of type `ty`.
pub fn bin_op_float(which: FloatBinOp, left: u64, right: u64, ty: LaneType) -> (r: u64)
    requires
        ty.is_float(),
        fits_float(left, ty),
        fits_float(right, ty),
    ensures
        r == float_bin(which, left, right, ty),
        fits_float(r, ty),
{
    match which {
        FloatBinOp::Arith(op) => arith_float(op, left, right, ty),
        FloatBinOp::Cmp { gt, lt, eq, unord } => {
            let res = match compare(left, right, ty) {
                FloatOrder::Unordered => unord,
                FloatOrder::Less => lt,
                FloatOrder::Equal => eq,
                FloatOrder::Greater => gt,
            };
            let ones: u64 = match ty {
                LaneType::Float32 => 0xFFFF_FFFF,
                _ => 0xFFFF_FFFF_FFFF_FFFF,
            };
            proof {
                crate::lane::lemma_widths();
            }
            if res {
                ones
            } else {
                0
            }
        },
        FloatBinOp::Min => {
            // A zero compares equal to +0.0, whose bits are all zero.
            let both_zero = compare(left, 0, ty) == FloatOrder::Equal && compare(right, 0, ty)
                == FloatOrder::Equal;
            let o = compare(left, right, ty);
            if both_zero || lane_is_nan(left, ty) || lane_is_nan(right, ty) || o
                == FloatOrder::Greater || o == FloatOrder::Equal {
                right
            } else {
                left
            }
        },
        FloatBinOp::Max => {
            let both_zero = compare(left, 0, ty) == FloatOrder::Equal && compare(right, 0, ty)
                == FloatOrder::Equal;
            let o = compare(left, right, ty);
            if both_zero || lane_is_nan(left, ty) || lane_is_nan(right, ty) || o == FloatOrder::Less
                || o == FloatOrder::Equal {
                right
            } else {
                left
            }
        },
    }
}

/// A unary operation on binary32 lanes.
#[derive(Clone, Copy, Debug, PartialEq, Eq, Structural)]
pub enum FloatUnaryOp {
    /// Square root.
    Sqrt,
    /// Approximation of `1/x`.
    Rcp,
    /// Approximation of `1/sqrt(x)`.
    Rsqrt,
}

/// A binary32 lane with its sign flipped.
pub open spec fn negated_single(b: u64) -> u64 {
    if b >= 0x8000_0000 {
        (b - 0x8000_0000) as u64
    } else {
        (b + 0x8000_0000) as u64
    }
}

/// `val * (1 + err)`, where `err` is `draw * 2^(scale - 64)`, negated when
/// `negative` holds: a relative error below `2^scale` in magnitude.
pub open spec fn perturbed(val: u64, scale: int, draw: u64, negative: bool) -> u64 {
    let err = single_scaled(single_from_int(draw), scale - 64);
    let err = if negative {
        negated_single(err)
    } else {
        err
    };
    single_product(val, single_sum(single_from_int(1), err))
}

/// Disturbs the binary32 lane `val` by a relative error on the order of
/// `2^err_scale`, made from the random draws `draw` and `negative`.
pub fn apply_random_float_error(val: u64, err_scale: i32, draw: u64, negative: bool) -> (r: u64)
    requires
        fits_single(val),
        err_scale >= i32::MIN + 64,
    ensures
        r == perturbed(val, err_scale as int, draw, negative),
        fits_single(r),
{
    let err = single_scalbn(single_from_u64(draw), err_scale - 64);
    let err = if negative {
        if err >= 0x8000_0000 {
            err - 0x8000_0000
        } else {
            err + 0x8000_0000
        }
    } else {
        err
    };
    let one = single_from_u64(1);
    let factor = arith_float(ArithOp::Add, one, err, LaneType::Float32);
    arith_float(ArithOp::Mul, val, factor, LaneType::Float32)
}

/// The lane an approximation instruction may return for the exact value
/// `exact`: the value disturbed by some draw of the random source.
pub open spec fn approximates(r: u64, exact: u64) -> bool {
    exists|draw: u64, negative: bool| r == #[trigger] perturbed(exact, -12, draw, negative)
}

/// What `which` may return on the binary32 lane `op`, whose square root as
/// the host computes it is `root`.
pub open spec fn unary_result(which: FloatUnaryOp, op: u64, root: u64, r: u64) -> bool {
    match which {
        FloatUnaryOp::Sqrt => r == root,
        FloatUnaryOp::Rcp => approximates(r, single_quotient(single_from_int(1), op)),
        FloatUnaryOp::Rsqrt => approximates(r, single_quotient(single_from_int(1), root)),
    }
}

/// Performs `which` on the binary32 lane `op`. `root` is the square root of
/// `op` as the host computes it; the approximations draw a 64-bit value and
/// then a sign from `rng`, and the square root leaves `rng` untouched.
pub fn unary_op_f32(which: FloatUnaryOp, op: u64, root: u64, rng: &mut StdRng) -> (r: u64)
    requires
        fits_single(op),
        fits_single(root),
    ensures
        unary_result(which, op, root, r),
        fits_single(r),
        which is Sqrt ==> *final(rng) == *old(rng),
{
    match which {
        FloatUnaryOp::Sqrt => root,
        FloatUnaryOp::Rcp => {
            let one = single_from_u64(1);
            let div = arith_float(ArithOp::Div, one, op, LaneType::Float32);
            let draw = draw_u64(rng);
            let negative = draw_bool(rng);
            apply_random_float_error(div, -12, draw, negative)
        },
        FloatUnaryOp::Rsqrt => {
            let one = single_from_u64(1);
            let rsqrt = arith_float(ArithOp::Div, one, root, LaneType::Float32);
            let draw = draw_u64(rng);
            let negative = draw_bool(rng);
            apply_random_float_error(rsqrt, -12, draw, negative)
        },
    }
}

/// The rounding mode that a rounding immediate selects, if it is valid:
/// bit 3 is ignored; with bit 2 clear bits 0..=1 pick the mode, with bit 2
/// set the status register's default (nearest, ties to even) applies.
pub open spec fn rounding_of(imm: i32) -> Option<RoundingMode> {
    if imm < 0 || imm >= 16 {
        None
    } else if imm % 8 == 1 {
        Some(RoundingMode::TowardNegative)
    } else if imm % 8 == 2 {
        Some(RoundingMode::TowardPositive)
    } else if imm % 8 == 3 {
        Some(RoundingMode::TowardZero)
    } else {
        Some(RoundingMode::NearestTiesToEven)
    }
}

/// Decodes the rounding-mode immediate of the round instructions.
pub fn rounding_from_imm(rounding: i32) -> (r: Result<RoundingMode, SimdError>)
    ensures
        match rounding_of(rounding) {
            Some(m) => r == Ok::<RoundingMode, SimdError>(m),
            None => r == Err::<RoundingMode, SimdError>(SimdError::UnsupportedRoundingMode),
        },
{
    if rounding < 0 || rounding >= 16 {
        return Err(SimdError::UnsupportedRoundingMode);
    }
    match rounding % 8 {
        1 => Ok(RoundingMode::TowardNegative),
        2 => Ok(RoundingMode::TowardPositive),
        3 => Ok(RoundingMode::TowardZero),
        _ => Ok(RoundingMode::NearestTiesToEven),
    }
}

} // verus!
