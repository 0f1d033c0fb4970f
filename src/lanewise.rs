//! Operations applied lane by lane: on every lane, or on lane 0 alone with
//! the other lanes copied.
use vstd::arithmetic::power2::{lemma_pow2_adds, lemma_pow2_pos, pow2};
use rand::rngs::StdRng;
use vstd::prelude::*;

use crate::float::{
    beyond_int_range, fits_float, fits_single, float_integral, float_to_i64, float_to_int, is_nan,
    round_float, RoundingMode,
};
use crate::lane::{
    lanes_fit, lemma_widths, modulus, pow2_u128, signed_lane, signed_value, valid_width, wrap,
    wrap_lane, floor_div, LaneType, Vector,
};
use crate::scalar::{
    bin_op_float, float_bin, rounding_from_imm, rounding_of, unary_op_f32, unary_result,
    FloatBinOp, FloatUnaryOp, SimdError,
};

verus! {

/// The direction of a shift.
#[derive(Clone, Copy, Debug, PartialEq, Eq, Structural)]
pub enum ShiftOp {
    /// Shift left, shifting in zeros.
    Left,
    /// Shift right, shifting in zeros.
    RightLogic,
    /// Shift right, shifting in the sign bit.
    RightArith,
}

/// The lane of width `w` that shifting `a` by `amount` yields. A logical
/// shift by the width or more gives zero; an arithmetic one gives the sign
/// bit in every bit.
pub open spec fn shifted(which: ShiftOp, a: u64, amount: int, w: nat) -> u64 {
    match which {
        ShiftOp::Left => if amount >= w {
            0
        } else {
            ((a * pow2(amount as nat)) % modulus(w)) as u64
        },
        ShiftOp::RightLogic => if amount >= w {
            0
        } else {
            ((a as int) / (pow2(amount as nat) as int)) as u64
        },
        ShiftOp::RightArith => if amount >= w {
            if signed_value(a, w) < 0 {
                (modulus(w) - 1) as u64
            } else {
                0
            }
        } else {
            wrap(signed_value(a, w) / (pow2(amount as nat) as int), w)
        },
    }
}

/// An integer lane type of a valid width.
pub open spec fn int_lanes(v: &Vector) -> bool {
    v.ty.is_int() && valid_width(v.ty.width()) && v.wf()
}

/// Shifts one integer lane of width `w` by `amount`.
pub fn shift_lane(which: ShiftOp, a: u64, amount: u64, w: u32) -> (r: u64)
    requires
        valid_width(w as nat),
        a < modulus(w as nat),
    ensures
        r == shifted(which, a, amount as int, w as nat),
        r < modulus(w as nat),
{
    proof {
        lemma_widths();
        vstd::arithmetic::power2::lemma2_to64();
    }
    // Any amount of the width or more gives the same lane, so saturating
    // the amount to 32 bits changes nothing.
    let shift: u32 = if amount > u32::MAX as u64 {
        u32::MAX
    } else {
        amount as u32
    };
    let m = pow2_u128(w);
    if shift >= w {
        match which {
            ShiftOp::Left | ShiftOp::RightLogic => 0,
            ShiftOp::RightArith => {
                if signed_lane(a, w) < 0 {
                    (m - 1) as u64
                } else {
                    0
                }
            },
        }
    } else {
        let p = pow2_u128(shift);
        proof {
            vstd::arithmetic::power2::lemma_pow2_strictly_increases(shift as nat, w as nat);
            lemma_pow2_pos(shift as nat);
        }
        match which {
            ShiftOp::Left => {
                proof {
                    crate::lane::lemma_width_powers(w as nat);
                    vstd::arithmetic::mul::lemma_mul_inequality(
                        a as int,
                        0x1_0000_0000_0000_0000,
                        p as int,
                    );
                }
                ((a as u128 * p) % m) as u64
            },
            ShiftOp::RightLogic => {
                proof {
                    vstd::arithmetic::div_mod::lemma_div_is_ordered_by_denominator(
                        a as int,
                        1,
                        p as int,
                    );
                }
                (a as u128 / p) as u64
            },
            ShiftOp::RightArith => {
                let x = signed_lane(a, w);
                let q: i128 = if x >= 0 {
                    proof {
                        vstd::arithmetic::div_mod::lemma_div_is_ordered_by_denominator(
                            x as int,
                            1,
                            p as int,
                        );
                    }
                    (x as u128 / p) as i128
                } else {
                    let y = (-x) as u128;
                    proof {
                        crate::lane::lemma_floor_div_neg(y as int, p as int);
                        vstd::arithmetic::div_mod::lemma_div_is_ordered_by_denominator(
                            (y + p - 1) as int,
                            1,
                            p as int,
                        );
                    }
                    -(((y + p - 1) / p) as i128)
                };
                wrap_lane(q, w)
            },
        }
    }
}

/// The integer that the first `n` lanes of width `w` spell, lane 0 lowest.
pub open spec fn le_join(s: Seq<u64>, w: nat, n: nat) -> int
    decreases n,
{
    if n == 0 {
        0
    } else {
        le_join(s, w, (n - 1) as nat) + s[n - 1] * pow2(((n - 1) * w) as nat)
    }
}

proof fn lemma_le_join_bound(s: Seq<u64>, w: nat, n: nat)
    requires
        n <= s.len(),
        lanes_fit(s, w),
    ensures
        0 <= le_join(s, w, n) < pow2(n * w),
    decreases n,
{
    if n == 0 {
        vstd::arithmetic::power2::lemma2_to64();
    } else {
        let k = (n - 1) as nat;
        lemma_le_join_bound(s, w, k);
        assert(s[k as int] < modulus(w));
        let p = pow2(k * w);
        lemma_pow2_adds(k * w, w);
        lemma_pow2_pos(k * w);
        assert(k * w + w == n * w) by (nonlinear_arith)
            requires
                k + 1 == n,
        ;
        let x = s[k as int] as int;
        vstd::arithmetic::mul::lemma_mul_inequality(x + 1, pow2(w) as int, p as int);
        vstd::arithmetic::mul::lemma_mul_nonnegative(x, p as int);
        assert((x + 1) * p == x * p + p) by (nonlinear_arith);
        assert(pow2(w) * p == p * pow2(w)) by (nonlinear_arith);
        assert(le_join(s, w, n) == le_join(s, w, k) + x * p);
        assert(pow2(n * w) == p * pow2(w));
    }
}

/// The lowest 64 bits of `op` (at least 64 bits wide) as one integer.
pub fn extract_first_u64(op: &Vector) -> (r: u64)
    requires
        op.wf(),
        valid_width(op.ty.width()),
        op.lanes@.len() * op.ty.width() >= 64,
    ensures
        r == le_join(op.lanes@, op.ty.width(), 64nat / op.ty.width()),
{
    let w = op.ty.bits();
    let n = 64 / w;
    proof {
        lemma_widths();
        vstd::arithmetic::power2::lemma2_to64();
        assert(n <= op.lanes@.len()) by (nonlinear_arith)
            requires
                op.lanes@.len() * w >= 64,
                n == 64int / (w as int),
                w == 8 || w == 16 || w == 32 || w == 64,
        ;
        assert(n * w == 64);
    }
    let mut acc: u128 = 0;
    let mut k: u32 = 0;
    while k < n
        invariant
            w == op.ty.width(),
            valid_width(w as nat),
            n == 64int / (w as int),
            n * w == 64,
            n <= op.lanes@.len(),
            op.wf(),
            k <= n,
            acc == le_join(op.lanes@, w as nat, k as nat),
        decreases n - k,
    {
        proof {
            lemma_le_join_bound(op.lanes@, w as nat, (k + 1) as nat);
            assert((k + 1) * w <= 64) by (nonlinear_arith)
                requires
                    k < n,
                    n * w == 64,
            ;
            if (k + 1) * w < 64 {
                vstd::arithmetic::power2::lemma_pow2_strictly_increases(((k + 1) * w) as nat, 64);
            }
            assert(k * w < 64) by (nonlinear_arith)
                requires
                    k < n,
                    n * w == 64,
                    w > 0,
            ;
        }
        let p = pow2_u128(k * w);
        assert(le_join(op.lanes@, w as nat, (k + 1) as nat) == acc + op.lanes@[k as int] * p);
        proof {
            lemma_widths();
            assert(pow2(((k + 1) * w) as nat) <= 0x1_0000_0000_0000_0000);
            assert(acc + op.lanes@[k as int] * p < 0x1_0000_0000_0000_0000);
            vstd::arithmetic::mul::lemma_mul_nonnegative(op.lanes@[k as int] as int, p as int);
        }
        acc = acc + op.lanes[k as usize] as u128 * p;
        k = k + 1;
    }
    proof {
        lemma_le_join_bound(op.lanes@, w as nat, n as nat);
    }
    acc as u64
}

/// The shift amount that a vector supplies: its lowest 64 bits.
pub open spec fn first_u64(v: &Vector) -> int {
    le_join(v.lanes@, v.ty.width(), 64nat / v.ty.width())
}

/// Shifts each lane of `left` by one amount: the lowest 64 bits of `right`.
///
/// Logical shifts by the lane width or more give zero; arithmetic right
/// shifts by that much copy the sign bit into every bit.
pub fn shift_simd_by_scalar(left: &Vector, right: &Vector, which: ShiftOp) -> (r: Vector)
    requires
        int_lanes(left),
        right.wf(),
        right.lanes@.len() * right.ty.width() >= 64,
    ensures
        r.ty == left.ty,
        r.wf(),
        r.lanes@.len() == left.lanes@.len(),
        forall|i: int|
            0 <= i < r.lanes@.len() ==> #[trigger] r.lanes@[i] == shifted(
                which,
                left.lanes@[i],
                first_u64(right),
                left.ty.width(),
            ),
{
    let amount = extract_first_u64(right);
    let w = left.ty.bits();
    let n = left.lanes.len();
    let mut lanes: Vec<u64> = Vec::new();
    let mut i: usize = 0;
    while i < n
        invariant
            n == left.lanes@.len(),
            w == left.ty.width(),
            int_lanes(left),
            amount == first_u64(right),
            i <= n,
            lanes@.len() == i,
            forall|j: int|
                0 <= j < i ==> #[trigger] lanes@[j] == shifted(
                    which,
                    left.lanes@[j],
                    amount as int,
                    w as nat,
                ) && lanes@[j] < modulus(w as nat),
        decreases n - i,
    {
        lanes.push(shift_lane(which, left.lanes[i], amount, w));
        i = i + 1;
    }
    Vector { ty: left.ty, lanes }
}

/// Shifts each lane of `left` by the corresponding lane of `right`.
///
/// Logical shifts by the lane width or more give zero; arithmetic right
/// shifts by that much copy the sign bit into every bit.
pub fn shift_simd_by_simd(left: &Vector, right: &Vector, which: ShiftOp) -> (r: Vector)
    requires
        int_lanes(left),
        right.wf(),
        right.ty == left.ty,
        right.lanes@.len() == left.lanes@.len(),
    ensures
        r.ty == left.ty,
        r.wf(),
        r.lanes@.len() == left.lanes@.len(),
        forall|i: int|
            0 <= i < r.lanes@.len() ==> #[trigger] r.lanes@[i] == shifted(
                which,
                left.lanes@[i],
                right.lanes@[i] as int,
                left.ty.width(),
            ),
{
    let w = left.ty.bits();
    let n = left.lanes.len();
    let mut lanes: Vec<u64> = Vec::new();
    let mut i: usize = 0;
    while i < n
        invariant
            n == left.lanes@.len(),
            n == right.lanes@.len(),
            w == left.ty.width(),
            int_lanes(left),
            i <= n,
            lanes@.len() == i,
            forall|j: int|
                0 <= j < i ==> #[trigger] lanes@[j] == shifted(
                    which,
                    left.lanes@[j],
                    right.lanes@[j] as int,
                    w as nat,
                ) && lanes@[j] < modulus(w as nat),
        decreases n - i,
    {
        lanes.push(shift_lane(which, left.lanes[i], right.lanes[i], w));
        i = i + 1;
    }
    Vector { ty: left.ty, lanes }
}

/// A vector of float lanes.
pub open spec fn float_lanes(v: &Vector) -> bool {
    v.ty.is_float() && v.wf()
}

/// A vector of binary32 lanes.
pub open spec fn single_lanes(v: &Vector) -> bool {
    v.ty is Float32 && v.wf()
}

proof fn lemma_float_lanes(v: &Vector)
    requires
        float_lanes(v),
    ensures
        forall|i: int| 0 <= i < v.lanes@.len() ==> fits_float(#[trigger] v.lanes@[i], v.ty),
{
    lemma_widths();
}

/// Performs `which` on lane 0 of `left` and `right`; the other lanes are
/// copied from `left`.
pub fn bin_op_simd_float_first(which: FloatBinOp, left: &Vector, right: &Vector) -> (r: Vector)
    requires
        float_lanes(left),
        right.ty == left.ty,
        right.wf(),
        right.lanes@.len() == left.lanes@.len(),
        left.lanes@.len() > 0,
    ensures
        r.ty == left.ty,
        r.wf(),
        r.lanes@ == left.lanes@.update(
            0,
            float_bin(which, left.lanes@[0], right.lanes@[0], left.ty),
        ),
{
    proof {
        lemma_float_lanes(left);
        lemma_float_lanes(right);
        lemma_widths();
    }
    let res0 = bin_op_float(which, left.lanes[0], right.lanes[0], left.ty);
    let n = left.lanes.len();
    let mut lanes: Vec<u64> = Vec::new();
    lanes.push(res0);
    let mut i: usize = 1;
    while i < n
        invariant
            n == left.lanes@.len(),
            1 <= i <= n,
            lanes@.len() == i,
            lanes@[0] == res0,
            forall|j: int| 1 <= j < i ==> #[trigger] lanes@[j] == left.lanes@[j],
        decreases n - i,
    {
        lanes.push(left.lanes[i]);
        i = i + 1;
    }
    let r = Vector { ty: left.ty, lanes };
    assert(r.lanes@ =~= left.lanes@.update(0, res0));
    r
}

/// Performs `which` on each lane of `left` and `right`.
pub fn bin_op_simd_float_all(which: FloatBinOp, left: &Vector, right: &Vector) -> (r: Vector)
    requires
        float_lanes(left),
        right.ty == left.ty,
        right.wf(),
        right.lanes@.len() == left.lanes@.len(),
    ensures
        r.ty == left.ty,
        r.wf(),
        r.lanes@.len() == left.lanes@.len(),
        forall|i: int|
            0 <= i < r.lanes@.len() ==> #[trigger] r.lanes@[i] == float_bin(
                which,
                left.lanes@[i],
                right.lanes@[i],
                left.ty,
            ),
{
    proof {
        lemma_float_lanes(left);
        lemma_float_lanes(right);
        lemma_widths();
    }
    let n = left.lanes.len();
    let mut lanes: Vec<u64> = Vec::new();
    let mut i: usize = 0;
    while i < n
        invariant
            n == left.lanes@.len(),
            n == right.lanes@.len(),
            left.ty.is_float(),
            right.ty == left.ty,
            forall|j: int| 0 <= j < n ==> fits_float(#[trigger] left.lanes@[j], left.ty),
            forall|j: int| 0 <= j < n ==> fits_float(#[trigger] right.lanes@[j], left.ty),
            i <= n,
            lanes@.len() == i,
            forall|j: int|
                0 <= j < i ==> #[trigger] lanes@[j] == float_bin(
                    which,
                    left.lanes@[j],
                    right.lanes@[j],
                    left.ty,
                ) && fits_float(lanes@[j], left.ty),
        decreases n - i,
    {
        lanes.push(bin_op_float(which, left.lanes[i], right.lanes[i], left.ty));
        i = i + 1;
    }
    Vector { ty: left.ty, lanes }
}

/// Performs `which` on lane 0 of the binary32 vector `op`; the other lanes
/// are copied. `root` is the square root of lane 0 as the host computes it.
pub fn unary_op_ss(which: FloatUnaryOp, op: &Vector, root: u64, rng: &mut StdRng) -> (r: Vector)
    requires
        single_lanes(op),
        op.lanes@.len() > 0,
        fits_single(root),
    ensures
        r.ty == op.ty,
        r.wf(),
        r.lanes@.len() == op.lanes@.len(),
        unary_result(which, op.lanes@[0], root, r.lanes@[0]),
        forall|i: int| 1 <= i < r.lanes@.len() ==> #[trigger] r.lanes@[i] == op.lanes@[i],
        which is Sqrt ==> *final(rng) == *old(rng),
{
    proof {
        lemma_float_lanes(op);
        lemma_widths();
    }
    let res0 = unary_op_f32(which, op.lanes[0], root, rng);
    let n = op.lanes.len();
    let mut lanes: Vec<u64> = Vec::new();
    lanes.push(res0);
    let mut i: usize = 1;
    while i < n
        invariant
            n == op.lanes@.len(),
            1 <= i <= n,
            lanes@.len() == i,
            lanes@[0] == res0,
            forall|j: int| 1 <= j < i ==> #[trigger] lanes@[j] == op.lanes@[j],
        decreases n - i,
    {
        lanes.push(op.lanes[i]);
        i = i + 1;
    }
    Vector { ty: op.ty, lanes }
}

/// Performs `which` on each lane of the binary32 vector `op`, in ascending
/// lane order. `roots` holds the square root of each lane as the host
/// computes it.
pub fn unary_op_ps(which: FloatUnaryOp, op: &Vector, roots: &Vec<u64>, rng: &mut StdRng) -> (r:
    Vector)
    requires
        single_lanes(op),
        roots@.len() == op.lanes@.len(),
        forall|i: int| 0 <= i < roots@.len() ==> fits_single(#[trigger] roots@[i]),
    ensures
        r.ty == op.ty,
        r.wf(),
        r.lanes@.len() == op.lanes@.len(),
        forall|i: int|
            0 <= i < r.lanes@.len() ==> unary_result(
                which,
                op.lanes@[i],
                roots@[i],
                #[trigger] r.lanes@[i],
            ),
        which is Sqrt ==> *final(rng) == *old(rng),
{
    proof {
        lemma_float_lanes(op);
        lemma_widths();
    }
    let ghost start = *rng;
    let n = op.lanes.len();
    let mut lanes: Vec<u64> = Vec::new();
    let mut i: usize = 0;
    while i < n
        invariant
            n == op.lanes@.len(),
            n == roots@.len(),
            op.ty is Float32,
            start == *old(rng),
            which is Sqrt ==> *rng == start,
            forall|j: int| 0 <= j < n ==> fits_single(#[trigger] op.lanes@[j]),
            forall|j: int| 0 <= j < n ==> fits_single(#[trigger] roots@[j]),
            i <= n,
            lanes@.len() == i,
            forall|j: int|
                0 <= j < i ==> unary_result(which, op.lanes@[j], roots@[j], #[trigger] lanes@[j])
                    && fits_single(lanes@[j]),
        decreases n - i,
    {
        let res = unary_op_f32(which, op.lanes[i], roots[i], rng);
        lanes.push(res);
        i = i + 1;
    }
    Vector { ty: op.ty, lanes }
}

/// Rounds lane 0 of `right` with the mode that `rounding` selects; the
/// other lanes are copied from `left`.
pub fn round_first(left: &Vector, right: &Vector, rounding: i32) -> (r: Result<Vector, SimdError>)
    requires
        float_lanes(left),
        right.ty == left.ty,
        right.wf(),
        right.lanes@.len() == left.lanes@.len(),
        left.lanes@.len() > 0,
    ensures
        rounding_of(rounding) is None <==> r == Err::<Vector, SimdError>(
            SimdError::UnsupportedRoundingMode,
        ),
        rounding_of(rounding) matches Some(mode) ==> (r matches Ok(v) && v.ty == left.ty && v.wf()
            && v.lanes@ == left.lanes@.update(
            0,
            float_integral(right.lanes@[0], mode, left.ty),
        )),
{
    proof {
        lemma_float_lanes(left);
        lemma_float_lanes(right);
        lemma_widths();
    }
    let mode = match rounding_from_imm(rounding) {
        Ok(m) => m,
        Err(e) => {
            return Err(e);
        },
    };
    let res0 = round_float(right.lanes[0], mode, left.ty);
    let n = left.lanes.len();
    let mut lanes: Vec<u64> = Vec::new();
    lanes.push(res0);
    let mut i: usize = 1;
    while i < n
        invariant
            n == left.lanes@.len(),
            1 <= i <= n,
            lanes@.len() == i,
            lanes@[0] == res0,
            forall|j: int| 1 <= j < i ==> #[trigger] lanes@[j] == left.lanes@[j],
        decreases n - i,
    {
        lanes.push(left.lanes[i]);
        i = i + 1;
    }
    let r = Vector { ty: left.ty, lanes };
    assert(r.lanes@ =~= left.lanes@.update(0, res0));
    Ok(r)
}

/// Rounds every lane of `op` with the mode that `rounding` selects.
pub fn round_all(op: &Vector, rounding: i32) -> (r: Result<Vector, SimdError>)
    requires
        float_lanes(op),
    ensures
        rounding_of(rounding) is None <==> r == Err::<Vector, SimdError>(
            SimdError::UnsupportedRoundingMode,
        ),
        rounding_of(rounding) matches Some(mode) ==> (r matches Ok(v) && v.ty == op.ty && v.wf()
            && v.lanes@.len() == op.lanes@.len() && forall|i: int|
            0 <= i < v.lanes@.len() ==> #[trigger] v.lanes@[i] == float_integral(
                op.lanes@[i],
                mode,
                op.ty,
            )),
{
    proof {
        lemma_float_lanes(op);
        lemma_widths();
    }
    let mode = match rounding_from_imm(rounding) {
        Ok(m) => m,
        Err(e) => {
            return Err(e);
        },
    };
    let n = op.lanes.len();
    let mut lanes: Vec<u64> = Vec::new();
    let mut i: usize = 0;
    while i < n
        invariant
            n == op.lanes@.len(),
            op.ty.is_float(),
            forall|j: int| 0 <= j < n ==> fits_float(#[trigger] op.lanes@[j], op.ty),
            i <= n,
            lanes@.len() == i,
            forall|j: int|
                0 <= j < i ==> #[trigger] lanes@[j] == float_integral(op.lanes@[j], mode, op.ty)
                    && fits_float(lanes@[j], op.ty),
        decreases n - i,
    {
        lanes.push(round_float(op.lanes[i], mode, op.ty));
        i = i + 1;
    }
    Ok(Vector { ty: op.ty, lanes })
}

/// The signed integer that a float-to-integer conversion gives: on NaN or
/// a value out of range, the most negative integer of the width.
pub open spec fn int_or_min(conv: Option<int>, w: nat) -> u64 {
    match conv {
        Some(v) => wrap(v, w),
        None => wrap(-pow2((w - 1) as nat), w),
    }
}

/// Converts the float lanes of `op` to signed integers of type `dest_ty`,
/// rounding with `rnd`; NaN and values out of range give the most negative
/// integer. A result of `dest_len` lanes: lanes of `op` beyond it are
/// ignored, and lanes that `op` lacks are zero.
pub fn convert_float_to_int(op: &Vector, rnd: RoundingMode, dest_ty: LaneType, dest_len: usize) -> (r:
    Vector)
    requires
        float_lanes(op),
        dest_ty.is_signed_int(),
    ensures
        r.ty == dest_ty,
        r.wf(),
        r.lanes@.len() == dest_len,
        forall|i: int|
            0 <= i < dest_len && i < op.lanes@.len() ==> #[trigger] r.lanes@[i] == int_or_min(
                float_to_int(op.lanes@[i], dest_ty.width(), rnd, op.ty),
                dest_ty.width(),
            ),
        forall|i: int|
            0 <= i < dest_len && i < op.lanes@.len() && (is_nan(op.lanes@[i], op.ty)
                || beyond_int_range(op.lanes@[i], dest_ty.width(), op.ty)) ==> #[trigger] r.lanes@[i]
                == wrap(
                -pow2((dest_ty.width() - 1) as nat),
                dest_ty.width(),
            ),
        forall|i: int| op.lanes@.len() <= i < dest_len ==> #[trigger] r.lanes@[i] == 0,
{
    proof {
        lemma_float_lanes(op);
        lemma_widths();
    }
    let w = dest_ty.bits();
    let n = op.lanes.len();
    let mut lanes: Vec<u64> = Vec::new();
    let mut i: usize = 0;
    while i < dest_len
        invariant
            n == op.lanes@.len(),
            w == dest_ty.width(),
            valid_width(w as nat),
            op.ty.is_float(),
            forall|j: int| 0 <= j < n ==> fits_float(#[trigger] op.lanes@[j], op.ty),
            i <= dest_len,
            lanes@.len() == i,
            forall|j: int|
                0 <= j < i && j < n ==> #[trigger] lanes@[j] == int_or_min(
                    float_to_int(op.lanes@[j], w as nat, rnd, op.ty),
                    w as nat,
                ),
            forall|j: int|
                0 <= j < i && j < n && (is_nan(op.lanes@[j], op.ty) || beyond_int_range(
                    op.lanes@[j],
                    w as nat,
                    op.ty,
                )) ==> #[trigger] lanes@[j] == wrap(-pow2((w - 1) as nat), w as nat),
            forall|j: int| n <= j < i ==> #[trigger] lanes@[j] == 0,
            forall|j: int| 0 <= j < i ==> #[trigger] lanes@[j] < modulus(w as nat),
        decreases dest_len - i,
    {
        proof {
            crate::lane::lemma_width_powers(w as nat);
        }
        if i < n {
            let res = match float_to_i64(op.lanes[i], w, rnd, op.ty) {
                Some(v) => wrap_lane(v as i128, w),
                // The fallback of the hardware: the most negative integer.
                None => wrap_lane(-(pow2_u128(w - 1) as i128), w),
            };
            lanes.push(res);
        } else {
            lanes.push(0);
        }
        i = i + 1;
    }
    Vector { ty: dest_ty, lanes }
}

/// A vector of signed integer lanes.
pub open spec fn signed_lanes(v: &Vector) -> bool {
    v.ty.is_signed_int() && v.wf()
}

pub open spec fn abs(x: int) -> int {
    if x < 0 {
        -x
    } else {
        x
    }
}

pub open spec fn signum(x: int) -> int {
    if x < 0 {
        -1
    } else if x == 0 {
        0
    } else {
        1
    }
}

/// The absolute value of each signed lane of `op`; the most negative value
/// wraps around to itself.
pub fn int_abs(op: &Vector) -> (r: Vector)
    requires
        signed_lanes(op),
    ensures
        r.ty == op.ty,
        r.wf(),
        r.lanes@.len() == op.lanes@.len(),
        forall|i: int|
            0 <= i < r.lanes@.len() ==> #[trigger] r.lanes@[i] == wrap(
                abs(signed_value(op.lanes@[i], op.ty.width())),
                op.ty.width(),
            ),
{
    let w = op.ty.bits();
    let n = op.lanes.len();
    let mut lanes: Vec<u64> = Vec::new();
    let mut i: usize = 0;
    while i < n
        invariant
            n == op.lanes@.len(),
            w == op.ty.width(),
            signed_lanes(op),
            i <= n,
            lanes@.len() == i,
            forall|j: int|
                0 <= j < i ==> #[trigger] lanes@[j] == wrap(
                    abs(signed_value(op.lanes@[j], w as nat)),
                    w as nat,
                ) && lanes@[j] < modulus(w as nat),
        decreases n - i,
    {
        let x = signed_lane(op.lanes[i], w);
        let a = if x < 0 {
            -x
        } else {
            x
        };
        lanes.push(wrap_lane(a, w));
        i = i + 1;
    }
    Vector { ty: op.ty, lanes }
}

/// Each lane of `left` multiplied by the sign (-1, 0 or 1) of the
/// corresponding lane of `right`, wrapping as an integer multiply does.
pub fn psign(left: &Vector, right: &Vector) -> (r: Vector)
    requires
        signed_lanes(left),
        right.ty == left.ty,
        right.wf(),
        right.lanes@.len() == left.lanes@.len(),
    ensures
        r.ty == left.ty,
        r.wf(),
        r.lanes@.len() == left.lanes@.len(),
        forall|i: int|
            0 <= i < r.lanes@.len() ==> #[trigger] r.lanes@[i] == wrap(
                signed_value(left.lanes@[i], left.ty.width()) * signum(
                    signed_value(right.lanes@[i], left.ty.width()),
                ),
                left.ty.width(),
            ),
{
    let w = left.ty.bits();
    let n = left.lanes.len();
    let mut lanes: Vec<u64> = Vec::new();
    let mut i: usize = 0;
    while i < n
        invariant
            n == left.lanes@.len(),
            n == right.lanes@.len(),
            w == left.ty.width(),
            signed_lanes(left),
            right.ty == left.ty,
            right.wf(),
            i <= n,
            lanes@.len() == i,
            forall|j: int|
                0 <= j < i ==> #[trigger] lanes@[j] == wrap(
                    signed_value(left.lanes@[j], w as nat) * signum(
                        signed_value(right.lanes@[j], w as nat),
                    ),
                    w as nat,
                ) && lanes@[j] < modulus(w as nat),
        decreases n - i,
    {
        let x = signed_lane(left.lanes[i], w);
        let s = signed_lane(right.lanes[i], w);
        let sign: i128 = if s < 0 {
            -1
        } else if s == 0 {
            0
        } else {
            1
        };
        proof {
            assert(-0x8000_0000_0000_0000 <= x * sign <= 0x8000_0000_0000_0000) by (nonlinear_arith)
                requires
                    sign == -1 || sign == 0 || sign == 1,
                    -0x8000_0000_0000_0000 <= x < 0x8000_0000_0000_0000,
            ;
        }
        lanes.push(wrap_lane(x * sign, w));
        i = i + 1;
    }
    Vector { ty: left.ty, lanes }
}

/// The high-rounded product of two 16-bit lanes: the 32-bit product cut to
/// its 18 most significant bits, then halved rounding to nearest.
pub open spec fn mulhrs(a: u64, b: u64) -> u64 {
    let p = signed_value(a, 16) * signed_value(b, 16);
    wrap((p / 0x4000 + 1) / 2, 16)
}

/// Multiplies the 16-bit signed lanes of `left` and `right` and keeps bits
/// 15..=30 of each product, rounded. `-0x8000 * -0x8000` gives `0x8000`.
pub fn pmulhrsw(left: &Vector, right: &Vector) -> (r: Vector)
    requires
        left.ty is Int16,
        left.wf(),
        right.ty == left.ty,
        right.wf(),
        right.lanes@.len() == left.lanes@.len(),
    ensures
        r.ty == left.ty,
        r.wf(),
        r.lanes@.len() == left.lanes@.len(),
        forall|i: int|
            0 <= i < r.lanes@.len() ==> #[trigger] r.lanes@[i] == mulhrs(
                left.lanes@[i],
                right.lanes@[i],
            ),
{
    proof {
        lemma_widths();
    }
    let n = left.lanes.len();
    let mut lanes: Vec<u64> = Vec::new();
    let mut i: usize = 0;
    while i < n
        invariant
            n == left.lanes@.len(),
            n == right.lanes@.len(),
            left.ty is Int16,
            right.ty is Int16,
            left.wf(),
            right.wf(),
            i <= n,
            lanes@.len() == i,
            forall|j: int|
                0 <= j < i ==> #[trigger] lanes@[j] == mulhrs(left.lanes@[j], right.lanes@[j])
                    && lanes@[j] < modulus(16),
        decreases n - i,
    {
        let x = signed_lane(left.lanes[i], 16);
        let y = signed_lane(right.lanes[i], 16);
        proof {
            lemma_widths();
            assert(-0x8000 <= x < 0x8000 && -0x8000 <= y < 0x8000);
            assert(-0x4000_0000 <= x * y <= 0x4000_0000) by (nonlinear_arith)
                requires
                    -0x8000 <= x < 0x8000,
                    -0x8000 <= y < 0x8000,
            ;
        }
        let q = floor_div(x * y, 0x4000);
        proof {
            vstd::arithmetic::div_mod::lemma_div_is_ordered(x * y, 0x4000_0000, 0x4000);
            vstd::arithmetic::div_mod::lemma_div_is_ordered(-0x4000_0000, x * y, 0x4000);
        }
        let h = floor_div(q + 1, 2);
        proof {
            vstd::arithmetic::div_mod::lemma_div_is_ordered(q + 1, 0x1_0001, 2);
            vstd::arithmetic::div_mod::lemma_div_is_ordered(-0x1_0000, q + 1, 2);
        }
        lanes.push(wrap_lane(h, 16));
        i = i + 1;
    }
    Vector { ty: left.ty, lanes }
}

} // verus!
