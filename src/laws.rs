//! Properties that hold across the operations of the library.
use vstd::arithmetic::power2::pow2;
use vstd::prelude::*;

use crate::chunked::{horizontal_lane, lane_arith};
use crate::float::{float_order, is_nan, is_zero, FloatOrder};
use crate::lane::{lemma_widths, modulus, signed_value, valid_width, wrap, ArithOp, LaneType, Vector};
use crate::lanewise::{shifted, ShiftOp};
use crate::mask::{byte_of, high_bit, le_value, loaded_lane, selected_in_bounds, stored_byte};
use crate::scalar::{cmp_decoded, compare_predicate, float_bin, mask_lane, FloatBinOp};

verus! {

/// A decoded comparison yields, for any two float lanes, the all-ones lane
/// exactly when the predicate that the immediate names holds for their
/// order; when either lane is NaN that order is "unordered".
pub proof fn lemma_compare_follows_predicate(imm: i8, op: FloatBinOp, a: u64, b: u64, ty: LaneType)
    requires
        ty.is_float(),
        cmp_decoded(imm, op),
    ensures
        float_bin(op, a, b, ty) == mask_lane(
            compare_predicate(imm as int, float_order(a, b, ty)),
            ty.width(),
        ),
        is_nan(a, ty) || is_nan(b, ty) ==> float_bin(op, a, b, ty) == mask_lane(
            compare_predicate(imm as int, FloatOrder::Unordered),
            ty.width(),
        ),
{
    let o = float_order(a, b, ty);
    assert(op is Cmp);
    assert(crate::scalar::cmp_select(op->gt, op->lt, op->eq, op->unord, o) == compare_predicate(
        imm as int,
        o,
    ));
}

/// Min and Max return their second operand when both operands are zeros
/// (of either sign) and when either operand is NaN.
pub proof fn lemma_min_max_second_operand(a: u64, b: u64, ty: LaneType)
    requires
        ty.is_float(),
        (is_zero(a, ty) && is_zero(b, ty)) || is_nan(a, ty) || is_nan(b, ty),
    ensures
        float_bin(FloatBinOp::Min, a, b, ty) == b,
        float_bin(FloatBinOp::Max, a, b, ty) == b,
{
}

/// Shifting a lane by exactly its width gives zero for both logical
/// directions and the sign in every bit for the arithmetic right shift.
pub proof fn lemma_shift_by_width(a: u64, w: nat)
    requires
        valid_width(w),
        a < modulus(w),
    ensures
        shifted(ShiftOp::Left, a, w as int, w) == 0,
        shifted(ShiftOp::RightLogic, a, w as int, w) == 0,
        shifted(ShiftOp::RightArith, a, w as int, w) == (if signed_value(a, w) < 0 {
            (modulus(w) - 1) as u64
        } else {
            0u64
        }),
{
}

/// Shifting by one less than the width is an ordinary shift, not the
/// overflow case: a left shift of 1 by that much sets the high bit.
pub proof fn lemma_shift_by_width_minus_one(a: u64, w: nat)
    requires
        valid_width(w),
        a < modulus(w),
    ensures
        shifted(ShiftOp::Left, a, w - 1, w) == ((a * pow2((w - 1) as nat)) % modulus(w)) as u64,
        shifted(ShiftOp::RightLogic, a, w - 1, w) == (a as int / pow2((w - 1) as nat) as int) as u64,
        shifted(ShiftOp::RightArith, a, w - 1, w) == wrap(
            signed_value(a, w) / (pow2((w - 1) as nat) as int),
            w,
        ),
        shifted(ShiftOp::Left, 1, w - 1, w) == pow2((w - 1) as nat),
{
    lemma_widths();
    vstd::arithmetic::power2::lemma2_to64();
    crate::lane::lemma_width_powers(w);
    vstd::arithmetic::div_mod::lemma_small_mod(pow2((w - 1) as nat), pow2(w));
}

/// Horizontal addition over a chunk of four 32-bit lanes `[a, b, c, d]`
/// (left) and `[e, f, g, h]` (right) gives `[a+b, c+d, e+f, g+h]`,
/// wrapping.
pub proof fn lemma_horizontal_add_chunk(left: Seq<u64>, right: Seq<u64>, ty: LaneType)
    requires
        ty.is_int(),
        ty.width() == 32,
        left.len() == 4,
        right.len() == 4,
    ensures
        ({
            let h = |t: int| horizontal_lane(ArithOp::Add, false, left, right, 4, t, ty);
            &&& h(0) == lane_arith(ArithOp::Add, false, left[0], left[1], ty)
            &&& h(1) == lane_arith(ArithOp::Add, false, left[2], left[3], ty)
            &&& h(2) == lane_arith(ArithOp::Add, false, right[0], right[1], ty)
            &&& h(3) == lane_arith(ArithOp::Add, false, right[2], right[3], ty)
        }),
        forall|x: u64, y: u64|
            #![trigger lane_arith(ArithOp::Add, false, x, y, ty)]
            x < modulus(32) && y < modulus(32) ==> lane_arith(ArithOp::Add, false, x, y, ty) == wrap(
                x + y,
                32,
            ),
{
    assert forall|x: u64, y: u64|
        #![trigger lane_arith(ArithOp::Add, false, x, y, ty)]
        x < modulus(32) && y < modulus(32) implies lane_arith(ArithOp::Add, false, x, y, ty) == wrap(
        x + y,
        32,
    ) by {
        if ty.is_signed_int() {
            lemma_widths();
            let m = modulus(32);
            let sx = signed_value(x, 32);
            let sy = signed_value(y, 32);
            assert(sx + sy == x + y + m * (if x >= m / 2 {
                -1int
            } else {
                0
            } + if y >= m / 2 {
                -1int
            } else {
                0
            })) by (nonlinear_arith)
                requires
                    m == 0x1_0000_0000,
                    sx == (if x >= 0x8000_0000 {
                        x - m
                    } else {
                        x as int
                    }),
                    sy == (if y >= 0x8000_0000 {
                        y - m
                    } else {
                        y as int
                    }),
            ;
            vstd::arithmetic::div_mod::lemma_mod_multiples_vanish(
                (if x >= m / 2 {
                    -1int
                } else {
                    0
                } + if y >= m / 2 {
                    -1int
                } else {
                    0
                }),
                x + y,
                m,
            );
        }
    }
}

/// A mask whose lanes all have a clear high bit loads zero into every lane
/// and stores nothing; one whose lanes all have a set high bit loads and
/// stores every lane like an ordinary unaligned copy.
pub proof fn lemma_mask_extremes(
    mem: Seq<u8>,
    ptr: int,
    lb: int,
    mask: &Vector,
    value: Seq<u64>,
    p: int,
    i: int,
)
    requires
        lb >= 1,
        0 <= i < mask.lanes@.len(),
        0 <= p < mem.len(),
    ensures
        (forall|j: int|
            0 <= j < mask.lanes@.len() ==> !#[trigger] high_bit(mask.lanes@[j], mask.ty.width()))
            ==> {
            &&& selected_in_bounds(mask, ptr, lb, mem.len() as int)
            &&& loaded_lane(mem, ptr, lb, mask, i) == 0
            &&& stored_byte(mem, ptr, lb, mask, value, mask.lanes@.len() * lb, p) == mem[p]
        },
        (forall|j: int|
            0 <= j < mask.lanes@.len() ==> #[trigger] high_bit(mask.lanes@[j], mask.ty.width()))
            ==> {
            &&& loaded_lane(mem, ptr, lb, mask, i) == le_value(
                mem.subrange(ptr + i * lb, ptr + i * lb + lb),
            ) as u64
            &&& (0 <= p - ptr < mask.lanes@.len() * lb ==> stored_byte(
                mem,
                ptr,
                lb,
                mask,
                value,
                mask.lanes@.len() * lb,
                p,
            ) == byte_of(value[(p - ptr) / lb], (p - ptr) % lb))
        },
{
    let n = mask.lanes@.len() as int;
    if 0 <= p - ptr < n * lb {
        vstd::arithmetic::div_mod::lemma_div_pos_is_pos(p - ptr, lb);
        vstd::arithmetic::div_mod::lemma_div_by_multiple_is_strongly_ordered(p - ptr, n * lb, n, lb);
        assert((p - ptr) / lb < n) by {
            vstd::arithmetic::div_mod::lemma_div_is_ordered(p - ptr, n * lb - 1, lb);
            vstd::arithmetic::div_mod::lemma_fundamental_div_mod(n * lb - 1, lb);
            vstd::arithmetic::div_mod::lemma_mod_bound(n * lb - 1, lb);
            assert((n * lb - 1) / lb < n) by (nonlinear_arith)
                requires
                    n * lb - 1 == lb * ((n * lb - 1) / lb) + (n * lb - 1) % lb,
                    0 <= (n * lb - 1) % lb < lb,
                    lb >= 1,
                    n >= 1,
            ;
        }
    }
}

/// A float-to-integer conversion that fails gives the lane of the most
/// negative integer of the width: the high bit alone.
pub proof fn lemma_min_int_lane(w: nat)
    requires
        valid_width(w),
    ensures
        wrap(-pow2((w - 1) as nat), w) == pow2((w - 1) as nat),
{
    crate::lane::lemma_width_powers(w);
    vstd::arithmetic::div_mod::lemma_mod_multiples_vanish(
        1,
        -pow2((w - 1) as nat),
        pow2(w) as int,
    );
    vstd::arithmetic::div_mod::lemma_small_mod(pow2((w - 1) as nat), pow2(w));
}

/// The operations other than the two approximations state each lane of
/// their result as a function of their inputs, so two results that meet
/// the same such statement are identical: running an operation twice on
/// the same inputs gives the same bits.
pub proof fn lemma_lanes_determined(r1: Seq<u64>, r2: Seq<u64>, f: spec_fn(int) -> u64, n: nat)
    requires
        r1.len() == n,
        r2.len() == n,
        forall|i: int| 0 <= i < n ==> #[trigger] r1[i] == f(i),
        forall|i: int| 0 <= i < n ==> #[trigger] r2[i] == f(i),
    ensures
        r1 == r2,
{
    assert(r1 =~= r2);
}

} // verus!
