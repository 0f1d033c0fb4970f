//! Operations whose unit is a 128-bit chunk: lane `j` of chunk `c` of the
//! result depends on chunk `c` of the operands alone.
//!
//! Results are stated on flat lane indices: flat index `t` of a vector with
//! `per` lanes to a chunk is lane `t % per` of chunk `t / per`.
use vstd::arithmetic::power2::pow2;
use vstd::prelude::*;

use crate::float::{arith_float, fits_float, float_arith};
use crate::lane::{
    lanes_fit, lemma_widths, lemma_width_powers, modulus, pow2_u128, signed_lane, signed_value,
    valid_width, wrap, wrap_lane, ArithOp, LaneType, Vector,
};

verus! {

/// Splitting a flat index `t < len` into a chunk and a lane of a chunk.
pub proof fn lemma_chunk_index(t: int, per: int, len: int)
    requires
        0 <= t < len,
        per > 0,
        len % per == 0,
    ensures
        (t / per) * per + t % per == t,
        0 <= t % per < per,
        0 <= (t / per) * per,
        (t / per) * per + per <= len,
{
    let q = t / per;
    let r = t % per;
    let big = len / per;
    vstd::arithmetic::div_mod::lemma_fundamental_div_mod(t, per);
    vstd::arithmetic::div_mod::lemma_fundamental_div_mod(len, per);
    vstd::arithmetic::div_mod::lemma_mod_bound(t, per);
    vstd::arithmetic::div_mod::lemma_div_pos_is_pos(t, per);
    assert(q * per + per <= len) by (nonlinear_arith)
        requires
            t == per * q + r,
            0 <= r < per,
            len == per * big,
            t < len,
            per > 0,
            q >= 0,
    ;
    vstd::arithmetic::mul::lemma_mul_nonnegative(q, per);
}

/// Splits a vector into 128-bit chunks: returns the number of chunks and
/// the number of lanes in each.
pub fn split_simd_to_128bit_chunks(v: &Vector) -> (r: (u64, u64))
    requires
        v.chunked(),
        valid_width(v.ty.width()),
    ensures
        r.1 == v.per_chunk(),
        r.0 * r.1 == v.lanes@.len(),
        r.0 == v.total_bits() / 128,
        (v.lanes@.len() as int) % v.per_chunk() == 0,
{
    let w = v.ty.bits();
    let per = (128 / w) as u64;
    let len = v.lanes.len() as u64;
    proof {
        let l = v.lanes@.len() as int;
        let k = (l * w) / 128;
        vstd::arithmetic::div_mod::lemma_fundamental_div_mod(l * w, 128);
        assert(128 == (per as int) * (w as int));
        assert(l == (per as int) * k) by (nonlinear_arith)
            requires
                l * w == 128 * k,
                128 == (per as int) * (w as int),
                w > 0,
        ;
        vstd::arithmetic::div_mod::lemma_fundamental_div_mod_converse(l, per as int, k, 0);
        assert(k * (per as int) == l) by (nonlinear_arith)
            requires
                l == (per as int) * k,
        ;
    }
    (len / per, per)
}

/// The lane type after `op` on lanes of type `ty`, saturating or not.
pub open spec fn lane_arith(op: ArithOp, saturating: bool, a: u64, b: u64, ty: LaneType) -> u64 {
    let w = ty.width();
    if ty.is_float() {
        float_arith(op, a, b, ty)
    } else {
        let (x, y) = if ty.is_signed_int() {
            (signed_value(a, w), signed_value(b, w))
        } else {
            (a as int, b as int)
        };
        let exact = if op is Add {
            x + y
        } else {
            x - y
        };
        if saturating {
            if ty.is_signed_int() {
                wrap(clamp(exact, -(modulus((w - 1) as nat)), modulus((w - 1) as nat) - 1), w)
            } else {
                wrap(clamp(exact, 0, modulus(w) - 1), w)
            }
        } else {
            wrap(exact, w)
        }
    }
}

/// `x` limited to the range `lo..=hi`.
pub open spec fn clamp(x: int, lo: int, hi: int) -> int {
    if x < lo {
        lo
    } else if x > hi {
        hi
    } else {
        x
    }
}

/// The operations that a horizontal instruction may perform on its lanes.
pub open spec fn arith_allowed(op: ArithOp, saturating: bool, ty: LaneType) -> bool {
    if ty.is_float() {
        !saturating
    } else {
        op is Add || op is Sub
    }
}

/// Performs `op` on two lanes of type `ty`, saturating if asked to.
pub fn arith_lane(op: ArithOp, saturating: bool, a: u64, b: u64, ty: LaneType) -> (r: u64)
    requires
        arith_allowed(op, saturating, ty),
        lanes_fit(seq![a, b], ty.width()),
    ensures
        r == lane_arith(op, saturating, a, b, ty),
        r < modulus(ty.width()),
{
    let w = ty.bits();
    proof {
        lemma_widths();
        assert(seq![a, b][0] == a && seq![a, b][1] == b);
        lemma_width_powers(w as nat);
    }
    if ty.is_float_lane() {
        return arith_float(op, a, b, ty);
    }
    let (x, y): (i128, i128) = if ty.is_signed() {
        (signed_lane(a, w), signed_lane(b, w))
    } else {
        (a as i128, b as i128)
    };
    let exact: i128 = match op {
        ArithOp::Add => x + y,
        _ => x - y,
    };
    if saturating {
        let (lo, hi): (i128, i128) = if ty.is_signed() {
            let h = pow2_u128(w - 1) as i128;
            (-h, h - 1)
        } else {
            (0, pow2_u128(w) as i128 - 1)
        };
        let c = if exact < lo {
            lo
        } else if exact > hi {
            hi
        } else {
            exact
        };
        wrap_lane(c, w)
    } else {
        wrap_lane(exact, w)
    }
}

/// Lane `t` of a horizontal operation with `per` lanes to a chunk: lane
/// `j` of a chunk combines lanes `2k` and `2k+1` of the same chunk of
/// `left` (for `j < per/2`, with `k = j`) or of `right` (with
/// `k = j - per/2`).
pub open spec fn horizontal_lane(
    op: ArithOp,
    saturating: bool,
    left: Seq<u64>,
    right: Seq<u64>,
    per: int,
    t: int,
    ty: LaneType,
) -> u64 {
    let base = (t / per) * per;
    let j = t % per;
    let middle = per / 2;
    let src = if j < middle {
        left
    } else {
        right
    };
    let k = if j < middle {
        j
    } else {
        j - middle
    };
    lane_arith(op, saturating, src[base + 2 * k], src[base + 2 * k + 1], ty)
}

/// Performs `which` horizontally on adjacent lanes of `left` and `right`,
/// each 128-bit chunk on its own (see [`horizontal_lane`]).
pub fn horizontal_bin_op(which: ArithOp, saturating: bool, left: &Vector, right: &Vector) -> (r:
    Vector)
    requires
        left.wf(),
        right.wf(),
        right.ty == left.ty,
        right.lanes@.len() == left.lanes@.len(),
        left.chunked(),
        arith_allowed(which, saturating, left.ty),
    ensures
        r.ty == left.ty,
        r.wf(),
        r.lanes@.len() == left.lanes@.len(),
        forall|t: int|
            0 <= t < r.lanes@.len() ==> #[trigger] r.lanes@[t] == horizontal_lane(
                which,
                saturating,
                left.lanes@,
                right.lanes@,
                left.per_chunk(),
                t,
                left.ty,
            ),
{
    let ghost w = left.ty.width();
    let (_num_chunks, per) = split_simd_to_128bit_chunks(left);
    let per = per as usize;
    let middle = per / 2;
    let n = left.lanes.len();
    let mut lanes: Vec<u64> = Vec::new();
    let mut t: usize = 0;
    while t < n
        invariant
            n == left.lanes@.len(),
            n == right.lanes@.len(),
            per == left.per_chunk(),
            2 <= per <= 16,
            middle == per / 2,
            n as int % per as int == 0,
            left.wf(),
            right.wf(),
            right.ty == left.ty,
            w == left.ty.width(),
            arith_allowed(which, saturating, left.ty),
            t <= n,
            lanes@.len() == t,
            forall|i: int|
                0 <= i < t ==> #[trigger] lanes@[i] == horizontal_lane(
                    which,
                    saturating,
                    left.lanes@,
                    right.lanes@,
                    per as int,
                    i,
                    left.ty,
                ) && lanes@[i] < modulus(w),
        decreases n - t,
    {
        proof {
            lemma_chunk_index(t as int, per as int, n as int);
        }
        let base = (t / per) * per;
        let j = t % per;
        let (a, b) = if j < middle {
            (left.lanes[base + 2 * j], left.lanes[base + 2 * j + 1])
        } else {
            (right.lanes[base + 2 * (j - middle)], right.lanes[base + 2 * (j - middle) + 1])
        };
        proof {
            assert(seq![a, b][0] == a && seq![a, b][1] == b);
        }
        let res = arith_lane(which, saturating, a, b, left.ty);
        lanes.push(res);
        t = t + 1;
    }
    Vector { ty: left.ty, lanes }
}

/// The lane type that packing lanes of type `ty` narrows to.
pub open spec fn narrowed(ty: LaneType, unsigned: bool) -> LaneType {
    if ty is Int16 {
        if unsigned {
            LaneType::UInt8
        } else {
            LaneType::Int8
        }
    } else if unsigned {
        LaneType::UInt16
    } else {
        LaneType::Int16
    }
}

/// The signed lane `a` of width `w`, saturated to half the width: signed,
/// or unsigned with negative values clamped to zero.
pub open spec fn saturate_narrow(a: u64, w: nat, unsigned: bool) -> u64 {
    let x = signed_value(a, w);
    let half = (w / 2) as nat;
    if unsigned {
        wrap(clamp(x, 0, modulus(half) - 1), half)
    } else {
        wrap(clamp(x, -modulus((half - 1) as nat), modulus((half - 1) as nat) - 1), half)
    }
}

/// Lane `t` of packing, where each chunk of the operands holds `per` lanes:
/// the first `per` lanes of a result chunk come from `left`, the next
/// `per` from `right`.
pub open spec fn packed_lane(
    left: Seq<u64>,
    right: Seq<u64>,
    per: int,
    t: int,
    w: nat,
    unsigned: bool,
) -> u64 {
    let base = (t / (2 * per)) * per;
    let j = t % (2 * per);
    if j < per {
        saturate_narrow(left[base + j], w, unsigned)
    } else {
        saturate_narrow(right[base + j - per], w, unsigned)
    }
}

/// Packs two vectors of signed 16- or 32-bit lanes into one vector of lanes
/// of half the width, saturating each lane, chunk by chunk.
pub fn pack_generic(left: &Vector, right: &Vector, unsigned: bool) -> (r: Vector)
    requires
        left.ty is Int16 || left.ty is Int32,
        left.wf(),
        right.wf(),
        right.ty == left.ty,
        right.lanes@.len() == left.lanes@.len(),
        left.chunked(),
        2 * left.lanes@.len() <= usize::MAX,
    ensures
        r.ty == narrowed(left.ty, unsigned),
        r.wf(),
        r.lanes@.len() == 2 * left.lanes@.len(),
        forall|t: int|
            0 <= t < r.lanes@.len() ==> #[trigger] r.lanes@[t] == packed_lane(
                left.lanes@,
                right.lanes@,
                left.per_chunk(),
                t,
                left.ty.width(),
                unsigned,
            ),
{
    let w = left.ty.bits();
    let half = w / 2;
    let dest_ty = match (left.ty, unsigned) {
        (LaneType::Int16, false) => LaneType::Int8,
        (LaneType::Int16, true) => LaneType::UInt8,
        (_, false) => LaneType::Int16,
        (_, true) => LaneType::UInt16,
    };
    let (_num_chunks, per) = split_simd_to_128bit_chunks(left);
    let per = per as usize;
    let n = left.lanes.len();
    proof {
        lemma_widths();
        vstd::arithmetic::div_mod::lemma_div_multiples_vanish(8, 16);
        vstd::arithmetic::div_mod::lemma_div_multiples_vanish(4, 32);
        let k = n as int / per as int;
        vstd::arithmetic::div_mod::lemma_fundamental_div_mod(n as int, per as int);
        assert(2 * n as int == (2 * per as int) * k) by (nonlinear_arith)
            requires
                n as int == per as int * k + n as int % per as int,
                n as int % per as int == 0,
        ;
        vstd::arithmetic::div_mod::lemma_fundamental_div_mod_converse(
            2 * n as int,
            2 * per as int,
            k,
            0,
        );
    }
    let mut lanes: Vec<u64> = Vec::new();
    let mut t: usize = 0;
    while t < 2 * n
        invariant
            n == left.lanes@.len(),
            n == right.lanes@.len(),
            2 * n <= usize::MAX,
            per == left.per_chunk(),
            per == 4 || per == 8,
            2 * n as int % (2 * per as int) == 0,
            left.ty is Int16 || left.ty is Int32,
            left.wf(),
            right.wf(),
            right.ty == left.ty,
            w == left.ty.width(),
            half * 2 == w,
            dest_ty.width() == half,
            t <= 2 * n,
            lanes@.len() == t,
            forall|i: int|
                0 <= i < t ==> #[trigger] lanes@[i] == packed_lane(
                    left.lanes@,
                    right.lanes@,
                    per as int,
                    i,
                    w as nat,
                    unsigned,
                ) && lanes@[i] < modulus(half as nat),
        decreases 2 * n - t,
    {
        proof {
            lemma_widths();
            lemma_chunk_index(t as int, 2 * per as int, 2 * n as int);
            assert((t as int / (2 * per as int)) * per as int + per as int <= n) by (nonlinear_arith)
                requires
                    (t as int / (2 * per as int)) * (2 * per as int) + 2 * per as int <= 2 * n,
            ;
        }
        let base = (t / (2 * per)) * per;
        let j = t % (2 * per);
        let a = if j < per {
            left.lanes[base + j]
        } else {
            right.lanes[base + j - per]
        };
        let x = signed_lane(a, w);
        let (lo, hi): (i128, i128) = if unsigned {
            (0, pow2_u128(half) as i128 - 1)
        } else {
            let h = pow2_u128(half - 1) as i128;
            (-h, h - 1)
        };
        let c = if x < lo {
            lo
        } else if x > hi {
            hi
        } else {
            x
        };
        lanes.push(wrap_lane(c, half));
        t = t + 1;
    }
    Vector { ty: dest_ty, lanes }
}

/// Packs signed 16-bit lanes into signed 8-bit lanes with saturation.
pub fn packsswb(left: &Vector, right: &Vector) -> (r: Vector)
    requires
        left.ty is Int16,
        left.wf(),
        right.wf(),
        right.ty == left.ty,
        right.lanes@.len() == left.lanes@.len(),
        left.chunked(),
        2 * left.lanes@.len() <= usize::MAX,
    ensures
        r.ty == LaneType::Int8,
        r.wf(),
        r.lanes@.len() == 2 * left.lanes@.len(),
        forall|t: int|
            0 <= t < r.lanes@.len() ==> #[trigger] r.lanes@[t] == packed_lane(
                left.lanes@,
                right.lanes@,
                8,
                t,
                16,
                false,
            ),
{
    pack_generic(left, right, false)
}

/// Packs signed 16-bit lanes into unsigned 8-bit lanes with saturation.
pub fn packuswb(left: &Vector, right: &Vector) -> (r: Vector)
    requires
        left.ty is Int16,
        left.wf(),
        right.wf(),
        right.ty == left.ty,
        right.lanes@.len() == left.lanes@.len(),
        left.chunked(),
        2 * left.lanes@.len() <= usize::MAX,
    ensures
        r.ty == LaneType::UInt8,
        r.wf(),
        r.lanes@.len() == 2 * left.lanes@.len(),
        forall|t: int|
            0 <= t < r.lanes@.len() ==> #[trigger] r.lanes@[t] == packed_lane(
                left.lanes@,
                right.lanes@,
                8,
                t,
                16,
                true,
            ),
{
    pack_generic(left, right, true)
}

/// Packs signed 32-bit lanes into signed 16-bit lanes with saturation.
pub fn packssdw(left: &Vector, right: &Vector) -> (r: Vector)
    requires
        left.ty is Int32,
        left.wf(),
        right.wf(),
        right.ty == left.ty,
        right.lanes@.len() == left.lanes@.len(),
        left.chunked(),
        2 * left.lanes@.len() <= usize::MAX,
    ensures
        r.ty == LaneType::Int16,
        r.wf(),
        r.lanes@.len() == 2 * left.lanes@.len(),
        forall|t: int|
            0 <= t < r.lanes@.len() ==> #[trigger] r.lanes@[t] == packed_lane(
                left.lanes@,
                right.lanes@,
                4,
                t,
                32,
                false,
            ),
{
    pack_generic(left, right, false)
}

/// Packs signed 32-bit lanes into unsigned 16-bit lanes with saturation.
pub fn packusdw(left: &Vector, right: &Vector) -> (r: Vector)
    requires
        left.ty is Int32,
        left.wf(),
        right.wf(),
        right.ty == left.ty,
        right.lanes@.len() == left.lanes@.len(),
        left.chunked(),
        2 * left.lanes@.len() <= usize::MAX,
    ensures
        r.ty == LaneType::UInt16,
        r.wf(),
        r.lanes@.len() == 2 * left.lanes@.len(),
        forall|t: int|
            0 <= t < r.lanes@.len() ==> #[trigger] r.lanes@[t] == packed_lane(
                left.lanes@,
                right.lanes@,
                4,
                t,
                32,
                true,
            ),
{
    pack_generic(left, right, true)
}

/// `|a - b|` of two unsigned 8-bit lanes.
pub open spec fn abs_diff(a: u64, b: u64) -> int {
    if a >= b {
        a - b
    } else {
        b - a
    }
}

/// Bit `k` of `x`.
pub open spec fn bit_set(x: u64, k: nat) -> bool {
    (x as int / pow2(k) as int) % 2 == 1
}

/// The offset of the `left` lanes that a sliding-window sum starts at:
/// bit 2 of `imm` picks 0 or 4.
pub open spec fn window_left_offset(imm: u64) -> int {
    if bit_set(imm, 2) {
        4
    } else {
        0
    }
}

/// The offset of the four `right` lanes of a sliding-window sum: bits 0..=1
/// of `imm` pick a block of four.
pub open spec fn window_right_offset(imm: u64) -> int {
    (imm % 4) as int * 4
}

/// Lane `t` of a sliding-window sum: lane `j` of a chunk sums
/// `|left[lo + j + k] - right[ro + k]|` over `k < 4` within that chunk.
pub open spec fn window_sum(left: Seq<u64>, right: Seq<u64>, imm: u64, t: int) -> int {
    let base = (t / 8) * 16;
    let lb = base + window_left_offset(imm) + t % 8;
    let rb = base + window_right_offset(imm);
    abs_diff(left[lb], right[rb]) + abs_diff(left[lb + 1], right[rb + 1]) + abs_diff(
        left[lb + 2],
        right[rb + 2],
    ) + abs_diff(left[lb + 3], right[rb + 3])
}

/// Sums of absolute differences of unsigned 8-bit quadruplets: each
/// 16-bit lane of the result sums four differences between a window of
/// `left` that slides with the lane and a block of `right`, both picked by
/// `imm`, chunk by chunk.
pub fn mpsadbw(left: &Vector, right: &Vector, imm: u64) -> (r: Vector)
    requires
        left.ty.width() == 8,
        left.wf(),
        right.wf(),
        right.ty == left.ty,
        right.lanes@.len() == left.lanes@.len(),
        left.chunked(),
    ensures
        r.ty == LaneType::UInt16,
        r.wf(),
        2 * r.lanes@.len() == left.lanes@.len(),
        forall|t: int|
            0 <= t < r.lanes@.len() ==> #[trigger] r.lanes@[t] == window_sum(
                left.lanes@,
                right.lanes@,
                imm,
                t,
            ),
{
    let (_num_chunks, per) = split_simd_to_128bit_chunks(left);
    let n = left.lanes.len();
    proof {
        lemma_widths();
        vstd::arithmetic::div_mod::lemma_div_multiples_vanish(16, 8);
        vstd::arithmetic::power2::lemma2_to64();
    }
    let left_offset: usize = if (imm / 4) % 2 == 1 {
        4
    } else {
        0
    };
    let right_offset: usize = (imm % 4) as usize * 4;
    let half = n / 2;
    proof {
        let k = n as int / 16;
        vstd::arithmetic::div_mod::lemma_fundamental_div_mod(n as int, 16);
        assert(half as int % 8 == 0 && 2 * half == n) by {
            vstd::arithmetic::div_mod::lemma_fundamental_div_mod_converse(half as int, 8, k, 0);
        }
    }
    let mut lanes: Vec<u64> = Vec::new();
    let mut t: usize = 0;
    while t < half
        invariant
            n == left.lanes@.len(),
            n == right.lanes@.len(),
            2 * half == n,
            half as int % 8 == 0,
            left.ty.width() == 8,
            left.wf(),
            right.wf(),
            right.ty == left.ty,
            left_offset == window_left_offset(imm),
            right_offset == window_right_offset(imm),
            t <= half,
            lanes@.len() == t,
            forall|i: int|
                0 <= i < t ==> #[trigger] lanes@[i] == window_sum(
                    left.lanes@,
                    right.lanes@,
                    imm,
                    i,
                ) && lanes@[i] < modulus(16),
        decreases half - t,
    {
        proof {
            lemma_widths();
            lemma_chunk_index(t as int, 8, half as int);
        }
        let base = (t / 8) * 16;
        let lb = base + left_offset + t % 8;
        let rb = base + right_offset;
        let mut res: u64 = 0;
        let mut k: usize = 0;
        while k < 4
            invariant
                k <= 4,
                n == left.lanes@.len(),
                n == right.lanes@.len(),
                lb + 4 <= n,
                rb + 4 <= n,
                left.ty.width() == 8,
                left.wf(),
                right.wf(),
                right.ty == left.ty,
                res <= 255 * k,
                res == window_partial(left.lanes@, right.lanes@, lb as int, rb as int, k as int),
            decreases 4 - k,
        {
            proof {
                lemma_widths();
            }
            let a = left.lanes[lb + k];
            let b = right.lanes[rb + k];
            assert(a < 256 && b < 256) by {
                assert(left.lanes@[(lb + k) as int] < modulus(8));
                assert(right.lanes@[(rb + k) as int] < modulus(8));
            }
            let d = if a >= b {
                a - b
            } else {
                b - a
            };
            res = res + d;
            k = k + 1;
        }
        proof {
            reveal_with_fuel(window_partial, 5);
        }
        lanes.push(res);
        t = t + 1;
    }
    Vector { ty: LaneType::UInt16, lanes }
}

/// The first `k` terms of a sliding-window sum.
pub open spec fn window_partial(left: Seq<u64>, right: Seq<u64>, lb: int, rb: int, k: int) -> int
    decreases k,
{
    if k <= 0 {
        0
    } else {
        window_partial(left, right, lb, rb, k - 1) + abs_diff(left[lb + k - 1], right[rb + k - 1])
    }
}

/// The dot product of the first `n` lanes of a chunk starting at `base`,
/// over the lanes whose bit `4 + j` is set in `imm`; it starts from the
/// all-zero bits of `+0.0`.
pub open spec fn dot_acc(
    left: Seq<u64>,
    right: Seq<u64>,
    base: int,
    imm: u64,
    ty: LaneType,
    n: nat,
) -> u64
    decreases n,
{
    if n == 0 {
        0
    } else {
        let prev = dot_acc(left, right, base, imm, ty, (n - 1) as nat);
        if bit_set(imm, (n + 3) as nat) {
            float_arith(
                ArithOp::Add,
                prev,
                float_arith(ArithOp::Mul, left[base + n - 1], right[base + n - 1], ty),
                ty,
            )
        } else {
            prev
        }
    }
}

/// Lane `t` of a conditional dot product with `per` lanes to a chunk: the
/// chunk's dot product where bit `t % per` of `imm` is set, else zero.
pub open spec fn dot_lane(left: Seq<u64>, right: Seq<u64>, imm: u64, per: int, t: int, ty: LaneType) -> u64 {
    if bit_set(imm, (t % per) as nat) {
        dot_acc(left, right, (t / per) * per, imm, ty, per as nat)
    } else {
        0
    }
}

/// Whether bit `k` of `x` is set.
fn test_bit(x: u64, k: u32) -> (r: bool)
    requires
        k < 64,
    ensures
        r == bit_set(x, k as nat),
{
    proof {
        vstd::arithmetic::power2::lemma_pow2_pos(k as nat);
    }
    ((x as u128 / pow2_u128(k)) % 2) == 1
}

/// The dot product over one chunk, starting at lane `base`.
fn chunk_dot(left: &Vector, right: &Vector, base: usize, per: usize, imm: u64) -> (r: u64)
    requires
        left.ty.is_float(),
        left.wf(),
        right.wf(),
        right.ty == left.ty,
        right.lanes@.len() == left.lanes@.len(),
        base + per <= left.lanes@.len(),
        per <= 4,
    ensures
        r == dot_acc(left.lanes@, right.lanes@, base as int, imm, left.ty, per as nat),
        fits_float(r, left.ty),
{
    let n = left.lanes.len();
    let mut sum: u64 = 0;
    let mut j: usize = 0;
    while j < per
        invariant
            n == left.lanes@.len(),
            j <= per,
            per <= 4,
            base + per <= left.lanes@.len(),
            left.ty.is_float(),
            left.wf(),
            right.wf(),
            right.ty == left.ty,
            right.lanes@.len() == left.lanes@.len(),
            sum == dot_acc(left.lanes@, right.lanes@, base as int, imm, left.ty, j as nat),
            fits_float(sum, left.ty),
        decreases per - j,
    {
        proof {
            lemma_widths();
            assert(left.lanes@[(base + j) as int] < modulus(left.ty.width()));
            assert(right.lanes@[(base + j) as int] < modulus(left.ty.width()));
        }
        if test_bit(imm, (j + 4) as u32) {
            let idx = base + j;
            let mul = arith_float(ArithOp::Mul, left.lanes[idx], right.lanes[idx], left.ty);
            sum = arith_float(ArithOp::Add, sum, mul, left.ty);
        }
        j = j + 1;
    }
    sum
}

/// Conditionally multiplies the float lanes of `left` and `right` under the
/// high 4 bits of `imm`, sums the products, and stores the sum in the lanes
/// that the low 4 bits of `imm` select (the others get zero), chunk by
/// chunk.
pub fn conditional_dot_product(left: &Vector, right: &Vector, imm: u64) -> (r: Vector)
    requires
        left.ty.is_float(),
        left.wf(),
        right.wf(),
        right.ty == left.ty,
        right.lanes@.len() == left.lanes@.len(),
        left.chunked(),
    ensures
        r.ty == left.ty,
        r.wf(),
        r.lanes@.len() == left.lanes@.len(),
        forall|t: int|
            0 <= t < r.lanes@.len() ==> #[trigger] r.lanes@[t] == dot_lane(
                left.lanes@,
                right.lanes@,
                imm,
                left.per_chunk(),
                t,
                left.ty,
            ),
{
    let (_num_chunks, per) = split_simd_to_128bit_chunks(left);
    let per = per as usize;
    proof {
        vstd::arithmetic::div_mod::lemma_div_multiples_vanish(4, 32);
        vstd::arithmetic::div_mod::lemma_div_multiples_vanish(2, 64);
    }
    let n = left.lanes.len();
    let mut lanes: Vec<u64> = Vec::new();
    let mut t: usize = 0;
    while t < n
        invariant
            n == left.lanes@.len(),
            n == right.lanes@.len(),
            per == left.per_chunk(),
            per == 2 || per == 4,
            n as int % per as int == 0,
            left.ty.is_float(),
            left.wf(),
            right.wf(),
            right.ty == left.ty,
            t <= n,
            lanes@.len() == t,
            forall|i: int|
                0 <= i < t ==> #[trigger] lanes@[i] == dot_lane(
                    left.lanes@,
                    right.lanes@,
                    imm,
                    per as int,
                    i,
                    left.ty,
                ) && lanes@[i] < modulus(left.ty.width()),
        decreases n - t,
    {
        proof {
            lemma_widths();
            lemma_chunk_index(t as int, per as int, n as int);
        }
        let base = (t / per) * per;
        let res = if test_bit(imm, (t % per) as u32) {
            chunk_dot(left, right, base, per, imm)
        } else {
            0
        };
        lanes.push(res);
        t = t + 1;
    }
    Vector { ty: left.ty, lanes }
}

} // verus!
