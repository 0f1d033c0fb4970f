//! Bit tests under a mask, and loads and stores that a mask selects lane
//! by lane.
use vstd::arithmetic::power2::{lemma_pow2_adds, lemma_pow2_pos, pow2};
use vstd::prelude::*;

use crate::lane::{lemma_widths, modulus, pow2_u128, LaneType, Vector};
use crate::scalar::SimdError;

verus! {

/// Two facts on `op & mask`: all its bits are zero, and it equals `mask`.
pub fn test_bits_masked(op: &Vector, mask: &Vector) -> (r: (bool, bool))
    requires
        mask.ty == op.ty,
        mask.lanes@.len() == op.lanes@.len(),
    ensures
        r.0 == forall|i: int|
            0 <= i < op.lanes@.len() ==> #[trigger] (op.lanes@[i] & mask.lanes@[i]) == 0,
        r.1 == forall|i: int|
            0 <= i < op.lanes@.len() ==> #[trigger] (op.lanes@[i] & mask.lanes@[i])
                == mask.lanes@[i],
{
    let n = op.lanes.len();
    let mut all_zero = true;
    let mut masked_set = true;
    let mut i: usize = 0;
    while i < n
        invariant
            n == op.lanes@.len(),
            n == mask.lanes@.len(),
            i <= n,
            all_zero == forall|j: int|
                0 <= j < i ==> #[trigger] (op.lanes@[j] & mask.lanes@[j]) == 0,
            masked_set == forall|j: int|
                0 <= j < i ==> #[trigger] (op.lanes@[j] & mask.lanes@[j]) == mask.lanes@[j],
        decreases n - i,
    {
        let x = op.lanes[i] & mask.lanes[i];
        all_zero = all_zero && x == 0;
        masked_set = masked_set && x == mask.lanes[i];
        i = i + 1;
    }
    (all_zero, masked_set)
}

/// Two facts on the high bit of each lane: it is clear in every lane of
/// `op & mask`, and it is clear in every lane of `!op & mask`.
pub fn test_high_bits_masked(op: &Vector, mask: &Vector) -> (r: (bool, bool))
    requires
        mask.ty == op.ty,
        mask.lanes@.len() == op.lanes@.len(),
    ensures
        r.0 == forall|i: int|
            0 <= i < op.lanes@.len() ==> #[trigger] ((op.lanes@[i] & mask.lanes@[i]) >> (
            op.ty.width() - 1) as u64) == 0,
        r.1 == forall|i: int|
            0 <= i < op.lanes@.len() ==> #[trigger] ((!op.lanes@[i] & mask.lanes@[i]) >> (
            op.ty.width() - 1) as u64) == 0,
{
    let high_bit_offset = (op.ty.bits() - 1) as u64;
    let n = op.lanes.len();
    let mut direct = true;
    let mut negated = true;
    let mut i: usize = 0;
    while i < n
        invariant
            n == op.lanes@.len(),
            n == mask.lanes@.len(),
            high_bit_offset == (op.ty.width() - 1) as u64,
            i <= n,
            direct == forall|j: int|
                0 <= j < i ==> #[trigger] ((op.lanes@[j] & mask.lanes@[j]) >> high_bit_offset)
                    == 0,
            negated == forall|j: int|
                0 <= j < i ==> #[trigger] ((!op.lanes@[j] & mask.lanes@[j]) >> high_bit_offset)
                    == 0,
        decreases n - i,
    {
        let x = op.lanes[i];
        let m = mask.lanes[i];
        direct = direct && ((x & m) >> high_bit_offset) == 0;
        negated = negated && ((!x & m) >> high_bit_offset) == 0;
        i = i + 1;
    }
    (direct, negated)
}

/// The high bit of a lane of width `w`.
pub open spec fn high_bit(b: u64, w: nat) -> bool {
    b >= pow2((w - 1) as nat)
}

/// The little-endian integer that the bytes `s` spell.
pub open spec fn le_value(s: Seq<u8>) -> int
    decreases s.len(),
{
    if s.len() == 0 {
        0
    } else {
        s[0] + 256 * le_value(s.drop_first())
    }
}

/// Byte `k` (lowest first) of a lane.
pub open spec fn byte_of(v: u64, k: int) -> u8 {
    ((v as int / pow2((8 * k) as nat) as int) % 256) as u8
}

/// The bytes of lane `i` of `lb` bytes each, starting at `ptr`, are within
/// a memory of `len` bytes.
pub open spec fn lane_in_bounds(ptr: int, lb: int, i: int, len: int) -> bool {
    ptr + (i + 1) * lb <= len
}

/// Every lane that `mask` selects lies within a memory of `len` bytes.
pub open spec fn selected_in_bounds(mask: &Vector, ptr: int, lb: int, len: int) -> bool {
    forall|i: int|
        0 <= i < mask.lanes@.len() && #[trigger] high_bit(mask.lanes@[i], mask.ty.width())
            ==> lane_in_bounds(ptr, lb, i, len)
}

/// Lane `i` of a masked load: the `lb` bytes at `ptr + i * lb` where the
/// mask lane's high bit is set, else zero.
pub open spec fn loaded_lane(mem: Seq<u8>, ptr: int, lb: int, mask: &Vector, i: int) -> u64 {
    if high_bit(mask.lanes@[i], mask.ty.width()) {
        le_value(mem.subrange(ptr + i * lb, ptr + i * lb + lb)) as u64
    } else {
        0
    }
}

proof fn lemma_le_value_bound(s: Seq<u8>)
    ensures
        0 <= le_value(s) < pow2((8 * s.len()) as nat),
    decreases s.len(),
{
    vstd::arithmetic::power2::lemma2_to64();
    if s.len() > 0 {
        lemma_le_value_bound(s.drop_first());
        lemma_pow2_adds(8, (8 * (s.len() - 1)) as nat);
        let p = pow2((8 * (s.len() - 1)) as nat) as int;
        assert(s[0] + 256 * le_value(s.drop_first()) < 256 * p) by (nonlinear_arith)
            requires
                0 <= s[0] < 256,
                le_value(s.drop_first()) < p,
                0 <= le_value(s.drop_first()),
        ;
    }
}

/// Reads `lb` bytes at `start` as a little-endian lane.
fn read_lane(mem: &Vec<u8>, start: usize, lb: usize) -> (r: u64)
    requires
        1 <= lb <= 8,
        start + lb <= mem@.len(),
    ensures
        r == le_value(mem@.subrange(start as int, start + lb)),
        r < pow2((8 * lb) as nat),
{
    let len = mem.len();
    let mut acc: u64 = 0;
    let mut k: usize = lb;
    proof {
        lemma_widths();
        assert(mem@.subrange(start + lb, start + lb) =~= Seq::<u8>::empty());
    }
    while k > 0
        invariant
            k <= lb <= 8,
            len == mem@.len(),
            start + lb <= mem@.len(),
            acc == le_value(mem@.subrange(start + k, start + lb)),
        decreases k,
    {
        let ghost tail = mem@.subrange(start + k, start + lb);
        let ghost s = mem@.subrange(start + k - 1, start + lb);
        proof {
            assert(s.drop_first() =~= tail);
            lemma_le_value_bound(tail);
            lemma_widths();
            vstd::arithmetic::power2::lemma_pow2_strictly_increases((8 * (lb - k)) as nat, 64);
            lemma_pow2_adds(8, (8 * (lb - k)) as nat);
            if lb - k < 7 {
                vstd::arithmetic::power2::lemma_pow2_strictly_increases(
                    (8 * (lb - k) + 8) as nat,
                    64,
                );
            }
        }
        proof {
            let p = pow2((8 * (lb - k)) as nat) as int;
            assert(acc < p);
            assert(pow2((8 * (lb - k) + 8) as nat) == 256 * p);
            assert(pow2((8 * (lb - k) + 8) as nat) <= 0x1_0000_0000_0000_0000);
            assert(mem[start + k - 1] + 256 * acc < 256 * p) by (nonlinear_arith)
                requires
                    acc < p,
                    mem[start + k - 1] < 256,
            ;
        }
        acc = mem[start + k - 1] as u64 + 256 * acc;
        k = k - 1;
    }
    proof {
        assert(mem@.subrange(start as int, start + lb) == mem@.subrange(start + 0, start + lb));
        lemma_le_value_bound(mem@.subrange(start as int, start + lb));
    }
    acc
}

/// Width of a lane in bytes.
pub open spec fn lane_bytes(ty: LaneType) -> int {
    ty.width() as int / 8
}

/// Loads lane `i` from the `lane_bytes` bytes at `ptr + i * lane_bytes`
/// where the high bit of mask lane `i` is set, and zero elsewhere. The
/// address need not be aligned. A selected lane beyond `mem` is an error,
/// and then nothing is loaded.
pub fn mask_load(mem: &Vec<u8>, ptr: usize, mask: &Vector, dest_ty: LaneType) -> (r: Result<
    Vector,
    SimdError,
>)
    requires
        mask.wf(),
    ensures
        !selected_in_bounds(mask, ptr as int, lane_bytes(dest_ty), mem@.len() as int) <==> r
            == Err::<Vector, SimdError>(SimdError::OutOfBounds),
        selected_in_bounds(mask, ptr as int, lane_bytes(dest_ty), mem@.len() as int) ==> (r matches Ok(v) && v.ty == dest_ty
            && v.wf() && v.lanes@.len() == mask.lanes@.len() && forall|i: int|
            0 <= i < v.lanes@.len() ==> #[trigger] v.lanes@[i] == loaded_lane(
                mem@,
                ptr as int,
                lane_bytes(dest_ty),
                mask,
                i,
            )),
{
    let lb = (dest_ty.bits() / 8) as usize;
    let mw = mask.ty.bits();
    proof {
        lemma_widths();
        vstd::arithmetic::power2::lemma2_to64();
    }
    let half = pow2_u128(mw - 1);
    let n = mask.lanes.len();
    let mut lanes: Vec<u64> = Vec::new();
    let mut i: usize = 0;
    while i < n
        invariant
            n == mask.lanes@.len(),
            lb == lane_bytes(dest_ty),
            1 <= lb <= 8,
            8 * lb == dest_ty.width(),
            mw == mask.ty.width(),
            half == pow2((mw - 1) as nat),
            i <= n,
            lanes@.len() == i,
            forall|j: int|
                0 <= j < i ==> #[trigger] high_bit(mask.lanes@[j], mask.ty.width())
                    ==> lane_in_bounds(ptr as int, lb as int, j, mem@.len() as int),
            forall|j: int|
                0 <= j < i ==> #[trigger] lanes@[j] == loaded_lane(
                    mem@,
                    ptr as int,
                    lb as int,
                    mask,
                    j,
                ) && lanes@[j] < modulus(dest_ty.width()),
        decreases n - i,
    {
        if mask.lanes[i] as u128 >= half {
            proof {
                assert(i * lb <= 8 * 0x1_0000_0000_0000_0000) by (nonlinear_arith)
                    requires
                        i < 0x1_0000_0000_0000_0000,
                        lb <= 8,
                ;
            }
            let start = ptr as u128 + i as u128 * lb as u128;
            assert(start == ptr + i * lb);
            if start + lb as u128 > mem.len() as u128 {
                proof {
                    assert(high_bit(mask.lanes@[i as int], mask.ty.width()));
                    assert(ptr + (i + 1) * lb == start + lb) by (nonlinear_arith)
                        requires
                            start == ptr + i * lb,
                    ;
                    assert(!lane_in_bounds(ptr as int, lb as int, i as int, mem@.len() as int));
                }
                return Err(SimdError::OutOfBounds);
            }
            proof {
                assert(ptr + (i + 1) * lb == start + lb) by (nonlinear_arith)
                    requires
                        start == ptr + i * lb,
                ;
            }
            let v = read_lane(mem, start as usize, lb);
            assert(v == loaded_lane(mem@, ptr as int, lb as int, mask, i as int));
            assert(v < modulus(dest_ty.width()));
            lanes.push(v);
        } else {
            proof {
                lemma_pow2_pos(dest_ty.width());
            }
            lanes.push(0);
        }
        i = i + 1;
    }
    Ok(Vector { ty: dest_ty, lanes })
}

/// Byte `p` of memory after a masked store of the lanes of `value` at
/// `ptr`, where only the first `limit` bytes of the stored range count:
/// a byte of a lane whose mask high bit is set takes that lane's byte, and
/// every other byte keeps its value in `before`.
pub open spec fn stored_byte(
    before: Seq<u8>,
    ptr: int,
    lb: int,
    mask: &Vector,
    value: Seq<u64>,
    limit: int,
    p: int,
) -> u8 {
    let q = p - ptr;
    if 0 <= q < limit && high_bit(mask.lanes@[q / lb], mask.ty.width()) {
        byte_of(value[q / lb], q % lb)
    } else {
        before[p]
    }
}

/// Byte `k` (lowest first) of a lane.
fn lane_byte(v: u64, k: usize) -> (r: u8)
    requires
        k < 8,
    ensures
        r == byte_of(v, k as int),
{
    proof {
        lemma_pow2_pos((8 * k) as nat);
    }
    ((v as u128 / pow2_u128((8 * k) as u32)) % 256) as u8
}

/// Stores lane `i` of `value` to the `lane_bytes` bytes at
/// `ptr + i * lane_bytes` where the high bit of mask lane `i` is set, and
/// leaves all other memory untouched. The address need not be aligned. A
/// selected lane beyond `mem` is an error, and then nothing is stored.
pub fn mask_store(mem: &mut Vec<u8>, ptr: usize, mask: &Vector, value: &Vector) -> (r: Result<
    (),
    SimdError,
>)
    requires
        mask.wf(),
        value.lanes@.len() == mask.lanes@.len(),
    ensures
        !selected_in_bounds(mask, ptr as int, lane_bytes(value.ty), old(mem)@.len() as int) <==> r
            == Err::<(), SimdError>(SimdError::OutOfBounds),
        selected_in_bounds(mask, ptr as int, lane_bytes(value.ty), old(mem)@.len() as int) ==> r
            is Ok,
        r is Err ==> final(mem)@ == old(mem)@,
        final(mem)@.len() == old(mem)@.len(),
        r is Ok ==> forall|p: int|
            0 <= p < final(mem)@.len() ==> #[trigger] final(mem)@[p] == stored_byte(
                old(mem)@,
                ptr as int,
                lane_bytes(value.ty),
                mask,
                value.lanes@,
                mask.lanes@.len() * lane_bytes(value.ty),
                p,
            ),
{
    let lb = (value.ty.bits() / 8) as usize;
    let mw = mask.ty.bits();
    proof {
        lemma_widths();
        vstd::arithmetic::power2::lemma2_to64();
    }
    let half = pow2_u128(mw - 1);
    let n = mask.lanes.len();
    let len = mem.len();
    // Every selected lane is checked before any byte is written.
    let mut i: usize = 0;
    while i < n
        invariant
            n == mask.lanes@.len(),
            len == mem@.len(),
            lb == lane_bytes(value.ty),
            1 <= lb <= 8,
            mw == mask.ty.width(),
            half == pow2((mw - 1) as nat),
            i <= n,
            forall|j: int|
                0 <= j < i ==> #[trigger] high_bit(mask.lanes@[j], mask.ty.width())
                    ==> lane_in_bounds(ptr as int, lb as int, j, len as int),
        decreases n - i,
    {
        proof {
            assert(i * lb <= 8 * 0x1_0000_0000_0000_0000) by (nonlinear_arith)
                requires
                    i < 0x1_0000_0000_0000_0000,
                    lb <= 8,
            ;
        }
        let end = ptr as u128 + i as u128 * lb as u128 + lb as u128;
        proof {
            assert(ptr + (i + 1) * lb == end) by (nonlinear_arith)
                requires
                    end == ptr + i * lb + lb,
            ;
        }
        if mask.lanes[i] as u128 >= half && end > len as u128 {
            proof {
                assert(high_bit(mask.lanes@[i as int], mask.ty.width()));
            }
            return Err(SimdError::OutOfBounds);
        }
        i = i + 1;
    }
    let ghost before = mem@;
    let mut i: usize = 0;
    while i < n
        invariant
            n == mask.lanes@.len(),
            n == value.lanes@.len(),
            len == mem@.len(),
            len == before.len(),
            lb == lane_bytes(value.ty),
            1 <= lb <= 8,
            mw == mask.ty.width(),
            half == pow2((mw - 1) as nat),
            i <= n,
            forall|j: int|
                0 <= j < n ==> #[trigger] high_bit(mask.lanes@[j], mask.ty.width())
                    ==> lane_in_bounds(ptr as int, lb as int, j, len as int),
            forall|p: int|
                0 <= p < len ==> #[trigger] mem@[p] == stored_byte(
                    before,
                    ptr as int,
                    lb as int,
                    mask,
                    value.lanes@,
                    i * lb,
                    p,
                ),
        decreases n - i,
    {
        let selected = mask.lanes[i] as u128 >= half;
        let mut k: usize = 0;
        while k < lb
            invariant
                n == mask.lanes@.len(),
                n == value.lanes@.len(),
                len == mem@.len(),
                len == before.len(),
                lb == lane_bytes(value.ty),
                1 <= lb <= 8,
                i < n,
                k <= lb,
                selected == high_bit(mask.lanes@[i as int], mask.ty.width()),
                selected ==> lane_in_bounds(ptr as int, lb as int, i as int, len as int),
                forall|p: int|
                    0 <= p < len ==> #[trigger] mem@[p] == stored_byte(
                        before,
                        ptr as int,
                        lb as int,
                        mask,
                        value.lanes@,
                        i * lb + k,
                        p,
                    ),
            decreases lb - k,
        {
            let ghost lim = i * lb + k;
            proof {
                vstd::arithmetic::div_mod::lemma_fundamental_div_mod_converse(
                    lim,
                    lb as int,
                    i as int,
                    k as int,
                );
            }
            if selected {
                proof {
                    assert(ptr + lim < len) by (nonlinear_arith)
                        requires
                            ptr + (i + 1) * lb <= len,
                            lim == i * lb + k,
                            k < lb,
                    ;
                }
                let b = lane_byte(value.lanes[i], k);
                let pos = ptr + i * lb + k;
                mem.set(pos, b);
            }
            proof {
                assert forall|p: int| 0 <= p < len implies #[trigger] mem@[p] == stored_byte(
                    before,
                    ptr as int,
                    lb as int,
                    mask,
                    value.lanes@,
                    lim + 1,
                    p,
                ) by {
                    if p - ptr != lim {
                        assert(stored_byte(before, ptr as int, lb as int, mask, value.lanes@, lim + 1, p)
                            == stored_byte(before, ptr as int, lb as int, mask, value.lanes@, lim, p));
                    }
                }
            }
            k = k + 1;
        }
        proof {
            assert((i + 1) * lb == i * lb + lb) by (nonlinear_arith);
        }
        i = i + 1;
    }
    proof {
        assert(n * lb == mask.lanes@.len() * lane_bytes(value.ty));
    }
    Ok(())
}

} // verus!
