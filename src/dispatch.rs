//! Routing of x86 intrinsic names, and the carry-chain intrinsics that are
//! computed here directly.
use vstd::prelude::*;
use vstd::string::StringSliceAdditionalSpecFns;

use crate::lane::{lemma_widths, modulus, pow2_u128};

verus! {

/// The families of x86 intrinsics, by the prefix of their name.
#[derive(Clone, Copy, Debug, PartialEq, Eq, Structural)]
pub enum Family {
    Sse,
    Sse2,
    Sse3,
    Ssse3,
    Sse41,
    Aesni,
    Avx,
    Avx2,
}

/// What an x86 intrinsic name (without its `llvm.x86.` prefix) asks for.
#[derive(Clone, Copy, Debug, PartialEq, Eq, Structural)]
pub enum Intrinsic {
    /// `addcarry.32` or `addcarry.64`: add with carry in and carry out.
    AddCarry { width: u32 },
    /// `subborrow.32` or `subborrow.64`: subtract with borrow in and out.
    SubBorrow { width: u32 },
    /// `sse2.pause`: a spin-loop hint.
    Pause,
    /// An intrinsic of one of the vector families.
    Vector(Family),
    /// A name that this module does not handle.
    NotSupported,
}

pub open spec fn starts_with(s: Seq<u8>, p: Seq<u8>) -> bool {
    p.len() <= s.len() && s.subrange(0, p.len() as int) == p
}

fn has_prefix(s: &[u8], p: &[u8]) -> (r: bool)
    ensures
        r == starts_with(s@, p@),
{
    if p.len() > s.len() {
        return false;
    }
    let mut i: usize = 0;
    while i < p.len()
        invariant
            p@.len() <= s@.len(),
            i <= p@.len(),
            forall|j: int| 0 <= j < i ==> s@[j] == p@[j],
        decreases p@.len() - i,
    {
        if s[i] != p[i] {
            assert(s@.subrange(0, p@.len() as int)[i as int] != p@[i as int]);
            return false;
        }
        i = i + 1;
    }
    assert(s@.subrange(0, p@.len() as int) =~= p@);
    true
}

fn same_bytes(s: &[u8], p: &[u8]) -> (r: bool)
    ensures
        r == (s@ == p@),
{
    if s.len() != p.len() {
        return false;
    }
    let r = has_prefix(s, p);
    proof {
        assert(s@ =~= s@.subrange(0, p@.len() as int));
    }
    r
}

/// The vector family whose prefix `name` carries, if any.
pub open spec fn family_of(name: Seq<u8>) -> Option<Family> {
    if starts_with(name, "sse.".spec_bytes()) {
        Some(Family::Sse)
    } else if starts_with(name, "sse2.".spec_bytes()) {
        Some(Family::Sse2)
    } else if starts_with(name, "sse3.".spec_bytes()) {
        Some(Family::Sse3)
    } else if starts_with(name, "ssse3.".spec_bytes()) {
        Some(Family::Ssse3)
    } else if starts_with(name, "sse41.".spec_bytes()) {
        Some(Family::Sse41)
    } else if starts_with(name, "aesni.".spec_bytes()) {
        Some(Family::Aesni)
    } else if starts_with(name, "avx.".spec_bytes()) {
        Some(Family::Avx)
    } else if starts_with(name, "avx2.".spec_bytes()) {
        Some(Family::Avx2)
    } else {
        None
    }
}

/// What the intrinsic named `name` (its bytes, without the `llvm.x86.`
/// prefix) is, on a 64-bit target or not. The 64-bit carry chains exist on
/// x86_64 only.
pub open spec fn intrinsic_of(name: Seq<u8>, is_x86_64: bool) -> Intrinsic {
    if name == "addcarry.32".spec_bytes() {
        Intrinsic::AddCarry { width: 32 }
    } else if name == "addcarry.64".spec_bytes() {
        if is_x86_64 {
            Intrinsic::AddCarry { width: 64 }
        } else {
            Intrinsic::NotSupported
        }
    } else if name == "subborrow.32".spec_bytes() {
        Intrinsic::SubBorrow { width: 32 }
    } else if name == "subborrow.64".spec_bytes() {
        if is_x86_64 {
            Intrinsic::SubBorrow { width: 64 }
        } else {
            Intrinsic::NotSupported
        }
    } else if name == "sse2.pause".spec_bytes() {
        Intrinsic::Pause
    } else {
        match family_of(name) {
            Some(f) => Intrinsic::Vector(f),
            None => Intrinsic::NotSupported,
        }
    }
}

/// Routes an x86 intrinsic name (without its `llvm.x86.` prefix).
pub fn route_x86_intrinsic(name: &str, is_x86_64: bool) -> (r: Intrinsic)
    ensures
        r == intrinsic_of(name.spec_bytes(), is_x86_64),
{
    let n = name.as_bytes();
    if same_bytes(n, "addcarry.32".as_bytes()) {
        Intrinsic::AddCarry { width: 32 }
    } else if same_bytes(n, "addcarry.64".as_bytes()) {
        if is_x86_64 {
            Intrinsic::AddCarry { width: 64 }
        } else {
            Intrinsic::NotSupported
        }
    } else if same_bytes(n, "subborrow.32".as_bytes()) {
        Intrinsic::SubBorrow { width: 32 }
    } else if same_bytes(n, "subborrow.64".as_bytes()) {
        if is_x86_64 {
            Intrinsic::SubBorrow { width: 64 }
        } else {
            Intrinsic::NotSupported
        }
    } else if same_bytes(n, "sse2.pause".as_bytes()) {
        Intrinsic::Pause
    } else if has_prefix(n, "sse.".as_bytes()) {
        Intrinsic::Vector(Family::Sse)
    } else if has_prefix(n, "sse2.".as_bytes()) {
        Intrinsic::Vector(Family::Sse2)
    } else if has_prefix(n, "sse3.".as_bytes()) {
        Intrinsic::Vector(Family::Sse3)
    } else if has_prefix(n, "ssse3.".as_bytes()) {
        Intrinsic::Vector(Family::Ssse3)
    } else if has_prefix(n, "sse41.".as_bytes()) {
        Intrinsic::Vector(Family::Sse41)
    } else if has_prefix(n, "aesni.".as_bytes()) {
        Intrinsic::Vector(Family::Aesni)
    } else if has_prefix(n, "avx.".as_bytes()) {
        Intrinsic::Vector(Family::Avx)
    } else if has_prefix(n, "avx2.".as_bytes()) {
        Intrinsic::Vector(Family::Avx2)
    } else {
        Intrinsic::NotSupported
    }
}

/// `a + b + carry` on integers of `width` bits, where a nonzero `c_in`
/// counts as a carry of 1: returns the carry out (0 or 1) and the sum
/// modulo `2^width`.
pub fn addcarry(c_in: u8, a: u64, b: u64, width: u32) -> (r: (u8, u64))
    requires
        width == 32 || width == 64,
        a < modulus(width as nat),
        b < modulus(width as nat),
    ensures
        ({
            let total = a + b + (if c_in != 0 {
                1int
            } else {
                0int
            });
            &&& r.0 == (if total >= modulus(width as nat) {
                1u8
            } else {
                0u8
            })
            &&& r.1 == total % modulus(width as nat)
        }),
{
    proof {
        lemma_widths();
    }
    let m = pow2_u128(width);
    let c: u128 = if c_in != 0 {
        1
    } else {
        0
    };
    let total = a as u128 + b as u128 + c;
    let c_out: u8 = if total >= m {
        1
    } else {
        0
    };
    (c_out, (total % m) as u64)
}

/// `a - b - borrow` on integers of `width` bits, where a nonzero `b_in`
/// counts as a borrow of 1: returns the borrow out (0 or 1) and the
/// difference modulo `2^width`.
pub fn subborrow(b_in: u8, a: u64, b: u64, width: u32) -> (r: (u8, u64))
    requires
        width == 32 || width == 64,
        a < modulus(width as nat),
        b < modulus(width as nat),
    ensures
        ({
            let total = a - b - (if b_in != 0 {
                1int
            } else {
                0int
            });
            &&& r.0 == (if total < 0 {
                1u8
            } else {
                0u8
            })
            &&& r.1 == total % modulus(width as nat)
        }),
{
    proof {
        lemma_widths();
    }
    let m = pow2_u128(width);
    let c: u128 = if b_in != 0 {
        1
    } else {
        0
    };
    let pos = a as u128;
    let neg = b as u128 + c;
    if pos >= neg {
        (0, ((pos - neg) % m) as u64)
    } else {
        proof {
            vstd::arithmetic::div_mod::lemma_fundamental_div_mod_converse(
                pos - neg,
                m as int,
                -1,
                m + pos - neg,
            );
        }
        (1, (m + pos - neg) as u64)
    }
}

} // verus!
