//! Lane types, vectors of lanes, and the 128-bit chunk view.
use vstd::arithmetic::power2::{lemma_pow2_unfold, pow2};
use vstd::prelude::*;

verus! {

/// The type of every lane of a vector.
#[derive(Clone, Copy, Debug, PartialEq, Eq, Structural)]
pub enum LaneType {
    Int8,
    Int16,
    Int32,
    Int64,
    UInt8,
    UInt16,
    UInt32,
    UInt64,
    Float32,
    Float64,
}

impl LaneType {
    /// Width of one lane in bits.
    pub open spec fn width(self) -> nat {
        match self {
            LaneType::Int8 | LaneType::UInt8 => 8,
            LaneType::Int16 | LaneType::UInt16 => 16,
            LaneType::Int32 | LaneType::UInt32 | LaneType::Float32 => 32,
            LaneType::Int64 | LaneType::UInt64 | LaneType::Float64 => 64,
        }
    }

    pub open spec fn is_float(self) -> bool {
        self is Float32 || self is Float64
    }

    pub open spec fn is_signed_int(self) -> bool {
        self is Int8 || self is Int16 || self is Int32 || self is Int64
    }

    pub open spec fn is_int(self) -> bool {
        !self.is_float()
    }

    pub fn bits(&self) -> (r: u32)
        ensures
            r == self.width(),
    {
        match self {
            LaneType::Int8 | LaneType::UInt8 => 8,
            LaneType::Int16 | LaneType::UInt16 => 16,
            LaneType::Int32 | LaneType::UInt32 | LaneType::Float32 => 32,
            LaneType::Int64 | LaneType::UInt64 | LaneType::Float64 => 64,
        }
    }

    pub fn is_float_lane(&self) -> (r: bool)
        ensures
            r == self.is_float(),
    {
        matches!(self, LaneType::Float32 | LaneType::Float64)
    }

    pub fn is_signed(&self) -> (r: bool)
        ensures
            r == self.is_signed_int(),
    {
        matches!(self, LaneType::Int8 | LaneType::Int16 | LaneType::Int32 | LaneType::Int64)
    }
}

/// A binary arithmetic operation.
#[derive(Clone, Copy, Debug, PartialEq, Eq, Structural)]
pub enum ArithOp {
    Add,
    Sub,
    Mul,
    Div,
}

/// `2^w` as an integer.
pub open spec fn modulus(w: nat) -> int {
    pow2(w) as int
}

/// The two's-complement value of the low `w` bits held in `b`.
pub open spec fn signed_value(b: u64, w: nat) -> int {
    if b >= pow2((w - 1) as nat) {
        b - modulus(w)
    } else {
        b as int
    }
}

/// The lane of width `w` that holds `x` modulo `2^w`.
pub open spec fn wrap(x: int, w: nat) -> u64 {
    (x % modulus(w)) as u64
}

/// Every lane of `s` fits in `w` bits.
pub open spec fn lanes_fit(s: Seq<u64>, w: nat) -> bool {
    forall|i: int| 0 <= i < s.len() ==> #[trigger] s[i] < modulus(w)
}

/// A vector: a lane type and the bits of each lane.
#[derive(Clone, Debug)]
pub struct Vector {
    pub ty: LaneType,
    pub lanes: Vec<u64>,
}

impl Vector {
    /// Each lane holds no bit above the lane width.
    pub open spec fn wf(&self) -> bool {
        lanes_fit(self.lanes@, self.ty.width())
    }

    /// The total width of the vector in bits.
    pub open spec fn total_bits(&self) -> int {
        (self.lanes@.len() * self.ty.width()) as int
    }

    /// The vector splits into whole 128-bit chunks.
    pub open spec fn chunked(&self) -> bool {
        self.total_bits() % 128 == 0
    }

    /// Lanes of one 128-bit chunk.
    pub open spec fn per_chunk(&self) -> int {
        128int / (self.ty.width() as int)
    }
}

/// Facts on the powers of two that the lane widths use.
pub proof fn lemma_widths()
    ensures
        pow2(7) == 128,
        pow2(8) == 256,
        pow2(15) == 0x8000,
        pow2(16) == 0x10000,
        pow2(31) == 0x8000_0000,
        pow2(32) == 0x1_0000_0000,
        pow2(63) == 0x8000_0000_0000_0000,
        pow2(64) == 0x1_0000_0000_0000_0000,
{
    vstd::arithmetic::power2::lemma2_to64();
    vstd::arithmetic::power2::lemma2_to64_rest();
    lemma_pow2_unfold(64);
}

/// `2^s` for a shift below 128.
pub fn pow2_u128(s: u32) -> (r: u128)
    requires
        s < 128,
    ensures
        r == pow2(s as nat),
{
    let mut r: u128 = 1;
    let mut i: u32 = 0;
    proof {
        vstd::arithmetic::power2::lemma2_to64();
    }
    while i < s
        invariant
            i <= s,
            s < 128,
            r == pow2(i as nat),
        decreases s - i,
    {
        proof {
            lemma_pow2_unfold((i + 1) as nat);
            vstd::arithmetic::power2::lemma_pow2_strictly_increases((i + 1) as nat, 128);
            vstd::arithmetic::power2::lemma_pow2_adds(64, 64);
            lemma_widths();
        }
        r = r * 2;
        i = i + 1;
    }
    r
}

/// The lane widths that integer lanes come in.
pub open spec fn valid_width(w: nat) -> bool {
    w == 8 || w == 16 || w == 32 || w == 64
}

pub proof fn lemma_width_powers(w: nat)
    requires
        valid_width(w),
    ensures
        pow2((w - 1) as nat) * 2 == pow2(w),
        pow2(w) <= 0x1_0000_0000_0000_0000,
        pow2(w) >= 256,
{
    lemma_widths();
    vstd::arithmetic::power2::lemma2_to64();
}

/// The two's-complement value of an integer lane.
pub fn signed_lane(b: u64, w: u32) -> (r: i128)
    requires
        valid_width(w as nat),
        b < modulus(w as nat),
    ensures
        r == signed_value(b, w as nat),
        -0x8000_0000_0000_0000 <= r < 0x8000_0000_0000_0000,
{
    proof {
        lemma_width_powers(w as nat);
    }
    let half = pow2_u128(w - 1);
    if b as u128 >= half {
        b as i128 - pow2_u128(w) as i128
    } else {
        b as i128
    }
}

proof fn lemma_neg_mod(y: int, m: int)
    requires
        y > 0,
        m > 0,
    ensures
        (-y) % m == (m - y % m) % m,
{
    vstd::arithmetic::div_mod::lemma_fundamental_div_mod(y, m);
    vstd::arithmetic::div_mod::lemma_mod_multiples_vanish(y / m + 1, -y, m);
    assert(m * (y / m + 1) + (-y) == m - y % m) by (nonlinear_arith)
        requires
            y == m * (y / m) + y % m,
    ;
}

/// The lane of width `w` that holds `x` modulo `2^w`.
pub fn wrap_lane(x: i128, w: u32) -> (r: u64)
    requires
        valid_width(w as nat),
        -0x1_0000_0000_0000_0000_0000_0000 < x < 0x1_0000_0000_0000_0000_0000_0000,
    ensures
        r == wrap(x as int, w as nat),
        r < modulus(w as nat),
{
    proof {
        lemma_width_powers(w as nat);
    }
    let m = pow2_u128(w);
    if x >= 0 {
        ((x as u128) % m) as u64
    } else {
        let y = ((-x) as u128) % m;
        proof {
            lemma_neg_mod(-x as int, m as int);
        }
        ((m - y) % m) as u64
    }
}

pub proof fn lemma_floor_div_neg(y: int, p: int)
    requires
        y > 0,
        p > 0,
    ensures
        (-y) / p == -((y + p - 1) / p),
{
    let q = (y + p - 1) / p;
    let t = (y + p - 1) % p;
    vstd::arithmetic::div_mod::lemma_fundamental_div_mod(y + p - 1, p);
    vstd::arithmetic::div_mod::lemma_mod_bound(y + p - 1, p);
    assert(-y == p * (-q) + (p - 1 - t)) by (nonlinear_arith)
        requires
            y + p - 1 == p * q + t,
    ;
    vstd::arithmetic::div_mod::lemma_fundamental_div_mod_converse(-y, p, -q, p - 1 - t);
}

/// Division of `x` by a positive `d`, rounding down.
pub fn floor_div(x: i128, d: u128) -> (r: i128)
    requires
        0 < d < 0x1_0000_0000_0000_0000_0000_0000,
        -0x1_0000_0000_0000_0000_0000_0000 < x < 0x1_0000_0000_0000_0000_0000_0000,
    ensures
        r == x as int / d as int,
{
    if x >= 0 {
        proof {
            vstd::arithmetic::div_mod::lemma_div_is_ordered_by_denominator(x as int, 1, d as int);
        }
        (x as u128 / d) as i128
    } else {
        let y = (-x) as u128;
        proof {
            lemma_floor_div_neg(y as int, d as int);
            vstd::arithmetic::div_mod::lemma_div_is_ordered_by_denominator(
                (y + d - 1) as int,
                1,
                d as int,
            );
        }
        -(((y + d - 1) / d) as i128)
    }
}

} // verus!
