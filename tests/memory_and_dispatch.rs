use x86_simd::dispatch::{addcarry, route_x86_intrinsic, subborrow, Family, Intrinsic};
use x86_simd::fd::NullOutput;
use x86_simd::lane::{LaneType, Vector};
use x86_simd::mask::{mask_load, mask_store, test_bits_masked, test_high_bits_masked};
use x86_simd::scalar::SimdError;

fn v(ty: LaneType, lanes: Vec<u64>) -> Vector {
    Vector { ty, lanes }
}

#[test]
fn mask_load_selects_lanes() {
    let mem: Vec<u8> = (1..=20).collect();
    let mask = v(LaneType::Int32, vec![0x8000_0000, 0, 0xFFFF_FFFF, 0x7FFF_FFFF]);
    let r = mask_load(&mem, 1, &mask, LaneType::Int32).unwrap();
    assert_eq!(r.lanes, vec![0x0504_0302, 0, 0x0D0C_0B0A, 0]);
    // Clear masks never touch memory, even where none is.
    let clear = v(LaneType::Int32, vec![0; 4]);
    let r = mask_load(&mem, 1000, &clear, LaneType::Int32).unwrap();
    assert_eq!(r.lanes, vec![0, 0, 0, 0]);
    // A full mask is a plain unaligned copy.
    let full = v(LaneType::Int64, vec![u64::MAX, u64::MAX]);
    let r = mask_load(&mem, 3, &full, LaneType::Int64).unwrap();
    assert_eq!(r.lanes, vec![0x0B0A_0908_0706_0504, 0x1312_1110_0F0E_0D0C]);
    assert_eq!(mask_load(&mem, 5, &full, LaneType::Int64).unwrap_err(), SimdError::OutOfBounds);
}

#[test]
fn mask_store_selects_lanes() {
    let mut mem = vec![0xAAu8; 12];
    let mask = v(LaneType::Int32, vec![0x8000_0000, 0, 0x8000_0001]);
    let value = v(LaneType::Int32, vec![0x0403_0201, 0x0807_0605, 0x0C0B_0A09]);
    assert_eq!(mask_store(&mut mem, 0, &mask, &value), Ok(()));
    assert_eq!(mem, vec![1, 2, 3, 4, 0xAA, 0xAA, 0xAA, 0xAA, 9, 10, 11, 12]);
    let mut mem = vec![0x55u8; 6];
    let clear = v(LaneType::Int32, vec![0; 3]);
    assert_eq!(mask_store(&mut mem, 1000, &clear, &value), Ok(()));
    assert_eq!(mem, vec![0x55; 6]);
    // Nothing is written when a selected lane does not fit.
    let full = v(LaneType::Int32, vec![0xFFFF_FFFF; 3]);
    assert_eq!(mask_store(&mut mem, 1, &full, &value), Err(SimdError::OutOfBounds));
    assert_eq!(mem, vec![0x55; 6]);
    let mut mem = vec![0u8; 13];
    assert_eq!(mask_store(&mut mem, 1, &full, &value), Ok(()));
    assert_eq!(mem, vec![0, 1, 2, 3, 4, 5, 6, 7, 8, 9, 10, 11, 12]);
}

#[test]
fn bit_tests_under_mask() {
    let op = v(LaneType::Int64, vec![0b1010, 0]);
    let mask = v(LaneType::Int64, vec![0b0101, 0]);
    assert_eq!(test_bits_masked(&op, &mask), (true, false));
    let mask = v(LaneType::Int64, vec![0b1000, 0]);
    assert_eq!(test_bits_masked(&op, &mask), (false, true));
    let op = v(LaneType::Float32, vec![0x8000_0000, 0x0000_0001]);
    let mask = v(LaneType::Float32, vec![0x8000_0000, 0x8000_0000]);
    // Lane 0 has the high bit in `op & mask`; lane 1 in `!op & mask`.
    assert_eq!(test_high_bits_masked(&op, &mask), (false, false));
    let op = v(LaneType::Float32, vec![0x8000_0000, 0xFFFF_FFFF]);
    assert_eq!(test_high_bits_masked(&op, &mask), (false, true));
    let op = v(LaneType::Float32, vec![0x7FFF_FFFF, 0]);
    assert_eq!(test_high_bits_masked(&op, &mask), (true, false));
}

#[test]
fn carry_chains() {
    assert_eq!(addcarry(0, 0xFFFF_FFFF, 1, 32), (1, 0));
    assert_eq!(addcarry(7, 0xFFFF_FFFE, 1, 32), (1, 0));
    assert_eq!(addcarry(1, 2, 3, 32), (0, 6));
    assert_eq!(addcarry(1, u64::MAX, u64::MAX, 64), (1, u64::MAX));
    assert_eq!(subborrow(0, 0, 1, 32), (1, 0xFFFF_FFFF));
    assert_eq!(subborrow(1, 5, 2, 32), (0, 2));
    assert_eq!(subborrow(1, 0, 0, 64), (1, u64::MAX));
}

#[test]
fn routing_names() {
    assert_eq!(route_x86_intrinsic("addcarry.32", false), Intrinsic::AddCarry { width: 32 });
    assert_eq!(route_x86_intrinsic("addcarry.64", true), Intrinsic::AddCarry { width: 64 });
    assert_eq!(route_x86_intrinsic("addcarry.64", false), Intrinsic::NotSupported);
    assert_eq!(route_x86_intrinsic("subborrow.64", true), Intrinsic::SubBorrow { width: 64 });
    assert_eq!(route_x86_intrinsic("sse2.pause", false), Intrinsic::Pause);
    assert_eq!(route_x86_intrinsic("sse2.cmp.sd", false), Intrinsic::Vector(Family::Sse2));
    assert_eq!(route_x86_intrinsic("sse.max.ss", false), Intrinsic::Vector(Family::Sse));
    assert_eq!(route_x86_intrinsic("avx2.phadd.w", false), Intrinsic::Vector(Family::Avx2));
    assert_eq!(route_x86_intrinsic("avx.round.ps.256", false), Intrinsic::Vector(Family::Avx));
    assert_eq!(route_x86_intrinsic("sse41.dpps", false), Intrinsic::Vector(Family::Sse41));
    assert_eq!(route_x86_intrinsic("avx512.foo", false), Intrinsic::NotSupported);
    assert_eq!(route_x86_intrinsic("", false), Intrinsic::NotSupported);
}

#[test]
fn null_output_discards() {
    let mut out = NullOutput;
    assert_eq!(out.write(false, &[1, 2, 3]), 3);
    assert_eq!(out.write(true, &[]), 0);
    assert_eq!(out.name(), "stderr and stdout");
    assert_eq!(out.dup(), NullOutput);
}
