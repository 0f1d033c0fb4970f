use rand::rngs::StdRng;
use rand::{Rng, SeedableRng};
use x86_simd::chunked::{
    conditional_dot_product, horizontal_bin_op, mpsadbw, pack_generic, packssdw, packsswb,
    packusdw, packuswb, split_simd_to_128bit_chunks,
};
use x86_simd::float::RoundingMode;
use x86_simd::lane::{ArithOp, LaneType, Vector};
use x86_simd::lanewise::{
    bin_op_simd_float_all, bin_op_simd_float_first, convert_float_to_int, extract_first_u64,
    int_abs, pmulhrsw, psign, round_all, round_first, shift_simd_by_scalar, shift_simd_by_simd,
    unary_op_ps, unary_op_ss, ShiftOp,
};
use x86_simd::scalar::{FloatBinOp, FloatUnaryOp, SimdError};

fn v(ty: LaneType, lanes: Vec<u64>) -> Vector {
    Vector { ty, lanes }
}

fn f32s(xs: &[f32]) -> Vector {
    v(LaneType::Float32, xs.iter().map(|x| x.to_bits() as u64).collect())
}

fn to_f32s(r: &Vector) -> Vec<f32> {
    r.lanes.iter().map(|b| f32::from_bits(*b as u32)).collect()
}

fn i16s(xs: &[i16]) -> Vector {
    v(LaneType::Int16, xs.iter().map(|x| *x as u16 as u64).collect())
}

fn i32s(xs: &[i32]) -> Vector {
    v(LaneType::Int32, xs.iter().map(|x| *x as u32 as u64).collect())
}

#[test]
fn shift_by_lane_width_saturates() {
    let left = i16s(&[1, -2, 0x4000, -0x8000]);
    for (amount, l, rl, ra) in [
        (16u64, [0u64, 0, 0, 0], [0u64, 0, 0, 0], [0u64, 0xFFFF, 0, 0xFFFF]),
        (15, [0x8000, 0, 0, 0], [0, 1, 0, 1], [0, 0xFFFF, 0, 0xFFFF]),
        (1, [2, 0xFFFC, 0x8000, 0], [0, 0x7FFF, 0x2000, 0x4000], [0, 0xFFFF, 0x2000, 0xC000]),
        (u64::MAX, [0, 0, 0, 0], [0, 0, 0, 0], [0, 0xFFFF, 0, 0xFFFF]),
    ] {
        let amt = v(LaneType::Int64, vec![amount, 7]);
        assert_eq!(shift_simd_by_scalar(&left, &amt, ShiftOp::Left).lanes, l.to_vec());
        assert_eq!(shift_simd_by_scalar(&left, &amt, ShiftOp::RightLogic).lanes, rl.to_vec());
        assert_eq!(shift_simd_by_scalar(&left, &amt, ShiftOp::RightArith).lanes, ra.to_vec());
    }
}

#[test]
fn shift_amount_is_the_low_64_bits() {
    let amt = v(LaneType::Int32, vec![3, 0, 0xFFFF_FFFF, 0xFFFF_FFFF]);
    assert_eq!(extract_first_u64(&amt), 3);
    let big = v(LaneType::Int32, vec![0, 1, 0, 0]);
    assert_eq!(extract_first_u64(&big), 1u64 << 32);
    let left = i32s(&[1, -1, 8, 16]);
    assert_eq!(shift_simd_by_scalar(&left, &big, ShiftOp::Left).lanes, vec![0, 0, 0, 0]);
    assert_eq!(shift_simd_by_scalar(&left, &amt, ShiftOp::Left).lanes, vec![8, 0xFFFF_FFF8, 64, 128]);
}

#[test]
fn shift_per_lane() {
    let left = i32s(&[-16, -16, 5, 1]);
    let right = i32s(&[2, 40, 31, 31]);
    assert_eq!(
        shift_simd_by_simd(&left, &right, ShiftOp::RightArith).lanes,
        vec![0xFFFF_FFFC, 0xFFFF_FFFF, 0, 0]
    );
    assert_eq!(shift_simd_by_simd(&left, &right, ShiftOp::Left).lanes, vec![0xFFFF_FFC0, 0, 0x8000_0000, 0x8000_0000]);
    let w64 = v(LaneType::Int64, vec![u64::MAX, 1]);
    let amounts = v(LaneType::Int64, vec![63, 64]);
    assert_eq!(shift_simd_by_simd(&w64, &amounts, ShiftOp::RightLogic).lanes, vec![1, 0]);
    assert_eq!(shift_simd_by_simd(&w64, &amounts, ShiftOp::RightArith).lanes, vec![u64::MAX, 0]);
}

#[test]
fn pack_saturates_signed_and_unsigned() {
    let left = i16s(&[0x7FFF, -0x8000, 5, -5, 127, 128, -128, -129]);
    let right = i16s(&[1, 2, 3, 4, 255, 256, 0, -1]);
    let s = packsswb(&left, &right);
    assert_eq!(s.ty, LaneType::Int8);
    assert_eq!(&s.lanes[..8], &[0x7F, 0x80, 5, 0xFB, 0x7F, 0x7F, 0x80, 0x80]);
    assert_eq!(&s.lanes[8..], &[1, 2, 3, 4, 0x7F, 0x7F, 0, 0xFF]);
    let u = packuswb(&left, &right);
    assert_eq!(u.ty, LaneType::UInt8);
    assert_eq!(&u.lanes[..8], &[0xFF, 0x00, 5, 0, 127, 128, 0, 0]);
    assert_eq!(&u.lanes[8..], &[1, 2, 3, 4, 255, 255, 0, 0]);
}

#[test]
fn pack_32_to_16_per_chunk() {
    let left = i32s(&[0x1_0000, -0x1_0000, 7, -7, 1, 2, 3, 4]);
    let right = i32s(&[0x7FFF, 0x8000, -0x8000, -0x8001, 5, 6, 7, 8]);
    let s = packssdw(&left, &right);
    assert_eq!(s.lanes, vec![
        0x7FFF, 0x8000, 7, 0xFFF9, 0x7FFF, 0x7FFF, 0x8000, 0x8000,
        1, 2, 3, 4, 5, 6, 7, 8,
    ]);
    let u = packusdw(&left, &right);
    assert_eq!(u.lanes, vec![
        0xFFFF, 0, 7, 0, 0x7FFF, 0x8000, 0, 0,
        1, 2, 3, 4, 5, 6, 7, 8,
    ]);
    assert_eq!(pack_generic(&left, &right, true).lanes, u.lanes);
}

#[test]
fn horizontal_add_pairs_within_chunks() {
    let left = i32s(&[1, 2, 3, 4, 10, 20, 30, 40]);
    let right = i32s(&[5, 6, 7, 8, 50, 60, 70, 80]);
    let r = horizontal_bin_op(ArithOp::Add, false, &left, &right);
    assert_eq!(r.lanes, vec![3, 7, 11, 15, 30, 70, 110, 150]);
    let wrap = i32s(&[i32::MAX, 1, 0, 0]);
    let r = horizontal_bin_op(ArithOp::Add, false, &wrap, &wrap);
    assert_eq!(r.lanes[0], 0x8000_0000);
    let r = horizontal_bin_op(ArithOp::Sub, false, &left, &right);
    assert_eq!(r.lanes, vec![0xFFFF_FFFF, 0xFFFF_FFFF, 0xFFFF_FFFF, 0xFFFF_FFFF, 0xFFFF_FFF6, 0xFFFF_FFF6, 0xFFFF_FFF6, 0xFFFF_FFF6]);
}

#[test]
fn horizontal_saturating_and_float() {
    let left = i16s(&[0x7FFF, 1, -0x8000, -1, 2, 3, 4, 5]);
    let right = i16s(&[1, 1, 2, 2, 3, 3, 4, 4]);
    let r = horizontal_bin_op(ArithOp::Add, true, &left, &right);
    assert_eq!(r.lanes, vec![0x7FFF, 0x8000, 5, 9, 2, 4, 6, 8]);
    let fl = f32s(&[1.0, 2.0, 3.0, 4.0]);
    let fr = f32s(&[0.5, 0.25, 8.0, -8.0]);
    let r = horizontal_bin_op(ArithOp::Add, false, &fl, &fr);
    assert_eq!(to_f32s(&r), vec![3.0, 7.0, 0.75, 0.0]);
}

#[test]
fn chunks_of_a_wide_vector() {
    let wide = v(LaneType::Int16, vec![0; 16]);
    assert_eq!(split_simd_to_128bit_chunks(&wide), (2, 8));
    let narrow = v(LaneType::Float64, vec![0; 2]);
    assert_eq!(split_simd_to_128bit_chunks(&narrow), (1, 2));
}

#[test]
fn float_lane_combinators() {
    let a = f32s(&[1.0, 2.0, 3.0, 4.0]);
    let b = f32s(&[0.5, 5.0, f32::NAN, -1.0]);
    let first = bin_op_simd_float_first(FloatBinOp::Arith(ArithOp::Add), &a, &b);
    assert_eq!(to_f32s(&first), vec![1.5, 2.0, 3.0, 4.0]);
    let all = bin_op_simd_float_all(FloatBinOp::Min, &a, &b);
    assert_eq!(all.lanes[0], 0.5f32.to_bits() as u64);
    assert_eq!(all.lanes[1], 2.0f32.to_bits() as u64);
    assert!(f32::from_bits(all.lanes[2] as u32).is_nan());
    assert_eq!(all.lanes[3], (-1.0f32).to_bits() as u64);
    let lt = FloatBinOp::cmp_from_imm(1, false).unwrap();
    let m = bin_op_simd_float_all(lt, &a, &b);
    assert_eq!(m.lanes, vec![0, 0xFFFF_FFFF, 0, 0]);
}

#[test]
fn rounding_all_and_first() {
    let a = f32s(&[1.5, 2.5, -1.5, -0.4]);
    assert_eq!(to_f32s(&round_all(&a, 0).unwrap()), vec![2.0, 2.0, -2.0, -0.0]);
    assert_eq!(to_f32s(&round_all(&a, 1).unwrap()), vec![1.0, 2.0, -2.0, -1.0]);
    assert_eq!(to_f32s(&round_all(&a, 2).unwrap()), vec![2.0, 3.0, -1.0, -0.0]);
    assert_eq!(to_f32s(&round_all(&a, 3).unwrap()), vec![1.0, 2.0, -1.0, -0.0]);
    assert_eq!(round_all(&a, 0x10).unwrap_err(), SimdError::UnsupportedRoundingMode);
    let left = f32s(&[9.0, 8.0, 7.0, 6.0]);
    assert_eq!(to_f32s(&round_first(&left, &a, 3).unwrap()), vec![1.0, 8.0, 7.0, 6.0]);
    let d = v(LaneType::Float64, vec![2.5f64.to_bits(), (-2.5f64).to_bits()]);
    let r = round_all(&d, 4).unwrap();
    assert_eq!(r.lanes, vec![2.0f64.to_bits(), (-2.0f64).to_bits()]);
}

#[test]
fn float_to_int_falls_back_to_minimum() {
    let a = f32s(&[1.5, f32::NAN, 3.0e9, -3.0e9]);
    let r = convert_float_to_int(&a, RoundingMode::NearestTiesToEven, LaneType::Int32, 4);
    assert_eq!(r.lanes, vec![2, 0x8000_0000, 0x8000_0000, 0x8000_0000]);
    let r = convert_float_to_int(&a, RoundingMode::TowardZero, LaneType::Int32, 2);
    assert_eq!(r.lanes, vec![1, 0x8000_0000]);
    let d = v(LaneType::Float64, vec![(-7.5f64).to_bits(), f64::NAN.to_bits()]);
    let r = convert_float_to_int(&d, RoundingMode::TowardZero, LaneType::Int64, 4);
    assert_eq!(r.lanes, vec![(-7i64) as u64, 0x8000_0000_0000_0000, 0, 0]);
    let huge = v(LaneType::Float64, vec![1.0e19f64.to_bits(), f64::INFINITY.to_bits()]);
    let r = convert_float_to_int(&huge, RoundingMode::TowardZero, LaneType::Int64, 2);
    assert_eq!(r.lanes, vec![0x8000_0000_0000_0000, 0x8000_0000_0000_0000]);
    let r = convert_float_to_int(&huge, RoundingMode::TowardZero, LaneType::Int32, 2);
    assert_eq!(r.lanes, vec![0x8000_0000, 0x8000_0000]);
}

#[test]
fn abs_wraps_at_minimum() {
    let a = v(LaneType::Int8, vec![0x80, 0xFF, 5, 0]);
    assert_eq!(int_abs(&a).lanes, vec![0x80, 1, 5, 0]);
    let b = i32s(&[i32::MIN, -7, 7, 0]);
    assert_eq!(int_abs(&b).lanes, vec![0x8000_0000, 7, 7, 0]);
}

#[test]
fn sign_follow_multiply() {
    let l = i16s(&[5, 5, 5, -0x8000]);
    let r = i16s(&[-3, 0, 9, -1]);
    assert_eq!(psign(&l, &r).lanes, vec![0xFFFB, 0, 5, 0x8000]);
}

#[test]
fn mulhrs_rounds_and_wraps() {
    let l = i16s(&[-0x8000, 0x4000, 0x7FFF, -1]);
    let r = i16s(&[-0x8000, 0x4000, 1, 1]);
    assert_eq!(pmulhrsw(&l, &r).lanes, vec![0x8000, 0x2000, 1, 0]);
}

#[test]
fn sliding_window_sums() {
    let left: Vec<u64> = (0..16).collect();
    let right: Vec<u64> = (0..16).map(|x| 2 * x).collect();
    let l = v(LaneType::UInt8, left);
    let r = v(LaneType::UInt8, right);
    let out = mpsadbw(&l, &r, 0);
    assert_eq!(out.ty, LaneType::UInt16);
    // |j - 0| + |j+1 - 2| + |j+2 - 4| + |j+3 - 6|
    assert_eq!(out.lanes, vec![6, 4, 4, 6, 10, 14, 18, 22]);
    let out = mpsadbw(&l, &r, 0b101);
    // left from 4 + j, right from 4..8: values 8, 10, 12, 14
    assert_eq!(out.lanes, vec![22, 18, 14, 10, 6, 4, 4, 6]);
    let a = v(LaneType::UInt8, vec![255; 16]);
    let z = v(LaneType::UInt8, vec![0; 16]);
    assert_eq!(mpsadbw(&a, &z, 3).lanes, vec![1020; 8]);
}

#[test]
fn dot_product_masks() {
    let a = f32s(&[1.0, 2.0, 3.0, 4.0]);
    let b = f32s(&[5.0, 6.0, 7.0, 8.0]);
    let r = conditional_dot_product(&a, &b, 0xF1);
    assert_eq!(to_f32s(&r), vec![70.0, 0.0, 0.0, 0.0]);
    let r = conditional_dot_product(&a, &b, 0x3F);
    assert_eq!(to_f32s(&r), vec![17.0, 17.0, 17.0, 17.0]);
    let r = conditional_dot_product(&a, &b, 0x0F);
    assert_eq!(r.lanes, vec![0, 0, 0, 0]);
    let d = v(LaneType::Float64, vec![2.0f64.to_bits(), 3.0f64.to_bits()]);
    let r = conditional_dot_product(&d, &d, 0x32);
    assert_eq!(r.lanes, vec![0, 13.0f64.to_bits()]);
}

#[test]
fn approximations_stay_near_exact() {
    let mut rng = StdRng::seed_from_u64(7);
    let a = f32s(&[4.0, 0.5, 3.0, 100.0]);
    let roots: Vec<u64> = [4.0f32, 0.5, 3.0, 100.0].iter().map(|x| x.sqrt().to_bits() as u64).collect();
    let rcp = unary_op_ps(FloatUnaryOp::Rcp, &a, &roots, &mut rng);
    for (x, r) in [4.0f32, 0.5, 3.0, 100.0].iter().zip(to_f32s(&rcp)) {
        let exact = 1.0 / x;
        assert!(((r - exact) / exact).abs() < 1.0 / 4096.0);
    }
    let rsqrt = unary_op_ps(FloatUnaryOp::Rsqrt, &a, &roots, &mut rng);
    for (x, r) in [4.0f32, 0.5, 3.0, 100.0].iter().zip(to_f32s(&rsqrt)) {
        let exact = 1.0 / x.sqrt();
        assert!(((r - exact) / exact).abs() < 1.0 / 4096.0);
    }
    let sqrt = unary_op_ss(FloatUnaryOp::Sqrt, &a, roots[0], &mut rng);
    assert_eq!(to_f32s(&sqrt), vec![2.0, 0.5, 3.0, 100.0]);
    let mut rng1 = StdRng::seed_from_u64(11);
    let mut rng2 = StdRng::seed_from_u64(11);
    let x1 = unary_op_ps(FloatUnaryOp::Rcp, &a, &roots, &mut rng1);
    let x2 = unary_op_ps(FloatUnaryOp::Rcp, &a, &roots, &mut rng2);
    assert_eq!(x1.lanes, x2.lanes);
}

#[test]
fn pure_ops_are_repeatable() {
    let left = i16s(&[0x7FFF, -0x8000, 5, -5, 127, 128, -128, -129]);
    let right = i16s(&[1, 2, 3, 4, 255, 256, 0, -1]);
    assert_eq!(packsswb(&left, &right).lanes, packsswb(&left, &right).lanes);
    assert_eq!(
        horizontal_bin_op(ArithOp::Add, true, &left, &right).lanes,
        horizontal_bin_op(ArithOp::Add, true, &left, &right).lanes
    );
    let a = f32s(&[1.0, f32::NAN, -0.0, 3.5]);
    let b = f32s(&[0.0, 1.0, 0.0, -3.5]);
    assert_eq!(
        bin_op_simd_float_all(FloatBinOp::Max, &a, &b).lanes,
        bin_op_simd_float_all(FloatBinOp::Max, &a, &b).lanes
    );
    assert_eq!(round_all(&a, 1).unwrap().lanes, round_all(&a, 1).unwrap().lanes);
}

#[test]
fn sqrt_leaves_generator_untouched() {
    let a = f32s(&[4.0, 9.0]);
    let roots = vec![2.0f32.to_bits() as u64, 3.0f32.to_bits() as u64];
    let mut used = StdRng::seed_from_u64(3);
    let mut fresh = StdRng::seed_from_u64(3);
    let r = unary_op_ps(FloatUnaryOp::Sqrt, &a, &roots, &mut used);
    assert_eq!(to_f32s(&r), vec![2.0, 3.0]);
    let r = unary_op_ss(FloatUnaryOp::Sqrt, &a, roots[0], &mut used);
    assert_eq!(to_f32s(&r), vec![2.0, 9.0]);
    assert_eq!(used.gen::<u64>(), fresh.gen::<u64>());
}

#[test]
fn narrow_negative_out_of_range_gives_minimum() {
    let a = f32s(&[-129.5, -128.0, 127.0, 128.0]);
    let r = convert_float_to_int(&a, RoundingMode::TowardZero, LaneType::Int8, 4);
    assert_eq!(r.lanes, vec![0x80, 0x80, 0x7F, 0x80]);
}
