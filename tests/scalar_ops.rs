use x86_simd::float::{FloatOrder, RoundingMode};
use x86_simd::lane::{ArithOp, LaneType};
use x86_simd::scalar::{
    apply_random_float_error, bin_op_float, rounding_from_imm, FloatBinOp, SimdError,
};

const PZ: u64 = 0x0000_0000;
const NZ: u64 = 0x8000_0000;
const NAN: u64 = 0x7FC0_0000;
const NEG_NAN: u64 = 0xFFC0_0000;
const INF: u64 = 0x7F80_0000;
const NEG_INF: u64 = 0xFF80_0000;

fn bits(x: f32) -> u64 {
    x.to_bits() as u64
}

fn cmp(imm: i8, a: u64, b: u64) -> bool {
    let op = FloatBinOp::cmp_from_imm(imm, true).unwrap();
    let r = bin_op_float(op, a, b, LaneType::Float32);
    assert!(r == 0 || r == 0xFFFF_FFFF);
    r == 0xFFFF_FFFF
}

#[test]
fn cmp_predicates_follow_ieee_order() {
    let values = [PZ, NZ, NAN, NEG_NAN, INF, NEG_INF, bits(1.0), bits(-2.5)];
    for &a in values.iter() {
        for &b in values.iter() {
            let fa = f32::from_bits(a as u32);
            let fb = f32::from_bits(b as u32);
            let unord = fa.is_nan() || fb.is_nan();
            assert_eq!(cmp(0, a, b), fa == fb);
            assert_eq!(cmp(1, a, b), fa < fb);
            assert_eq!(cmp(2, a, b), fa <= fb);
            assert_eq!(cmp(3, a, b), unord);
            assert_eq!(cmp(4, a, b), !(fa == fb));
            assert_eq!(cmp(5, a, b), !(fa < fb));
            assert_eq!(cmp(6, a, b), !(fa <= fb));
            assert_eq!(cmp(7, a, b), !unord);
            // Bit 3 inverts the outcome for unordered operands only.
            assert_eq!(cmp(8, a, b), if unord { true } else { fa == fb });
            assert_eq!(cmp(0x0C, a, b), if unord { false } else { !(fa == fb) });
            // Bit 4 (signaling) changes nothing.
            assert_eq!(cmp(0x11, a, b), fa < fb);
        }
    }
}

#[test]
fn cmp_nan_is_unordered_for_doubles() {
    let nan = f64::NAN.to_bits();
    let one = 1.0f64.to_bits();
    let lt = FloatBinOp::cmp_from_imm(1, false).unwrap();
    let unord = FloatBinOp::cmp_from_imm(3, false).unwrap();
    assert_eq!(bin_op_float(lt, nan, one, LaneType::Float64), 0);
    assert_eq!(bin_op_float(unord, one, nan, LaneType::Float64), u64::MAX);
    assert_eq!(bin_op_float(lt, one, 2.0f64.to_bits(), LaneType::Float64), u64::MAX);
}

#[test]
fn cmp_imm_errors() {
    assert_eq!(FloatBinOp::cmp_from_imm(0x20, true), Err(SimdError::InvalidImmediate));
    assert_eq!(FloatBinOp::cmp_from_imm(-1, true), Err(SimdError::InvalidImmediate));
    assert_eq!(FloatBinOp::cmp_from_imm(0x08, false), Err(SimdError::MissingTargetFeature));
    assert!(FloatBinOp::cmp_from_imm(0x17, false).is_ok());
    assert_eq!(
        FloatBinOp::cmp_from_imm(0x04, false),
        Ok(FloatBinOp::Cmp { gt: true, lt: true, eq: false, unord: true })
    );
}

#[test]
fn min_max_zero_and_nan_take_second_operand() {
    let ty = LaneType::Float32;
    assert_eq!(bin_op_float(FloatBinOp::Min, PZ, NZ, ty), NZ);
    assert_eq!(bin_op_float(FloatBinOp::Min, NZ, PZ, ty), PZ);
    assert_eq!(bin_op_float(FloatBinOp::Max, PZ, NZ, ty), NZ);
    assert_eq!(bin_op_float(FloatBinOp::Max, NZ, PZ, ty), PZ);
    assert_eq!(bin_op_float(FloatBinOp::Min, bits(1.0), NAN, ty), NAN);
    assert_eq!(bin_op_float(FloatBinOp::Min, NAN, bits(1.0), ty), bits(1.0));
    assert_eq!(bin_op_float(FloatBinOp::Max, bits(1.0), NAN, ty), NAN);
    assert_eq!(bin_op_float(FloatBinOp::Max, NAN, bits(1.0), ty), bits(1.0));
    assert_eq!(bin_op_float(FloatBinOp::Min, bits(1.0), bits(2.0), ty), bits(1.0));
    assert_eq!(bin_op_float(FloatBinOp::Max, bits(1.0), bits(2.0), ty), bits(2.0));
    assert_eq!(bin_op_float(FloatBinOp::Min, NEG_INF, INF, ty), NEG_INF);
}

#[test]
fn arith_uses_ieee_results() {
    let ty = LaneType::Float32;
    assert_eq!(bin_op_float(FloatBinOp::Arith(ArithOp::Add), bits(1.5), bits(2.25), ty), bits(3.75));
    assert_eq!(bin_op_float(FloatBinOp::Arith(ArithOp::Sub), bits(1.5), bits(2.25), ty), bits(-0.75));
    assert_eq!(bin_op_float(FloatBinOp::Arith(ArithOp::Mul), bits(1.5), bits(-2.0), ty), bits(-3.0));
    assert_eq!(bin_op_float(FloatBinOp::Arith(ArithOp::Div), bits(1.0), bits(4.0), ty), bits(0.25));
    let d = LaneType::Float64;
    assert_eq!(
        bin_op_float(FloatBinOp::Arith(ArithOp::Add), 0.1f64.to_bits(), 0.2f64.to_bits(), d),
        (0.1f64 + 0.2f64).to_bits()
    );
    assert_eq!(
        bin_op_float(FloatBinOp::Arith(ArithOp::Div), 1.0f64.to_bits(), 3.0f64.to_bits(), d),
        (1.0f64 / 3.0f64).to_bits()
    );
    assert_eq!(
        bin_op_float(FloatBinOp::Arith(ArithOp::Sub), 0.3f64.to_bits(), 0.1f64.to_bits(), d),
        (0.3f64 - 0.1f64).to_bits()
    );
    assert_eq!(
        bin_op_float(FloatBinOp::Arith(ArithOp::Mul), 1.1f64.to_bits(), 1.1f64.to_bits(), d),
        (1.1f64 * 1.1f64).to_bits()
    );
}

#[test]
fn rounding_immediates() {
    assert_eq!(rounding_from_imm(0), Ok(RoundingMode::NearestTiesToEven));
    assert_eq!(rounding_from_imm(1), Ok(RoundingMode::TowardNegative));
    assert_eq!(rounding_from_imm(2), Ok(RoundingMode::TowardPositive));
    assert_eq!(rounding_from_imm(3), Ok(RoundingMode::TowardZero));
    assert_eq!(rounding_from_imm(4), Ok(RoundingMode::NearestTiesToEven));
    assert_eq!(rounding_from_imm(7), Ok(RoundingMode::NearestTiesToEven));
    assert_eq!(rounding_from_imm(0b1011), Ok(RoundingMode::TowardZero));
    assert_eq!(rounding_from_imm(16), Err(SimdError::UnsupportedRoundingMode));
    assert_eq!(rounding_from_imm(-1), Err(SimdError::UnsupportedRoundingMode));
}

#[test]
fn random_error_is_small_and_reproducible() {
    let v = bits(3.0);
    let r1 = apply_random_float_error(v, -12, u64::MAX, false);
    let r2 = apply_random_float_error(v, -12, u64::MAX, false);
    assert_eq!(r1, r2);
    let x = f32::from_bits(r1 as u32);
    assert!(x > 3.0 && x < 3.0 * (1.0 + 1.0 / 4096.0) + 1e-6);
    let y = f32::from_bits(apply_random_float_error(v, -12, u64::MAX, true) as u32);
    assert!(y < 3.0 && y > 3.0 * (1.0 - 1.0 / 4096.0) - 1e-6);
    assert_eq!(apply_random_float_error(v, -12, 0, true), v);
}

#[test]
fn order_enum_is_usable() {
    assert_ne!(FloatOrder::Less, FloatOrder::Unordered);
}
