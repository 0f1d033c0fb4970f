//! The random source that the approximation instructions draw from.
use rand::rngs::StdRng;
use rand::Rng;
use vstd::prelude::*;

verus! {

/// The generator type that callers own; draws happen in call order.
#[verifier::external_type_specification]
#[verifier::external_body]
pub struct ExStdRng(StdRng);

/// Relies on rand's `Rng::gen::<u64>` on `StdRng`: the next 64 random bits.
#[verifier::external_body]
pub(crate) fn draw_u64(rng: &mut StdRng) -> u64 {
    rng.gen::<u64>()
}

/// Relies on rand's `Rng::gen::<bool>` on `StdRng`: the next random bit.
#[verifier::external_body]
pub(crate) fn draw_bool(rng: &mut StdRng) -> bool {
    rng.gen::<bool>()
}

} // verus!
