//! Emulation of x86 vector instructions on lanes held as plain bit patterns.
//!
//! A vector is a sequence of lanes of one [`lane::LaneType`]; each lane holds
//! the raw bits of an integer or of an IEEE-754 float, zero-extended to `u64`.
//! Every operation is a function of its operands (and, for the two
//! approximation instructions, of draws from a random source).
pub mod chunked;
pub mod dispatch;
pub mod fd;
pub mod float;
pub mod lane;
pub mod lanewise;
pub mod laws;
pub mod mask;
pub mod random;
pub mod scalar;
