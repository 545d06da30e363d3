//! Finite-field arithmetic for the scalar and base fields of the BN254 curve.
//!
//! Field elements are kept in Montgomery form over 256-bit integers built from
//! two 128-bit limbs; 512-bit integers serve as the intermediate for uniform
//! reduction of wide inputs. Every function is specified over the integers
//! that its arguments hold, and proved to meet its specification.
pub mod arith;
pub mod fields;
pub mod lemmas;
pub mod ordering;
pub mod wrappers;

pub use arith::{
    bytes_to_bits_le, mono_invert, mono_mul, u256_bits, BitIterator, Error, U256,
};
pub use fields::fp::{const_fq, fq_minus3_div4, Fp, Fq, Fr};
pub use fields::u512::U512;
