//! The 512-bit intermediate integer and the two prime fields.
pub mod algebra;
pub mod fp;
pub mod u512;
