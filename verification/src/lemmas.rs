//! Supporting lemmas: bit-level facts about limbs, and modular arithmetic.
pub mod bits;
pub mod certificates;
pub mod modular;
pub mod montgomery;
pub mod primes;
