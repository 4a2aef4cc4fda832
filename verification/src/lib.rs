//! Pure number-theory utilities: greatest common divisor, factorials,
//! and primality testing, each verified against a mathematical
//! specification.

pub mod factorial;
pub mod gcd;
pub mod primality;
