//! Rocket fuel calculator: computes the fuel required to launch a set of
//! module masses, read one integer mass per text line, either with the
//! direct formula alone or with the recursive correction that accounts for
//! the fuel's own mass.

pub mod calc;
pub mod fuel;
pub mod parse;
