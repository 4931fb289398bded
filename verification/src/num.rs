//! Binary digits and the unsigned integers built from them.
pub mod bit;
pub mod laws;
pub mod unsigned;
