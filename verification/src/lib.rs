//! An inner-product-argument polynomial commitment scheme over the Ristretto
//! group: a committed multilinear polynomial is proved, with a proof of
//! logarithmic size, to evaluate to a claimed value at a public point.
#![allow(non_snake_case)]

pub mod engine;
pub mod eq;
pub mod errors;
pub mod ipa;
pub mod keys;
pub mod labels;
pub mod point;
pub mod scalar;
pub mod transcript;
pub mod util;
