//! A non-interactive Schnorr proof of knowledge of a discrete logarithm on
//! secp256k1, with its Fiat-Shamir challenge and canonical byte encoding.

pub mod error;
pub mod scalar;
pub mod point;
pub mod challenge;
pub mod dlog;
