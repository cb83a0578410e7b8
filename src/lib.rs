//! Witness encoding and request/response marshalling for a Groth16 prover
//! over BN254.

pub mod bigint;
pub mod boundary;
pub mod bytes;
pub mod error;
pub mod field;
pub mod vkey;
pub mod witness;
pub mod zkey;
