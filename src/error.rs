//! Errors of the witness codec, the proving-key reader and the native boundary.

use vstd::prelude::*;

verus! {

/// A witness that cannot be written, or bytes that are no witness container.
#[derive(Debug, Clone, Copy, PartialEq, Eq, Structural)]
pub enum EncodingError {
    /// The witness holds no value.
    EmptyWitness,
    /// The witness holds more values than a 32-bit count can state.
    TooManyValues,
    /// The bytes are not a well-formed witness container.
    Malformed,
}

/// Why a proving key could not be read.
#[derive(Debug, Clone, Copy, PartialEq, Eq, Structural)]
pub enum KeyParseError {
    /// The file is shorter than its header or a section claims.
    Truncated,
    /// The file does not start with the proving-key magic.
    BadMagic,
    /// A required section is absent.
    MissingSection,
    /// The key is not a Groth16 key.
    UnsupportedProtocol,
    /// The key is over another curve than BN254.
    UnsupportedCurve,
}

/// An error of a request to the native prover or verifier.
#[derive(Debug, PartialEq, Eq)]
pub enum RapidsnarkError {
    /// The witness could not be encoded.
    Encoding(EncodingError),
    /// A text handed to the native side holds a NUL byte.
    InteriorNul,
    /// The native prover returned a non-zero status, with its message.
    ProofGeneration(String),
    /// The proving key could not be read.
    KeyParse(KeyParseError),
    /// The native verifier reported an error, with its message.
    Verification(String),
}

} // verus!
