//! The failures that an operation can report, and the kinds of proof system.

use vstd::prelude::*;

verus! {

/// Why an operation did not reach its result.
///
/// A proof that is well formed and fails its cryptographic check is no error:
/// verification then answers `false`.
#[derive(Clone, Copy, Debug, PartialEq, Eq, Structural)]
pub enum ErrorKind {
    /// The circuit handle was never registered.
    UnknownCircuit,
    /// A key, reference string or circuit file is missing.
    ArtifactNotFound,
    /// A key, reference string or circuit file cannot be parsed.
    ArtifactCorrupt,
    /// The circuit inputs are malformed, of the wrong arity or out of the field.
    WitnessComputationError,
    /// The supplied proof cannot be decoded.
    ProofMalformed,
    /// The verification artifact does not belong to the circuit of the proof.
    VerificationArtifactMismatch,
    /// The proving library failed; its failure is passed on as it came.
    BackendInternalError,
    /// No adapter is linked for the proof system or library that was asked for.
    AdapterUnavailable,
}

/// The proof systems that a circuit can be compiled for.
#[derive(Clone, Copy, Debug, PartialEq, Eq, Structural)]
pub enum ProofSystemKind {
    /// Fixed arithmetic circuits, proved in the style of Groth16.
    ArithmeticCircuit,
    /// Polynomial interactive oracle proofs of the Plonk family.
    PolynomialIop,
    /// Universal circuits, proved in the style of UltraHonk.
    UniversalCircuit,
}

/// The arithmetic library that an arithmetic-circuit proof is computed with.
/// The libraries are interchangeable: they differ in speed, not in meaning.
#[derive(Clone, Copy, Debug, PartialEq, Eq, Structural)]
pub enum ProofLib {
    Arkworks,
    Rapidsnark,
}

/// The name of each failure as hosts show it.
pub open spec fn error_name(kind: ErrorKind) -> Seq<char> {
    match kind {
        ErrorKind::UnknownCircuit => "UnknownCircuit"@,
        ErrorKind::ArtifactNotFound => "ArtifactNotFound"@,
        ErrorKind::ArtifactCorrupt => "ArtifactCorrupt"@,
        ErrorKind::WitnessComputationError => "WitnessComputationError"@,
        ErrorKind::ProofMalformed => "ProofMalformed"@,
        ErrorKind::VerificationArtifactMismatch => "VerificationArtifactMismatch"@,
        ErrorKind::BackendInternalError => "BackendInternalError"@,
        ErrorKind::AdapterUnavailable => "AdapterUnavailable"@,
    }
}

impl ErrorKind {
    /// The failure's name, for messages that cross to the host.
    pub fn name(&self) -> (text: String)
        ensures
            text@ == error_name(*self),
    {
        match self {
            ErrorKind::UnknownCircuit => "UnknownCircuit".to_string(),
            ErrorKind::ArtifactNotFound => "ArtifactNotFound".to_string(),
            ErrorKind::ArtifactCorrupt => "ArtifactCorrupt".to_string(),
            ErrorKind::WitnessComputationError => "WitnessComputationError".to_string(),
            ErrorKind::ProofMalformed => "ProofMalformed".to_string(),
            ErrorKind::VerificationArtifactMismatch => "VerificationArtifactMismatch".to_string(),
            ErrorKind::BackendInternalError => "BackendInternalError".to_string(),
            ErrorKind::AdapterUnavailable => "AdapterUnavailable".to_string(),
        }
    }
}

} // verus!
