//! The adapter for arithmetic circuits, proved in the style of Groth16.
//!
//! A request is routed by the base name of its key file, its inputs are read
//! and checked, and the host is handed what it needs to compute the witness and
//! the proof. The proof travels as a sealed envelope: the proof points together
//! with the public inputs, which are derived from the witness and never given
//! by the caller. The library frames and reads the envelope; what the proof
//! points mean is the proving library's to say.

use vstd::prelude::*;
use crate::dispatch::{refusal, Adapters, Dispatcher};
use crate::envelope::{envelope_of, open, opened, seal};
use crate::error::{ErrorKind, ProofLib, ProofSystemKind};
use crate::inputs::{acceptable_json, parsed_inputs, CircuitInputs};
use crate::text::{all_decimal, are_decimal_texts, base_name, texts};

verus! {

/// Why a request cannot go to the arithmetic adapter with the library `lib`.
pub open spec fn arithmetic_refusal<C>(
    registry: Map<Seq<char>, (ProofSystemKind, C)>,
    adapters: Adapters,
    handle: Seq<char>,
    lib: ProofLib,
) -> Option<ErrorKind> {
    let routing = refusal(registry, adapters, Some(ProofSystemKind::ArithmeticCircuit), handle);
    if routing is Some {
        routing
    } else if !adapters.offers(lib) {
        Some(ErrorKind::AdapterUnavailable)
    } else {
        None
    }
}

/// Why a proof cannot be asked for: the circuit or the library first, then the
/// inputs.
pub open spec fn circom_proof_refusal<C>(
    registry: Map<Seq<char>, (ProofSystemKind, C)>,
    adapters: Adapters,
    handle: Seq<char>,
    lib: ProofLib,
    json: Seq<char>,
) -> Option<ErrorKind> {
    let adapter = arithmetic_refusal(registry, adapters, handle, lib);
    if adapter is Some {
        adapter
    } else if !acceptable_json(json) {
        Some(ErrorKind::WitnessComputationError)
    } else {
        None
    }
}

/// Why a proof cannot be checked: the circuit or the library first, then the
/// envelope.
pub open spec fn circom_verification_refusal<C>(
    registry: Map<Seq<char>, (ProofSystemKind, C)>,
    adapters: Adapters,
    handle: Seq<char>,
    lib: ProofLib,
    envelope: Seq<u8>,
) -> Option<ErrorKind> {
    let adapter = arithmetic_refusal(registry, adapters, handle, lib);
    if adapter is Some {
        adapter
    } else if opened(envelope) is None {
        Some(ErrorKind::ProofMalformed)
    } else {
        None
    }
}

/// What the host needs to generate a proof for an arithmetic circuit.
pub struct CircomProofRequest<'a, C> {
    /// The circuit, by the base name of its key file.
    pub handle: String,
    /// The key file to load.
    pub zkey_path: String,
    /// The witness function registered with the circuit.
    pub witness: &'a C,
    /// The inputs, checked.
    pub inputs: CircuitInputs,
    /// The library to compute with.
    pub proof_lib: ProofLib,
}

/// What the host needs to check a proof of an arithmetic circuit.
pub struct CircomVerificationRequest {
    /// The circuit, by the base name of its key file.
    pub handle: String,
    /// The key file to load.
    pub zkey_path: String,
    /// The proof points, out of their envelope.
    pub points: Vec<u8>,
    /// The public inputs, out of the envelope: each a decimal field element.
    pub public_inputs: Vec<String>,
    /// The library to compute with.
    pub proof_lib: ProofLib,
}

/// A proof as it is returned to the caller.
pub struct SealedProof {
    /// The envelope: the proof points and the public inputs as one byte sequence.
    pub envelope: Vec<u8>,
    /// The public inputs, each a decimal field element.
    pub public_inputs: Vec<String>,
}

/// Routes a request through the arithmetic adapter and checks that the library
/// `lib` is linked.
fn route_arithmetic<'a, C>(dispatcher: &'a Dispatcher<C>, zkey_path: &str, lib: ProofLib) -> (routed:
    Result<(String, &'a C), ErrorKind>)
    ensures
        match routed {
            Ok((handle, capability)) => arithmetic_refusal(
                dispatcher.registry@,
                dispatcher.adapters,
                base_name(zkey_path@),
                lib,
            ) is None && handle@ == base_name(zkey_path@) && *capability
                == dispatcher.registry@[handle@].1,
            Err(kind) => arithmetic_refusal(
                dispatcher.registry@,
                dispatcher.adapters,
                base_name(zkey_path@),
                lib,
            ) == Some(kind),
        },
{
    let route = match dispatcher.route_as(ProofSystemKind::ArithmeticCircuit, zkey_path) {
        Ok(route) => route,
        Err(kind) => {
            return Err(kind);
        },
    };
    if !dispatcher.adapters.has_lib(lib) {
        return Err(ErrorKind::AdapterUnavailable);
    }
    Ok((route.handle, route.capability))
}

/// Prepares the generation of a proof for the circuit whose key file is
/// `zkey_path`, from inputs given as a JSON text.
///
/// The request is refused with `UnknownCircuit` where the base name of the path
/// is not registered as an arithmetic circuit, with `AdapterUnavailable` where
/// the adapter or the library is not linked, and with `WitnessComputationError`
/// where the inputs are malformed; in this order. Every other request is
/// handed to the host with the witness function of its circuit.
pub fn prepare_circom_proof<'a, C>(
    dispatcher: &'a Dispatcher<C>,
    zkey_path: &str,
    circuit_inputs: &str,
    proof_lib: ProofLib,
) -> (made: Result<CircomProofRequest<'a, C>, ErrorKind>)
    ensures
        match made {
            Ok(request) => {
                &&& circom_proof_refusal(
                    dispatcher.registry@,
                    dispatcher.adapters,
                    base_name(zkey_path@),
                    proof_lib,
                    circuit_inputs@,
                ) is None
                &&& request.handle@ == base_name(zkey_path@)
                &&& request.zkey_path@ == zkey_path@
                &&& *request.witness == dispatcher.registry@[base_name(zkey_path@)].1
                &&& request.inputs@ == parsed_inputs(circuit_inputs@)->Some_0
                &&& request.proof_lib == proof_lib
            },
            Err(kind) => circom_proof_refusal(
                dispatcher.registry@,
                dispatcher.adapters,
                base_name(zkey_path@),
                proof_lib,
                circuit_inputs@,
            ) == Some(kind),
        },
{
    let (handle, witness) = match route_arithmetic(dispatcher, zkey_path, proof_lib) {
        Ok(routed) => routed,
        Err(kind) => {
            return Err(kind);
        },
    };
    let inputs = match CircuitInputs::parse(circuit_inputs) {
        Ok(inputs) => inputs,
        Err(kind) => {
            return Err(kind);
        },
    };
    Ok(CircomProofRequest { handle, zkey_path: zkey_path.to_string(), witness, inputs, proof_lib })
}

/// Seals what the proving library returned: the proof points and the public
/// inputs become one envelope for the caller, and the public inputs are
/// returned beside it as they came. Public inputs that are not all decimal
/// field elements are a failure of the backend, and nothing is sealed.
pub fn seal_circom_proof(points: Vec<u8>, public_inputs: Vec<String>) -> (sealed: Result<
    SealedProof,
    ErrorKind,
>)
    ensures
        all_decimal(texts(public_inputs@)) ==> sealed is Ok && sealed->Ok_0.envelope@
            == envelope_of(points@, texts(public_inputs@)) && sealed->Ok_0.public_inputs@
            == public_inputs@,
        !all_decimal(texts(public_inputs@)) ==> sealed is Err && sealed->Err_0
            == ErrorKind::BackendInternalError,
{
    if !are_decimal_texts(&public_inputs) {
        return Err(ErrorKind::BackendInternalError);
    }
    let envelope = seal(points.as_slice(), &public_inputs);
    Ok(SealedProof { envelope, public_inputs })
}

/// Prepares the check of a sealed proof against the circuit whose key file is
/// `zkey_path`.
///
/// The request is refused with `UnknownCircuit` where the base name of the path
/// is not registered as an arithmetic circuit, with `AdapterUnavailable` where
/// the adapter or the library is not linked, and with `ProofMalformed` where
/// the bytes are no envelope; in this order. Every other request is handed to
/// the host with the proof points and the public inputs that the envelope
/// holds.
pub fn prepare_circom_verification<C>(
    dispatcher: &Dispatcher<C>,
    zkey_path: &str,
    envelope: &[u8],
    proof_lib: ProofLib,
) -> (made: Result<CircomVerificationRequest, ErrorKind>)
    ensures
        match made {
            Ok(request) => {
                &&& circom_verification_refusal(
                    dispatcher.registry@,
                    dispatcher.adapters,
                    base_name(zkey_path@),
                    proof_lib,
                    envelope@,
                ) is None
                &&& request.handle@ == base_name(zkey_path@)
                &&& request.zkey_path@ == zkey_path@
                &&& opened(envelope@) == Some((request.points@, texts(request.public_inputs@)))
                &&& request.proof_lib == proof_lib
            },
            Err(kind) => circom_verification_refusal(
                dispatcher.registry@,
                dispatcher.adapters,
                base_name(zkey_path@),
                proof_lib,
                envelope@,
            ) == Some(kind),
        },
{
    let (handle, _) = match route_arithmetic(dispatcher, zkey_path, proof_lib) {
        Ok(routed) => routed,
        Err(kind) => {
            return Err(kind);
        },
    };
    match open(envelope) {
        Some((points, public_inputs)) => Ok(
            CircomVerificationRequest {
                handle,
                zkey_path: zkey_path.to_string(),
                points,
                public_inputs,
                proof_lib,
            },
        ),
        None => Err(ErrorKind::ProofMalformed),
    }
}

} // verus!
