//! The adapter for polynomial interactive oracle proofs of the Plonk family.
//!
//! Each variant is registered with its own proving and verifying functions,
//! under the names of its proving-key and verifying-key files. The adapter is a
//! thin pass: it routes the request and checks the shape of what passes. The
//! registered function derives the witness itself, and the public inputs travel
//! beside the proof, not inside it.

use vstd::prelude::*;
use crate::dispatch::{refusal, Adapters, Dispatcher};
use crate::error::{ErrorKind, ProofSystemKind};
use crate::inputs::CircuitInputs;
use crate::text::{all_decimal, are_decimal_texts, base_name, texts};

verus! {

/// Why a verification cannot be asked for: the circuit first, then the public
/// inputs, each of which has to be a decimal field element.
pub open spec fn halo2_verification_refusal<C>(
    registry: Map<Seq<char>, (ProofSystemKind, C)>,
    adapters: Adapters,
    handle: Seq<char>,
    public_inputs: Seq<Seq<char>>,
) -> Option<ErrorKind> {
    let routing = refusal(registry, adapters, Some(ProofSystemKind::PolynomialIop), handle);
    if routing is Some {
        routing
    } else if !all_decimal(public_inputs) {
        Some(ErrorKind::ProofMalformed)
    } else {
        None
    }
}

/// What the host needs to generate a proof with a registered proving function.
pub struct Halo2ProofRequest<'a, C> {
    /// The circuit, by the base name of its proving-key file.
    pub handle: String,
    /// The structured reference string to load.
    pub srs_path: String,
    /// The proving key to load.
    pub pk_path: String,
    /// The functions registered with the circuit.
    pub prover: &'a C,
    /// The inputs, checked; the proving function receives them as they are.
    pub inputs: CircuitInputs,
}

/// What the host needs to check a proof with a registered verifying function.
pub struct Halo2VerificationRequest<'a, C> {
    /// The circuit, by the base name of its verifying-key file.
    pub handle: String,
    /// The structured reference string to load.
    pub srs_path: String,
    /// The verifying key to load.
    pub vk_path: String,
    /// The functions registered with the circuit.
    pub verifier: &'a C,
    /// The proof, as raw bytes.
    pub proof: Vec<u8>,
    /// The public inputs, each a decimal field element.
    pub public_inputs: Vec<String>,
}

/// A proof with its public inputs, as both are returned to the caller.
pub struct Halo2Proof {
    /// The proof, as raw bytes.
    pub proof: Vec<u8>,
    /// The public inputs, each a decimal field element.
    pub inputs: Vec<String>,
}

/// Prepares the generation of a proof with the circuit whose proving key is
/// `pk_path`. The request is refused with `UnknownCircuit` where the base name
/// of the path is not registered as a polynomial circuit, and with
/// `AdapterUnavailable` where the adapter is not linked.
pub fn prepare_halo2_proof<'a, C>(
    dispatcher: &'a Dispatcher<C>,
    srs_path: &str,
    pk_path: &str,
    circuit_inputs: CircuitInputs,
) -> (made: Result<Halo2ProofRequest<'a, C>, ErrorKind>)
    ensures
        match made {
            Ok(request) => {
                &&& refusal(
                    dispatcher.registry@,
                    dispatcher.adapters,
                    Some(ProofSystemKind::PolynomialIop),
                    base_name(pk_path@),
                ) is None
                &&& request.handle@ == base_name(pk_path@)
                &&& request.srs_path@ == srs_path@
                &&& request.pk_path@ == pk_path@
                &&& *request.prover == dispatcher.registry@[base_name(pk_path@)].1
                &&& request.inputs@ == circuit_inputs@
            },
            Err(kind) => refusal(
                dispatcher.registry@,
                dispatcher.adapters,
                Some(ProofSystemKind::PolynomialIop),
                base_name(pk_path@),
            ) == Some(kind),
        },
{
    match dispatcher.route_as(ProofSystemKind::PolynomialIop, pk_path) {
        Ok(route) => Ok(
            Halo2ProofRequest {
                handle: route.handle,
                srs_path: srs_path.to_string(),
                pk_path: pk_path.to_string(),
                prover: route.capability,
                inputs: circuit_inputs,
            },
        ),
        Err(kind) => Err(kind),
    }
}

/// Takes what a registered proving function returned. Public inputs that are
/// not all decimal field elements are a failure of the backend; everything else
/// is returned to the caller as it came.
pub fn accept_halo2_proof(proof: Vec<u8>, public_inputs: Vec<String>) -> (taken: Result<
    Halo2Proof,
    ErrorKind,
>)
    ensures
        match taken {
            Ok(parts) => all_decimal(texts(public_inputs@)) && parts.proof@ == proof@
                && parts.inputs@ == public_inputs@,
            Err(kind) => !all_decimal(texts(public_inputs@)) && kind
                == ErrorKind::BackendInternalError,
        },
{
    if are_decimal_texts(&public_inputs) {
        Ok(Halo2Proof { proof, inputs: public_inputs })
    } else {
        Err(ErrorKind::BackendInternalError)
    }
}

/// Prepares the check of a proof with the circuit whose verifying key is
/// `vk_path`. The request is refused with `UnknownCircuit` where the base name
/// of the path is not registered as a polynomial circuit, with
/// `AdapterUnavailable` where the adapter is not linked, and with
/// `ProofMalformed` where a public input is no decimal field element; in this
/// order.
pub fn prepare_halo2_verification<'a, C>(
    dispatcher: &'a Dispatcher<C>,
    srs_path: &str,
    vk_path: &str,
    proof: Vec<u8>,
    public_inputs: Vec<String>,
) -> (made: Result<Halo2VerificationRequest<'a, C>, ErrorKind>)
    ensures
        match made {
            Ok(request) => {
                &&& halo2_verification_refusal(
                    dispatcher.registry@,
                    dispatcher.adapters,
                    base_name(vk_path@),
                    texts(public_inputs@),
                ) is None
                &&& request.handle@ == base_name(vk_path@)
                &&& request.srs_path@ == srs_path@
                &&& request.vk_path@ == vk_path@
                &&& *request.verifier == dispatcher.registry@[base_name(vk_path@)].1
                &&& request.proof@ == proof@
                &&& request.public_inputs@ == public_inputs@
            },
            Err(kind) => halo2_verification_refusal(
                dispatcher.registry@,
                dispatcher.adapters,
                base_name(vk_path@),
                texts(public_inputs@),
            ) == Some(kind),
        },
{
    let route = match dispatcher.route_as(ProofSystemKind::PolynomialIop, vk_path) {
        Ok(route) => route,
        Err(kind) => {
            return Err(kind);
        },
    };
    if !are_decimal_texts(&public_inputs) {
        return Err(ErrorKind::ProofMalformed);
    }
    Ok(
        Halo2VerificationRequest {
            handle: route.handle,
            srs_path: srs_path.to_string(),
            vk_path: vk_path.to_string(),
            verifier: route.capability,
            proof,
            public_inputs,
        },
    )
}

} // verus!
