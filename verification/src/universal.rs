//! The adapter for universal circuits, proved in the style of UltraHonk.
//!
//! A verification key is derived from the circuit once. A caller may keep it
//! and hand it in with every later request, or leave it to the host to derive
//! it again: both ways lead to the same request.

use vstd::prelude::*;
use crate::dispatch::{refusal, Adapters, Dispatcher};
use crate::error::{ErrorKind, ProofSystemKind};
use crate::text::{all_decimal, are_decimal_texts, base_name, texts};

verus! {

/// How a proof of a universal circuit is made.
#[derive(Clone, Copy, Debug, PartialEq, Eq, Structural)]
pub struct NoirSettings {
    /// Hash the transcript with Keccak, for a verifier that runs on a chain,
    /// instead of the default hash. The two give proofs of different layout: a
    /// proof made under one is not verified under the other.
    pub on_chain_mode: bool,
    /// Trade running time for a lower peak of memory. The proof is the same
    /// with and without it.
    pub low_memory_mode: bool,
}

impl NoirSettings {
    /// True where a proof made under `self` has the layout that a check under
    /// `other` reads: where both hash the transcript alike.
    pub open spec fn same_layout(self, other: NoirSettings) -> bool {
        self.on_chain_mode == other.on_chain_mode
    }

    /// Tells whether a proof made under `self` has the layout that a check
    /// under `other` reads. What to do where it has not is the caller's to say.
    pub fn has_same_layout(&self, other: &NoirSettings) -> (same: bool)
        ensures
            same == self.same_layout(*other),
    {
        self.on_chain_mode == other.on_chain_mode
    }
}

/// The verification key of a request.
pub enum VerificationKey {
    /// A key that was derived before and kept by the caller.
    Supplied(Vec<u8>),
    /// No key: the host derives it from the circuit when it serves the request.
    OnDemand,
}

impl VerificationKey {
    /// The key's bytes, where it was supplied.
    pub open spec fn view(&self) -> Option<Seq<u8>> {
        match self {
            VerificationKey::Supplied(bytes) => Some(bytes@),
            VerificationKey::OnDemand => None,
        }
    }
}

/// What the host needs to derive the verification key of a circuit.
pub struct NoirKeyRequest {
    /// The circuit, by the base name of its file.
    pub handle: String,
    /// The circuit file to load.
    pub circuit_path: String,
    /// The structured reference string to load, where the caller names one.
    pub srs_path: Option<String>,
    pub settings: NoirSettings,
}

/// What the host needs to generate a proof for a universal circuit.
pub struct NoirProofRequest {
    /// The circuit, by the base name of its file.
    pub handle: String,
    /// The circuit file to load.
    pub circuit_path: String,
    /// The structured reference string to load, where the caller names one.
    pub srs_path: Option<String>,
    /// The inputs in the order of the circuit's parameters, each a decimal
    /// field element.
    pub inputs: Vec<String>,
    pub settings: NoirSettings,
    pub key: VerificationKey,
}

/// What the host needs to check a proof of a universal circuit.
pub struct NoirVerificationRequest {
    /// The circuit, by the base name of its file.
    pub handle: String,
    /// The circuit file to load.
    pub circuit_path: String,
    /// The proof, as raw bytes.
    pub proof: Vec<u8>,
    pub settings: NoirSettings,
    pub key: VerificationKey,
}

/// A request to generate a proof, as plain values.
pub struct NoirProofRequestView {
    pub handle: Seq<char>,
    pub circuit_path: Seq<char>,
    pub srs_path: Option<Seq<char>>,
    pub inputs: Seq<Seq<char>>,
    pub settings: NoirSettings,
    pub key: Option<Seq<u8>>,
}

/// A request to check a proof, as plain values.
pub struct NoirVerificationRequestView {
    pub handle: Seq<char>,
    pub circuit_path: Seq<char>,
    pub proof: Seq<u8>,
    pub settings: NoirSettings,
    pub key: Option<Seq<u8>>,
}

impl NoirProofRequestView {
    /// The request once the host has derived `derived` for it: a request that
    /// came without a key takes it, one that came with a key keeps its own.
    pub open spec fn with_key(self, derived: Seq<u8>) -> Self {
        NoirProofRequestView {
            key: Some(if self.key is Some { self.key->Some_0 } else { derived }),
            ..self
        }
    }
}

impl NoirVerificationRequestView {
    /// The request once the host has derived `derived` for it: a request that
    /// came without a key takes it, one that came with a key keeps its own.
    pub open spec fn with_key(self, derived: Seq<u8>) -> Self {
        NoirVerificationRequestView {
            key: Some(if self.key is Some { self.key->Some_0 } else { derived }),
            ..self
        }
    }
}

/// The text of an optional path.
pub open spec fn path_text(path: Option<String>) -> Option<Seq<char>> {
    match path {
        Some(text) => Some(text@),
        None => None,
    }
}

/// Why a proof cannot be asked for: the circuit first, then the inputs, each of
/// which has to be a decimal field element.
pub open spec fn noir_proof_refusal<C>(
    registry: Map<Seq<char>, (ProofSystemKind, C)>,
    adapters: Adapters,
    handle: Seq<char>,
    inputs: Seq<Seq<char>>,
) -> Option<ErrorKind> {
    let routing = refusal(registry, adapters, Some(ProofSystemKind::UniversalCircuit), handle);
    if routing is Some {
        routing
    } else if !all_decimal(inputs) {
        Some(ErrorKind::WitnessComputationError)
    } else {
        None
    }
}

impl NoirProofRequest {
    pub open spec fn view(&self) -> NoirProofRequestView {
        NoirProofRequestView {
            handle: self.handle@,
            circuit_path: self.circuit_path@,
            srs_path: path_text(self.srs_path),
            inputs: texts(self.inputs@),
            settings: self.settings,
            key: self.key@,
        }
    }

    /// Tells whether the host has to derive the verification key first.
    pub fn needs_key(&self) -> (needed: bool)
        ensures
            needed == (self@.key is None),
    {
        match self.key {
            VerificationKey::Supplied(_) => false,
            VerificationKey::OnDemand => true,
        }
    }

    /// Puts the key that the host derived into a request that came without
    /// one. A request that came with a key keeps its own.
    pub fn with_key(self, derived: Vec<u8>) -> (request: Self)
        ensures
            request@ == self@.with_key(derived@),
    {
        let key = match self.key {
            VerificationKey::Supplied(own) => VerificationKey::Supplied(own),
            VerificationKey::OnDemand => VerificationKey::Supplied(derived),
        };
        NoirProofRequest {
            handle: self.handle,
            circuit_path: self.circuit_path,
            srs_path: self.srs_path,
            inputs: self.inputs,
            settings: self.settings,
            key,
        }
    }
}

impl NoirVerificationRequest {
    pub open spec fn view(&self) -> NoirVerificationRequestView {
        NoirVerificationRequestView {
            handle: self.handle@,
            circuit_path: self.circuit_path@,
            proof: self.proof@,
            settings: self.settings,
            key: self.key@,
        }
    }

    /// Tells whether the host has to derive the verification key first.
    pub fn needs_key(&self) -> (needed: bool)
        ensures
            needed == (self@.key is None),
    {
        match self.key {
            VerificationKey::Supplied(_) => false,
            VerificationKey::OnDemand => true,
        }
    }

    /// Puts the key that the host derived into a request that came without
    /// one. A request that came with a key keeps its own.
    pub fn with_key(self, derived: Vec<u8>) -> (request: Self)
        ensures
            request@ == self@.with_key(derived@),
    {
        let key = match self.key {
            VerificationKey::Supplied(own) => VerificationKey::Supplied(own),
            VerificationKey::OnDemand => VerificationKey::Supplied(derived),
        };
        NoirVerificationRequest {
            handle: self.handle,
            circuit_path: self.circuit_path,
            proof: self.proof,
            settings: self.settings,
            key,
        }
    }
}

/// Prepares the derivation of the verification key of the circuit in
/// `circuit_path`. The request is refused with `UnknownCircuit` where the base
/// name of the path is not registered as a universal circuit, and with
/// `AdapterUnavailable` where the adapter is not linked.
pub fn prepare_noir_verification_key<C>(
    dispatcher: &Dispatcher<C>,
    circuit_path: &str,
    srs_path: Option<String>,
    on_chain_mode: bool,
    low_memory_mode: bool,
) -> (made: Result<NoirKeyRequest, ErrorKind>)
    ensures
        match made {
            Ok(request) => {
                &&& refusal(
                    dispatcher.registry@,
                    dispatcher.adapters,
                    Some(ProofSystemKind::UniversalCircuit),
                    base_name(circuit_path@),
                ) is None
                &&& request.handle@ == base_name(circuit_path@)
                &&& request.circuit_path@ == circuit_path@
                &&& path_text(request.srs_path) == path_text(srs_path)
                &&& request.settings == (NoirSettings { on_chain_mode, low_memory_mode })
            },
            Err(kind) => refusal(
                dispatcher.registry@,
                dispatcher.adapters,
                Some(ProofSystemKind::UniversalCircuit),
                base_name(circuit_path@),
            ) == Some(kind),
        },
{
    match dispatcher.route_as(ProofSystemKind::UniversalCircuit, circuit_path) {
        Ok(route) => Ok(
            NoirKeyRequest {
                handle: route.handle,
                circuit_path: circuit_path.to_string(),
                srs_path,
                settings: NoirSettings { on_chain_mode, low_memory_mode },
            },
        ),
        Err(kind) => Err(kind),
    }
}

/// Prepares the generation of a proof for the circuit in `circuit_path`. The
/// request is refused with `UnknownCircuit` where the base name of the path is
/// not registered as a universal circuit, with `AdapterUnavailable` where the
/// adapter is not linked, and with `WitnessComputationError` where an input is
/// no decimal field element; in this order.
pub fn prepare_noir_proof<C>(
    dispatcher: &Dispatcher<C>,
    circuit_path: &str,
    srs_path: Option<String>,
    inputs: Vec<String>,
    on_chain_mode: bool,
    vk: VerificationKey,
    low_memory_mode: bool,
) -> (made: Result<NoirProofRequest, ErrorKind>)
    ensures
        match made {
            Ok(request) => {
                &&& noir_proof_refusal(
                    dispatcher.registry@,
                    dispatcher.adapters,
                    base_name(circuit_path@),
                    texts(inputs@),
                ) is None
                &&& request@ == (NoirProofRequestView {
                    handle: base_name(circuit_path@),
                    circuit_path: circuit_path@,
                    srs_path: path_text(srs_path),
                    inputs: texts(inputs@),
                    settings: NoirSettings { on_chain_mode, low_memory_mode },
                    key: vk@,
                })
            },
            Err(kind) => noir_proof_refusal(
                dispatcher.registry@,
                dispatcher.adapters,
                base_name(circuit_path@),
                texts(inputs@),
            ) == Some(kind),
        },
{
    let route = match dispatcher.route_as(ProofSystemKind::UniversalCircuit, circuit_path) {
        Ok(route) => route,
        Err(kind) => {
            return Err(kind);
        },
    };
    if !are_decimal_texts(&inputs) {
        return Err(ErrorKind::WitnessComputationError);
    }
    Ok(
        NoirProofRequest {
            handle: route.handle,
            circuit_path: circuit_path.to_string(),
            srs_path,
            inputs,
            settings: NoirSettings { on_chain_mode, low_memory_mode },
            key: vk,
        },
    )
}

/// Prepares the check of a proof against the circuit in `circuit_path`. The
/// request is refused with `UnknownCircuit` where the base name of the path is
/// not registered as a universal circuit, and with `AdapterUnavailable` where
/// the adapter is not linked.
pub fn prepare_noir_verification<C>(
    dispatcher: &Dispatcher<C>,
    circuit_path: &str,
    proof: Vec<u8>,
    on_chain_mode: bool,
    vk: VerificationKey,
    low_memory_mode: bool,
) -> (made: Result<NoirVerificationRequest, ErrorKind>)
    ensures
        match made {
            Ok(request) => {
                &&& refusal(
                    dispatcher.registry@,
                    dispatcher.adapters,
                    Some(ProofSystemKind::UniversalCircuit),
                    base_name(circuit_path@),
                ) is None
                &&& request@ == (NoirVerificationRequestView {
                    handle: base_name(circuit_path@),
                    circuit_path: circuit_path@,
                    proof: proof@,
                    settings: NoirSettings { on_chain_mode, low_memory_mode },
                    key: vk@,
                })
            },
            Err(kind) => refusal(
                dispatcher.registry@,
                dispatcher.adapters,
                Some(ProofSystemKind::UniversalCircuit),
                base_name(circuit_path@),
            ) == Some(kind),
        },
{
    match dispatcher.route_as(ProofSystemKind::UniversalCircuit, circuit_path) {
        Ok(route) => Ok(
            NoirVerificationRequest {
                handle: route.handle,
                circuit_path: circuit_path.to_string(),
                proof,
                settings: NoirSettings { on_chain_mode, low_memory_mode },
                key: vk,
            },
        ),
        Err(kind) => Err(kind),
    }
}

/// A key that is derived while a request is served and a key that was kept
/// and supplied with the request are interchangeable: a request to prove that
/// came without a key and was given the derived one is, in every part, the
/// request that comes with that key.
pub proof fn law_proof_keys_interchange(
    on_demand: NoirProofRequestView,
    supplied: NoirProofRequestView,
    key: Seq<u8>,
)
    requires
        on_demand.key is None,
        supplied == (NoirProofRequestView { key: Some(key), ..on_demand }),
    ensures
        on_demand.with_key(key) == supplied,
{
}

/// The same of a request to verify: with the key derived on demand it is, in
/// every part, the request that comes with that key.
pub proof fn law_verification_keys_interchange(
    on_demand: NoirVerificationRequestView,
    supplied: NoirVerificationRequestView,
    key: Seq<u8>,
)
    requires
        on_demand.key is None,
        supplied == (NoirVerificationRequestView { key: Some(key), ..on_demand }),
    ensures
        on_demand.with_key(key) == supplied,
{
}

/// A key that the caller supplied is used as it is: nothing that the host
/// derives takes its place.
pub proof fn law_supplied_key_is_kept(
    request: NoirProofRequestView,
    check: NoirVerificationRequestView,
    derived: Seq<u8>,
)
    requires
        request.key is Some,
        check.key is Some,
    ensures
        request.with_key(derived) == request,
        check.with_key(derived) == check,
{
}

} // verus!
