//! The dispatcher: from an artifact path to the circuit, its proof system and
//! the adapter that serves it.

use vstd::prelude::*;
use crate::error::{ErrorKind, ProofLib, ProofSystemKind};
use crate::registry::Registry;
use crate::text::{base_name, base_name_of};

verus! {

/// The adapters that are linked into the host. An adapter that is absent is
/// found when a request is routed, and the request then fails at once: no
/// request is ever handed to another proof system than its circuit's own.
#[derive(Clone, Copy, Debug, PartialEq, Eq, Structural)]
pub struct Adapters {
    /// Arithmetic circuits, computed with the arkworks library.
    pub arkworks: bool,
    /// Arithmetic circuits, computed with the rapidsnark library.
    pub rapidsnark: bool,
    /// Polynomial interactive oracle proofs.
    pub polynomial_iop: bool,
    /// Universal circuits.
    pub universal_circuit: bool,
}

impl Adapters {
    /// True where an adapter for `kind` is linked.
    pub open spec fn supports(self, kind: ProofSystemKind) -> bool {
        match kind {
            ProofSystemKind::ArithmeticCircuit => self.arkworks || self.rapidsnark,
            ProofSystemKind::PolynomialIop => self.polynomial_iop,
            ProofSystemKind::UniversalCircuit => self.universal_circuit,
        }
    }

    /// True where the arithmetic library `lib` is linked.
    pub open spec fn offers(self, lib: ProofLib) -> bool {
        match lib {
            ProofLib::Arkworks => self.arkworks,
            ProofLib::Rapidsnark => self.rapidsnark,
        }
    }

    /// Tells whether an adapter for `kind` is linked.
    pub fn has(&self, kind: ProofSystemKind) -> (linked: bool)
        ensures
            linked == self.supports(kind),
    {
        match kind {
            ProofSystemKind::ArithmeticCircuit => self.arkworks || self.rapidsnark,
            ProofSystemKind::PolynomialIop => self.polynomial_iop,
            ProofSystemKind::UniversalCircuit => self.universal_circuit,
        }
    }

    /// Tells whether the arithmetic library `lib` is linked.
    pub fn has_lib(&self, lib: ProofLib) -> (linked: bool)
        ensures
            linked == self.offers(lib),
    {
        match lib {
            ProofLib::Arkworks => self.arkworks,
            ProofLib::Rapidsnark => self.rapidsnark,
        }
    }
}

/// Where a request goes: the circuit it names, the proof system that the
/// circuit was compiled for, and the capability registered with it.
pub struct Route<'a, C> {
    pub handle: String,
    pub kind: ProofSystemKind,
    pub capability: &'a C,
}

/// The single entry point of a host: a sealed registry and the adapters that
/// are linked.
pub struct Dispatcher<C> {
    pub registry: Registry<C>,
    pub adapters: Adapters,
}

/// Why a request for the circuit `handle` cannot be served, if it cannot. With
/// `wanted`, the request comes through the adapter of that proof system, and a
/// circuit of another proof system is unknown to it.
pub open spec fn refusal<C>(
    registry: Map<Seq<char>, (ProofSystemKind, C)>,
    adapters: Adapters,
    wanted: Option<ProofSystemKind>,
    handle: Seq<char>,
) -> Option<ErrorKind> {
    if !registry.contains_key(handle) {
        Some(ErrorKind::UnknownCircuit)
    } else if wanted is Some && wanted->Some_0 != registry[handle].0 {
        Some(ErrorKind::UnknownCircuit)
    } else if !adapters.supports(registry[handle].0) {
        Some(ErrorKind::AdapterUnavailable)
    } else {
        None
    }
}

impl<C> Dispatcher<C> {
    /// A dispatcher over `registry` with the adapters that are linked.
    pub fn new(registry: Registry<C>, adapters: Adapters) -> (dispatcher: Self)
        ensures
            dispatcher.registry == registry,
            dispatcher.adapters == adapters,
    {
        Dispatcher { registry, adapters }
    }

    /// True where `route` is the route of the circuit `handle`.
    pub open spec fn leads(&self, route: Route<'_, C>, handle: Seq<char>) -> bool {
        &&& route.handle@ == handle
        &&& self.registry@.contains_key(handle)
        &&& route.kind == self.registry@[handle].0
        &&& *route.capability == self.registry@[handle].1
    }

    /// Routes the circuit `handle`, through the adapter of `wanted` where one is
    /// named.
    fn route_handle(&self, wanted: Option<ProofSystemKind>, handle: String) -> (routed: Result<
        Route<'_, C>,
        ErrorKind,
    >)
        ensures
            match routed {
                Ok(route) => refusal(self.registry@, self.adapters, wanted, handle@) is None
                    && self.leads(route, handle@),
                Err(kind) => refusal(self.registry@, self.adapters, wanted, handle@) == Some(kind),
            },
    {
        let (kind, capability) = match self.registry.resolve(handle.as_str()) {
            Ok(found) => found,
            Err(kind) => {
                return Err(kind);
            },
        };
        match wanted {
            Some(asked) => {
                if asked != kind {
                    return Err(ErrorKind::UnknownCircuit);
                }
            },
            None => {},
        }
        if !self.adapters.has(kind) {
            return Err(ErrorKind::AdapterUnavailable);
        }
        Ok(Route { handle, kind, capability })
    }

    /// Routes a request by the base name of its artifact path. An unregistered
    /// circuit gives `UnknownCircuit`, a circuit whose adapter is not linked
    /// gives `AdapterUnavailable`, and every other request is routed to the
    /// proof system that its circuit was registered with.
    pub fn route(&self, artifact_path: &str) -> (routed: Result<Route<'_, C>, ErrorKind>)
        ensures
            match routed {
                Ok(route) => refusal(
                    self.registry@,
                    self.adapters,
                    None,
                    base_name(artifact_path@),
                ) is None && self.leads(route, base_name(artifact_path@)),
                Err(kind) => refusal(
                    self.registry@,
                    self.adapters,
                    None,
                    base_name(artifact_path@),
                ) == Some(kind),
            },
    {
        self.route_handle(None, base_name_of(artifact_path))
    }

    /// Routes a request that came in through the adapter of `kind`. A circuit
    /// that is registered for another proof system is unknown to this adapter.
    pub fn route_as(&self, kind: ProofSystemKind, artifact_path: &str) -> (routed: Result<
        Route<'_, C>,
        ErrorKind,
    >)
        ensures
            match routed {
                Ok(route) => refusal(
                    self.registry@,
                    self.adapters,
                    Some(kind),
                    base_name(artifact_path@),
                ) is None && self.leads(route, base_name(artifact_path@)) && route.kind == kind,
                Err(error) => refusal(
                    self.registry@,
                    self.adapters,
                    Some(kind),
                    base_name(artifact_path@),
                ) == Some(error),
            },
    {
        self.route_handle(Some(kind), base_name_of(artifact_path))
    }
}

/// A request for a circuit that was never registered is refused as
/// `UnknownCircuit`, whatever adapter it came through and whatever is linked.
pub proof fn law_unregistered_circuit_is_unknown<C>(
    registry: Map<Seq<char>, (ProofSystemKind, C)>,
    adapters: Adapters,
    wanted: Option<ProofSystemKind>,
    handle: Seq<char>,
)
    requires
        !registry.contains_key(handle),
    ensures
        refusal(registry, adapters, wanted, handle) == Some(ErrorKind::UnknownCircuit),
{
}

/// A request is served only by the proof system that its circuit was
/// registered with, and only where that adapter is linked: where it is absent
/// the request is refused, and it never falls to another adapter.
pub proof fn law_no_fallback<C>(
    registry: Map<Seq<char>, (ProofSystemKind, C)>,
    adapters: Adapters,
    wanted: Option<ProofSystemKind>,
    handle: Seq<char>,
)
    requires
        refusal(registry, adapters, wanted, handle) is None,
    ensures
        registry.contains_key(handle),
        adapters.supports(registry[handle].0),
        wanted is Some ==> wanted->Some_0 == registry[handle].0,
{
}

} // verus!
