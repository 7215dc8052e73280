//! The circuit registry: which circuits exist, and what each was compiled for.
//!
//! A registry is built once, while the host starts, and is read-only from then
//! on: a `RegistryBuilder` collects the circuits and is sealed into a `Registry`,
//! which has no operation that changes it.

use vstd::prelude::*;
use crate::error::{ErrorKind, ProofSystemKind};

verus! {

/// Why a circuit was not taken into the registry.
#[derive(Clone, Copy, Debug, PartialEq, Eq, Structural)]
pub enum RegistrationError {
    /// The handle is registered already; a circuit is compiled for one proof
    /// system only, so a second registration is a fault of the host's set-up.
    DuplicateHandle,
}

/// One registered circuit. `C` is the capability that the host keeps for it: a
/// witness function for an arithmetic circuit, a pair of proving and verifying
/// functions for a polynomial one. The library carries it and never looks inside.
pub struct Circuit<C> {
    pub handle: String,
    pub kind: ProofSystemKind,
    pub capability: C,
}

/// True where no two circuits of `circuits` share a handle.
pub open spec fn distinct_handles<C>(circuits: Seq<Circuit<C>>) -> bool {
    forall|i: int, j: int|
        0 <= i < j < circuits.len() ==> (#[trigger] circuits[i]).handle@ != (
        #[trigger] circuits[j]).handle@
}

/// True where `handle` is the handle of one of `circuits`.
pub open spec fn listed<C>(circuits: Seq<Circuit<C>>, handle: Seq<char>) -> bool {
    exists|i: int| 0 <= i < circuits.len() && (#[trigger] circuits[i]).handle@ == handle
}

/// The place of `handle` among `circuits`.
pub open spec fn place_of<C>(circuits: Seq<Circuit<C>>, handle: Seq<char>) -> int {
    choose|i: int| 0 <= i < circuits.len() && (#[trigger] circuits[i]).handle@ == handle
}

/// The mapping that a list of circuits stands for: from each handle to the proof
/// system and the capability registered with it.
pub open spec fn mapping_of<C>(circuits: Seq<Circuit<C>>) -> Map<
    Seq<char>,
    (ProofSystemKind, C),
> {
    Map::new(
        |handle: Seq<char>| listed(circuits, handle),
        |handle: Seq<char>|
            (
                circuits[place_of(circuits, handle)].kind,
                circuits[place_of(circuits, handle)].capability,
            ),
    )
}

/// With distinct handles, the circuit at place `i` is what its handle maps to.
pub proof fn lemma_mapping_at<C>(circuits: Seq<Circuit<C>>, i: int)
    requires
        distinct_handles(circuits),
        0 <= i < circuits.len(),
    ensures
        mapping_of(circuits).contains_key(circuits[i].handle@),
        mapping_of(circuits)[circuits[i].handle@] == (circuits[i].kind, circuits[i].capability),
        place_of(circuits, circuits[i].handle@) == i,
{
    let handle = circuits[i].handle@;
    assert(listed(circuits, handle));
    let at = place_of(circuits, handle);
    assert(0 <= at < circuits.len() && circuits[at].handle@ == handle);
    if at < i {
        assert(circuits[at].handle@ != circuits[i].handle@);
    } else if i < at {
        assert(circuits[i].handle@ != circuits[at].handle@);
    }
}

/// Adding a circuit under a new handle adds one pair to the mapping and leaves
/// the others as they were.
pub proof fn lemma_mapping_push<C>(circuits: Seq<Circuit<C>>, circuit: Circuit<C>)
    requires
        distinct_handles(circuits),
        !listed(circuits, circuit.handle@),
    ensures
        distinct_handles(circuits.push(circuit)),
        mapping_of(circuits.push(circuit)) == mapping_of(circuits).insert(
            circuit.handle@,
            (circuit.kind, circuit.capability),
        ),
{
    let more = circuits.push(circuit);
    assert forall|i: int, j: int| 0 <= i < j < more.len() implies (#[trigger] more[i]).handle@ != (
    #[trigger] more[j]).handle@ by {
        if j == circuits.len() {
            assert(more[i] == circuits[i]);
            assert(!listed(circuits, circuits[i].handle@) || circuits[i].handle@
                != circuit.handle@);
        } else {
            assert(more[i] == circuits[i] && more[j] == circuits[j]);
        }
    }
    let grown = mapping_of(circuits).insert(circuit.handle@, (circuit.kind, circuit.capability));
    assert forall|handle: Seq<char>| mapping_of(more).contains_key(handle) implies #[trigger]
    grown.contains_key(handle) by {
        let at = place_of(more, handle);
        if at < circuits.len() {
            assert(more[at] == circuits[at]);
            assert(listed(circuits, handle));
        }
    }
    assert forall|handle: Seq<char>| #[trigger] grown.contains_key(handle) implies mapping_of(
        more,
    ).contains_key(handle) by {
        if handle == circuit.handle@ {
            assert(more[circuits.len() as int].handle@ == handle);
        } else {
            let at = place_of(circuits, handle);
            assert(more[at] == circuits[at]);
        }
    }
    assert forall|handle: Seq<char>| #[trigger] grown.contains_key(handle) implies mapping_of(
        more,
    )[handle] == grown[handle] by {
        if handle == circuit.handle@ {
            assert(more[circuits.len() as int] == circuit);
            lemma_mapping_at(more, circuits.len() as int);
        } else {
            let at = place_of(circuits, handle);
            assert(more[at] == circuits[at]);
            lemma_mapping_at(circuits, at);
            lemma_mapping_at(more, at);
        }
    }
    assert(mapping_of(more) =~= grown);
}

/// Collects the circuits of a host before any request is served.
pub struct RegistryBuilder<C> {
    circuits: Vec<Circuit<C>>,
}

/// The sealed registry: a mapping from circuit handle to proof system and
/// capability that nothing can change any more.
pub struct Registry<C> {
    circuits: Vec<Circuit<C>>,
}

/// Looks for `handle` among `circuits`.
fn find<C>(circuits: &Vec<Circuit<C>>, handle: &str) -> (place: Option<usize>)
    requires
        distinct_handles(circuits@),
    ensures
        match place {
            Some(i) => i < circuits.len() && circuits[i as int].handle@ == handle@ && place_of(
                circuits@,
                handle@,
            ) == i,
            None => !listed(circuits@, handle@),
        },
{
    let wanted = handle.to_string();
    let mut i: usize = 0;
    while i < circuits.len()
        invariant
            i <= circuits.len(),
            wanted@ == handle@,
            distinct_handles(circuits@),
            forall|k: int| 0 <= k < i ==> (#[trigger] circuits@[k]).handle@ != handle@,
        decreases circuits.len() - i,
    {
        if circuits[i].handle == wanted {
            proof {
                lemma_mapping_at(circuits@, i as int);
            }
            return Some(i);
        }
        i = i + 1;
    }
    None
}

impl<C> RegistryBuilder<C> {
    #[verifier::type_invariant]
    spec fn well_formed(self) -> bool {
        distinct_handles(self.circuits@)
    }

    /// The circuits collected so far, as a mapping from handle to proof system
    /// and capability.
    pub closed spec fn view(&self) -> Map<Seq<char>, (ProofSystemKind, C)> {
        mapping_of(self.circuits@)
    }

    /// The number of circuits collected so far.
    pub closed spec fn count(&self) -> nat {
        self.circuits.len() as nat
    }

    /// A builder that holds no circuit.
    pub fn new() -> (builder: Self)
        ensures
            builder@ == Map::<Seq<char>, (ProofSystemKind, C)>::empty(),
            builder.count() == 0,
    {
        let builder = RegistryBuilder { circuits: Vec::new() };
        assert(builder@ =~= Map::<Seq<char>, (ProofSystemKind, C)>::empty());
        builder
    }

    /// Registers a circuit under `handle`. A handle that is registered already is
    /// refused, and the builder then stays as it was.
    pub fn register(&mut self, handle: String, kind: ProofSystemKind, capability: C) -> (done:
        Result<(), RegistrationError>)
        ensures
            old(self)@.contains_key(handle@) ==> done == Err::<(), RegistrationError>(
                RegistrationError::DuplicateHandle,
            ) && final(self)@ == old(self)@ && final(self).count() == old(self).count(),
            !old(self)@.contains_key(handle@) ==> done is Ok && final(self)@ == old(self)@.insert(
                handle@,
                (kind, capability),
            ) && final(self).count() == old(self).count() + 1,
    {
        proof {
            use_type_invariant(&*self);
        }
        match find(&self.circuits, handle.as_str()) {
            Some(_) => Err(RegistrationError::DuplicateHandle),
            None => {
                let circuit = Circuit { handle, kind, capability };
                proof {
                    lemma_mapping_push(self.circuits@, circuit);
                }
                let mut circuits: Vec<Circuit<C>> = Vec::new();
                std::mem::swap(&mut self.circuits, &mut circuits);
                circuits.push(circuit);
                std::mem::swap(&mut self.circuits, &mut circuits);
                Ok(())
            },
        }
    }

    /// Seals the builder: the registry holds what was collected and cannot change.
    pub fn build(self) -> (registry: Registry<C>)
        ensures
            registry@ == self@,
            registry.count() == self.count(),
    {
        proof {
            use_type_invariant(&self);
        }
        Registry { circuits: self.circuits }
    }
}

impl<C> Registry<C> {
    #[verifier::type_invariant]
    spec fn well_formed(self) -> bool {
        distinct_handles(self.circuits@)
    }

    /// The registry as a mapping from handle to proof system and capability.
    pub closed spec fn view(&self) -> Map<Seq<char>, (ProofSystemKind, C)> {
        mapping_of(self.circuits@)
    }

    /// The number of circuits in the registry.
    pub closed spec fn count(&self) -> nat {
        self.circuits.len() as nat
    }

    /// The number of registered circuits.
    pub fn len(&self) -> (n: usize)
        ensures
            n == self.count(),
    {
        self.circuits.len()
    }

    /// Tells whether `handle` is registered.
    pub fn contains(&self, handle: &str) -> (found: bool)
        ensures
            found == self@.contains_key(handle@),
    {
        proof {
            use_type_invariant(self);
        }
        find(&self.circuits, handle).is_some()
    }

    /// The proof system and the capability registered under `handle`, or
    /// `UnknownCircuit` where the handle was never registered.
    pub fn resolve(&self, handle: &str) -> (found: Result<(ProofSystemKind, &C), ErrorKind>)
        ensures
            match found {
                Ok((kind, capability)) => self@.contains_key(handle@) && self@[handle@] == (
                    kind,
                    *capability,
                ),
                Err(kind) => kind == ErrorKind::UnknownCircuit && !self@.contains_key(handle@),
            },
    {
        proof {
            use_type_invariant(self);
        }
        match find(&self.circuits, handle) {
            Some(i) => {
                proof {
                    lemma_mapping_at(self.circuits@, i as int);
                }
                Ok((self.circuits[i].kind, &self.circuits[i].capability))
            },
            None => Err(ErrorKind::UnknownCircuit),
        }
    }
}

/// A registration under a new handle leaves every circuit that was registered
/// before it with the proof system and the capability it had: a handle stands
/// for one proof system as long as the registry lives.
pub proof fn law_registration_keeps_earlier_circuits<C>(
    before: RegistryBuilder<C>,
    after: RegistryBuilder<C>,
    handle: Seq<char>,
    kind: ProofSystemKind,
    capability: C,
    earlier: Seq<char>,
)
    requires
        !before@.contains_key(handle),
        after@ == before@.insert(handle, (kind, capability)),
        before@.contains_key(earlier),
    ensures
        after@.contains_key(earlier),
        after@[earlier] == before@[earlier],
{
}

/// A refused registration changes nothing, and an accepted one adds exactly its
/// own handle: the registry only ever grows by the handles that were registered.
pub proof fn law_registration_adds_one_handle<C>(
    before: RegistryBuilder<C>,
    after: RegistryBuilder<C>,
    handle: Seq<char>,
    kind: ProofSystemKind,
    capability: C,
    other: Seq<char>,
)
    requires
        after@ == before@.insert(handle, (kind, capability)),
        other != handle,
    ensures
        after@.contains_key(other) == before@.contains_key(other),
{
}

} // verus!
