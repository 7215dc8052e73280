//! The lifecycle that every adapter shares.
//!
//! The library decides and the host acts. A run stands in a phase; the host
//! does what the phase asks for and reports an event; the event moves the run
//! to its next phase. Generation goes from `Idle` over `ArtifactLoading`,
//! `WitnessOrInputPreparation` and `Proving` to `ProofReady`; verification goes
//! from `Idle` over `ArtifactLoading` and `Verifying` to `Valid` or `Invalid`.
//! A failure at any point before the end ends the run in `Failed`, and what
//! was done so far is dropped: nothing is tried a second time.

use vstd::prelude::*;
use crate::error::ErrorKind;

verus! {

/// What a run is for.
#[derive(Clone, Copy, Debug, PartialEq, Eq, Structural)]
pub enum Flow {
    Generation,
    Verification,
}

/// Where a run stands.
#[derive(Clone, Copy, Debug, PartialEq, Eq, Structural)]
pub enum Phase {
    Idle,
    ArtifactLoading,
    WitnessOrInputPreparation,
    Proving,
    ProofReady,
    Verifying,
    Valid,
    Invalid,
    Failed(ErrorKind),
}

/// What the host reports.
#[derive(Clone, Copy, Debug, PartialEq, Eq, Structural)]
pub enum Event {
    /// The request was accepted and the run begins.
    Start,
    /// The keys and reference strings of the request are loaded.
    ArtifactLoaded,
    /// The witness is computed, or the inputs are laid out for the prover.
    InputsPrepared,
    /// The proving library returned a proof.
    ProofProduced,
    /// The cryptographic check accepted the proof.
    Accepted,
    /// The cryptographic check rejected a proof that was well formed.
    Rejected,
    /// Something failed.
    Fault(ErrorKind),
}

/// What the host is to do next.
#[derive(Clone, Copy, Debug, PartialEq, Eq, Structural)]
pub enum Action {
    /// Nothing yet: the run waits for its start.
    Rest,
    LoadArtifact,
    PrepareInputs,
    Prove,
    Check,
    /// Hand the result to the caller.
    Deliver,
    /// Drop what was done and hand the failure to the caller.
    Abort,
}

/// True of the phases that end a run.
pub open spec fn is_terminal(phase: Phase) -> bool {
    phase is ProofReady || phase is Valid || phase is Invalid || phase is Failed
}

/// True of the phases that a run of `flow` can stand in.
pub open spec fn belongs(flow: Flow, phase: Phase) -> bool {
    match flow {
        Flow::Generation => !(phase is Verifying || phase is Valid || phase is Invalid),
        Flow::Verification => !(phase is WitnessOrInputPreparation || phase is Proving
            || phase is ProofReady),
    }
}

/// The phase that follows `phase` on `event`. A run that has ended stays where
/// it is. A fault ends the run with the failure as it was reported. An event
/// that the phase does not wait for is a failure of the backend's side.
pub open spec fn next_phase(flow: Flow, phase: Phase, event: Event) -> Phase {
    if is_terminal(phase) {
        phase
    } else if event is Fault {
        Phase::Failed(event->Fault_0)
    } else {
        match (flow, phase, event) {
            (_, Phase::Idle, Event::Start) => Phase::ArtifactLoading,
            (Flow::Generation, Phase::ArtifactLoading, Event::ArtifactLoaded) => {
                Phase::WitnessOrInputPreparation
            },
            (Flow::Generation, Phase::WitnessOrInputPreparation, Event::InputsPrepared) => {
                Phase::Proving
            },
            (Flow::Generation, Phase::Proving, Event::ProofProduced) => Phase::ProofReady,
            (Flow::Verification, Phase::ArtifactLoading, Event::ArtifactLoaded) => {
                Phase::Verifying
            },
            (Flow::Verification, Phase::Verifying, Event::Accepted) => Phase::Valid,
            (Flow::Verification, Phase::Verifying, Event::Rejected) => Phase::Invalid,
            _ => Phase::Failed(ErrorKind::BackendInternalError),
        }
    }
}

/// What the host is to do while the run stands in `phase`.
pub open spec fn action_in(phase: Phase) -> Action {
    match phase {
        Phase::Idle => Action::Rest,
        Phase::ArtifactLoading => Action::LoadArtifact,
        Phase::WitnessOrInputPreparation => Action::PrepareInputs,
        Phase::Proving => Action::Prove,
        Phase::Verifying => Action::Check,
        Phase::ProofReady => Action::Deliver,
        Phase::Valid => Action::Deliver,
        Phase::Invalid => Action::Deliver,
        Phase::Failed(_) => Action::Abort,
    }
}

/// The phase that a run reaches from `phase` on `events`, one after the other.
pub open spec fn run(flow: Flow, phase: Phase, events: Seq<Event>) -> Phase
    decreases events.len(),
{
    if events.len() == 0 {
        phase
    } else {
        run(flow, next_phase(flow, phase, events.first()), events.drop_first())
    }
}

/// What a verification that stands in `phase` answers: `true` for a proof that
/// was accepted, `false` for one that was rejected, the failure for a run that
/// failed, and nothing while the run goes on.
pub open spec fn verdict_of(phase: Phase) -> Option<Result<bool, ErrorKind>> {
    match phase {
        Phase::Valid => Some(Ok(true)),
        Phase::Invalid => Some(Ok(false)),
        Phase::Failed(kind) => Some(Err(kind)),
        _ => None,
    }
}

/// What a generation that stands in `phase` has come to: success once the
/// proof is ready, the failure for a run that failed, and nothing while the run
/// goes on.
pub open spec fn completion_of(phase: Phase) -> Option<Result<(), ErrorKind>> {
    match phase {
        Phase::ProofReady => Some(Ok(())),
        Phase::Failed(kind) => Some(Err(kind)),
        _ => None,
    }
}

/// One run of one request.
pub struct Lifecycle {
    flow: Flow,
    phase: Phase,
}

impl Lifecycle {
    #[verifier::type_invariant]
    spec fn well_formed(self) -> bool {
        belongs(self.flow, self.phase)
    }

    /// What the run is for.
    pub closed spec fn flow_of(&self) -> Flow {
        self.flow
    }

    /// Where the run stands.
    pub closed spec fn phase_of(&self) -> Phase {
        self.phase
    }

    /// A run that is to generate a proof, before its start.
    pub fn generation() -> (life: Self)
        ensures
            life.flow_of() == Flow::Generation,
            life.phase_of() == Phase::Idle,
    {
        Lifecycle { flow: Flow::Generation, phase: Phase::Idle }
    }

    /// A run that is to verify a proof, before its start.
    pub fn verification() -> (life: Self)
        ensures
            life.flow_of() == Flow::Verification,
            life.phase_of() == Phase::Idle,
    {
        Lifecycle { flow: Flow::Verification, phase: Phase::Idle }
    }

    /// What the run is for.
    pub fn flow(&self) -> (flow: Flow)
        ensures
            flow == self.flow_of(),
    {
        self.flow
    }

    /// Where the run stands.
    pub fn phase(&self) -> (phase: Phase)
        ensures
            phase == self.phase_of(),
            belongs(self.flow_of(), phase),
    {
        proof {
            use_type_invariant(self);
        }
        self.phase
    }

    /// Tells whether the run has ended.
    pub fn is_over(&self) -> (over: bool)
        ensures
            over == is_terminal(self.phase_of()),
    {
        match self.phase {
            Phase::ProofReady | Phase::Valid | Phase::Invalid | Phase::Failed(_) => true,
            _ => false,
        }
    }

    /// Takes in what the host reports, moves the run to its next phase and says
    /// what the host is to do there.
    pub fn advance(&mut self, event: Event) -> (action: Action)
        ensures
            final(self).flow_of() == old(self).flow_of(),
            final(self).phase_of() == next_phase(old(self).flow_of(), old(self).phase_of(), event),
            action == action_in(final(self).phase_of()),
    {
        proof {
            use_type_invariant(&*self);
        }
        let next = match (self.flow, self.phase, event) {
            (_, Phase::ProofReady, _) => Phase::ProofReady,
            (_, Phase::Valid, _) => Phase::Valid,
            (_, Phase::Invalid, _) => Phase::Invalid,
            (_, Phase::Failed(kind), _) => Phase::Failed(kind),
            (_, _, Event::Fault(kind)) => Phase::Failed(kind),
            (_, Phase::Idle, Event::Start) => Phase::ArtifactLoading,
            (Flow::Generation, Phase::ArtifactLoading, Event::ArtifactLoaded) => {
                Phase::WitnessOrInputPreparation
            },
            (Flow::Generation, Phase::WitnessOrInputPreparation, Event::InputsPrepared) => {
                Phase::Proving
            },
            (Flow::Generation, Phase::Proving, Event::ProofProduced) => Phase::ProofReady,
            (Flow::Verification, Phase::ArtifactLoading, Event::ArtifactLoaded) => {
                Phase::Verifying
            },
            (Flow::Verification, Phase::Verifying, Event::Accepted) => Phase::Valid,
            (Flow::Verification, Phase::Verifying, Event::Rejected) => Phase::Invalid,
            _ => Phase::Failed(ErrorKind::BackendInternalError),
        };
        self.phase = next;
        match next {
            Phase::Idle => Action::Rest,
            Phase::ArtifactLoading => Action::LoadArtifact,
            Phase::WitnessOrInputPreparation => Action::PrepareInputs,
            Phase::Proving => Action::Prove,
            Phase::Verifying => Action::Check,
            Phase::ProofReady | Phase::Valid | Phase::Invalid => Action::Deliver,
            Phase::Failed(_) => Action::Abort,
        }
    }

    /// What a verification answers, once it has ended.
    pub fn verdict(&self) -> (answer: Option<Result<bool, ErrorKind>>)
        ensures
            answer == verdict_of(self.phase_of()),
    {
        match self.phase {
            Phase::Valid => Some(Ok(true)),
            Phase::Invalid => Some(Ok(false)),
            Phase::Failed(kind) => Some(Err(kind)),
            _ => None,
        }
    }

    /// What a generation has come to, once it has ended.
    pub fn completion(&self) -> (answer: Option<Result<(), ErrorKind>>)
        ensures
            answer == completion_of(self.phase_of()),
    {
        match self.phase {
            Phase::ProofReady => Some(Ok(())),
            Phase::Failed(kind) => Some(Err(kind)),
            _ => None,
        }
    }
}

/// The first event of a run moves it one phase on, and the rest follows.
pub proof fn lemma_run_unfolds(flow: Flow, phase: Phase, events: Seq<Event>)
    requires
        events.len() > 0,
    ensures
        run(flow, phase, events) == run(
            flow,
            next_phase(flow, phase, events[0]),
            events.skip(1),
        ),
{
    assert(events.drop_first() =~= events.skip(1));
}

/// A run that has ended stays where it is, whatever is reported to it.
pub proof fn law_ended_runs_stay(flow: Flow, phase: Phase, events: Seq<Event>)
    requires
        is_terminal(phase),
    ensures
        run(flow, phase, events) == phase,
    decreases events.len(),
{
    if events.len() > 0 {
        law_ended_runs_stay(flow, phase, events.drop_first());
    }
}

/// Events reported in two parts lead where they lead when reported at once.
pub proof fn law_runs_compose(flow: Flow, phase: Phase, first: Seq<Event>, second: Seq<Event>)
    ensures
        run(flow, phase, first + second) == run(flow, run(flow, phase, first), second),
    decreases first.len(),
{
    if first.len() == 0 {
        assert(first + second =~= second);
    } else {
        assert((first + second).drop_first() =~= first.drop_first() + second);
        law_runs_compose(
            flow,
            next_phase(flow, phase, first.first()),
            first.drop_first(),
            second,
        );
    }
}

/// A run never leaves its flow: a generation never stands in a phase of
/// verification, nor a verification in one of generation.
pub proof fn law_flows_stay_apart(flow: Flow, phase: Phase, events: Seq<Event>)
    requires
        belongs(flow, phase),
    ensures
        belongs(flow, run(flow, phase, events)),
    decreases events.len(),
{
    if events.len() > 0 {
        law_flows_stay_apart(flow, next_phase(flow, phase, events.first()), events.drop_first());
    }
}

/// The first fault that reaches a run that has not ended ends it, with the
/// failure as it was reported and whatever is reported after it.
pub proof fn law_first_fault_surfaces(
    flow: Flow,
    phase: Phase,
    before: Seq<Event>,
    kind: ErrorKind,
    after: Seq<Event>,
)
    requires
        !is_terminal(run(flow, phase, before)),
    ensures
        run(flow, phase, before + seq![Event::Fault(kind)] + after) == Phase::Failed(kind),
{
    let fault = seq![Event::Fault(kind)];
    let reached = run(flow, phase, before);
    law_runs_compose(flow, phase, before + fault, after);
    law_runs_compose(flow, phase, before, fault);
    lemma_run_unfolds(flow, reached, fault);
    assert(fault.skip(1).len() == 0);
    law_ended_runs_stay(flow, Phase::Failed(kind), after);
}

/// The events that carry a generation to its end, in their order.
pub open spec fn generation_events() -> Seq<Event> {
    seq![Event::Start, Event::ArtifactLoaded, Event::InputsPrepared, Event::ProofProduced]
}

/// The events that carry a verification to `last`, in their order.
pub open spec fn verification_events(last: Event) -> Seq<Event> {
    seq![Event::Start, Event::ArtifactLoaded, last]
}

/// A generation ends with a proof exactly where the host reported, in this
/// order and with nothing between them, that the run began, that the artifact
/// was loaded, that the inputs were prepared and that the proof was produced.
pub proof fn law_proof_ready_only_in_order(events: Seq<Event>)
    ensures
        run(Flow::Generation, Phase::Idle, events) == Phase::ProofReady <==> events.len() >= 4
            && events.take(4) == generation_events(),
{
    let flow = Flow::Generation;
    let wanted = generation_events();
    if events.len() >= 1 {
        lemma_run_unfolds(flow, Phase::Idle, events);
        let phase_a = next_phase(flow, Phase::Idle, events[0]);
        let rest_a = events.skip(1);
        if is_terminal(phase_a) {
            law_ended_runs_stay(flow, phase_a, rest_a);
            assert(events.len() >= 4 ==> events.take(4)[0] == events[0]);
        } else if rest_a.len() >= 1 {
            lemma_run_unfolds(flow, phase_a, rest_a);
            let phase_b = next_phase(flow, phase_a, rest_a[0]);
            let rest_b = rest_a.skip(1);
            assert(rest_b =~= events.skip(2));
            if is_terminal(phase_b) {
                law_ended_runs_stay(flow, phase_b, rest_b);
                assert(events.len() >= 4 ==> events.take(4)[1] == events[1]);
            } else if rest_b.len() >= 1 {
                lemma_run_unfolds(flow, phase_b, rest_b);
                let phase_c = next_phase(flow, phase_b, rest_b[0]);
                let rest_c = rest_b.skip(1);
                assert(rest_c =~= events.skip(3));
                if is_terminal(phase_c) {
                    law_ended_runs_stay(flow, phase_c, rest_c);
                    assert(events.len() >= 4 ==> events.take(4)[2] == events[2]);
                } else if rest_c.len() >= 1 {
                    lemma_run_unfolds(flow, phase_c, rest_c);
                    let phase_d = next_phase(flow, phase_c, rest_c[0]);
                    assert(is_terminal(phase_d));
                    law_ended_runs_stay(flow, phase_d, rest_c.skip(1));
                    assert(events.take(4)[3] == events[3]);
                    if phase_d == Phase::ProofReady {
                        assert(events.take(4) =~= wanted);
                    }
                }
            }
        }
    }
    if events.len() >= 4 && events.take(4) == wanted {
        assert(events.take(4)[0] == events[0]);
        assert(events.take(4)[1] == events[1]);
        assert(events.take(4)[2] == events[2]);
        assert(events.take(4)[3] == events[3]);
    }
}

/// A verification ends in the phase of `last`, which is `Accepted` or
/// `Rejected`, exactly where the host reported, in this order and with nothing
/// between them, that the run began, that the artifact was loaded, and `last`.
pub proof fn lemma_checked_only_in_order(events: Seq<Event>, last: Event)
    requires
        last == Event::Accepted || last == Event::Rejected,
    ensures
        run(Flow::Verification, Phase::Idle, events) == next_phase(
            Flow::Verification,
            Phase::Verifying,
            last,
        ) <==> events.len() >= 3 && events.take(3) == verification_events(last),
{
    let flow = Flow::Verification;
    let wanted = verification_events(last);
    if events.len() >= 1 {
        lemma_run_unfolds(flow, Phase::Idle, events);
        let phase_a = next_phase(flow, Phase::Idle, events[0]);
        let rest_a = events.skip(1);
        if is_terminal(phase_a) {
            law_ended_runs_stay(flow, phase_a, rest_a);
            assert(events.len() >= 3 ==> events.take(3)[0] == events[0]);
        } else if rest_a.len() >= 1 {
            lemma_run_unfolds(flow, phase_a, rest_a);
            let phase_b = next_phase(flow, phase_a, rest_a[0]);
            let rest_b = rest_a.skip(1);
            assert(rest_b =~= events.skip(2));
            if is_terminal(phase_b) {
                law_ended_runs_stay(flow, phase_b, rest_b);
                assert(events.len() >= 3 ==> events.take(3)[1] == events[1]);
            } else if rest_b.len() >= 1 {
                lemma_run_unfolds(flow, phase_b, rest_b);
                let phase_c = next_phase(flow, phase_b, rest_b[0]);
                assert(is_terminal(phase_c));
                law_ended_runs_stay(flow, phase_c, rest_b.skip(1));
                assert(events.take(3)[2] == events[2]);
                if phase_c == next_phase(flow, Phase::Verifying, last) {
                    assert(events.take(3) =~= wanted);
                }
            }
        }
    }
    if events.len() >= 3 && events.take(3) == wanted {
        assert(events.take(3)[0] == events[0]);
        assert(events.take(3)[1] == events[1]);
        assert(events.take(3)[2] == events[2]);
    }
}

/// A verification answers `true` exactly where the cryptographic check
/// accepted the proof, after the run began and the artifact was loaded: no
/// other report of the host makes a proof valid.
pub proof fn law_valid_only_when_accepted(events: Seq<Event>)
    ensures
        verdict_of(run(Flow::Verification, Phase::Idle, events)) == Some(
            Ok::<bool, ErrorKind>(true),
        ) <==> events.len() >= 3 && events.take(3) == verification_events(Event::Accepted),
{
    lemma_checked_only_in_order(events, Event::Accepted);
}

/// A verification answers `false`, which is no failure, exactly where the
/// cryptographic check rejected a proof that was well formed.
pub proof fn law_invalid_only_when_rejected(events: Seq<Event>)
    ensures
        verdict_of(run(Flow::Verification, Phase::Idle, events)) == Some(
            Ok::<bool, ErrorKind>(false),
        ) <==> events.len() >= 3 && events.take(3) == verification_events(Event::Rejected),
{
    lemma_checked_only_in_order(events, Event::Rejected);
}

/// Where the check against a verification artifact of another circuit rejects
/// the proof, or finds that the artifact does not fit, the verification answers
/// `false` or `VerificationArtifactMismatch`, and nothing reported afterwards
/// turns that into `true`.
pub proof fn law_mismatch_is_never_valid(outcome: Event, after: Seq<Event>)
    requires
        outcome == Event::Rejected || outcome == Event::Fault(
            ErrorKind::VerificationArtifactMismatch,
        ),
    ensures
        ({
            let answer = verdict_of(
                run(Flow::Verification, Phase::Idle, verification_events(outcome) + after),
            );
            answer == Some(Ok::<bool, ErrorKind>(false)) || answer == Some(
                Err::<bool, ErrorKind>(ErrorKind::VerificationArtifactMismatch),
            )
        }),
{
    let flow = Flow::Verification;
    let events = verification_events(outcome);
    law_runs_compose(flow, Phase::Idle, events, after);
    lemma_run_unfolds(flow, Phase::Idle, events);
    lemma_run_unfolds(flow, Phase::ArtifactLoading, events.skip(1));
    lemma_run_unfolds(flow, Phase::Verifying, events.skip(1).skip(1));
    assert(events.skip(1).skip(1).skip(1).len() == 0);
    law_ended_runs_stay(flow, run(flow, Phase::Idle, events), after);
}

} // verus!
