//! The parts of the library one by one, on concrete values.

use proof_dispatch::dispatch::{Adapters, Dispatcher};
use proof_dispatch::arithmetic::seal_circom_proof;
use proof_dispatch::envelope::open;
use proof_dispatch::error::{ErrorKind, ProofLib, ProofSystemKind};
use proof_dispatch::inputs::CircuitInputs;
use proof_dispatch::lifecycle::{Action, Event, Flow, Lifecycle, Phase};
use proof_dispatch::registry::{RegistrationError, RegistryBuilder};
use proof_dispatch::text::{are_decimal_texts, base_name_of, is_decimal_text};
use proof_dispatch::universal::{
    prepare_noir_proof, prepare_noir_verification, NoirSettings, VerificationKey,
};

fn text(value: &str) -> String {
    value.to_string()
}

fn texts(values: &[&str]) -> Vec<String> {
    values.iter().map(|value| value.to_string()).collect()
}

fn seal(points: &[u8], public_inputs: &[String]) -> Vec<u8> {
    seal_circom_proof(points.to_vec(), public_inputs.to_vec()).unwrap().envelope
}

const EVERYTHING: Adapters =
    Adapters { arkworks: true, rapidsnark: true, polynomial_iop: true, universal_circuit: true };

// ---------------------------------------------------------------------------
// Text.

#[test]
fn decimal_texts_are_digits_and_nothing_else() {
    assert!(is_decimal_text("0"));
    assert!(is_decimal_text("55"));
    assert!(is_decimal_text("007"));
    assert!(is_decimal_text(
        "21888242871839275222246405745257275088548364400416034343698204186575808495617"
    ));
    assert!(!is_decimal_text(""));
    assert!(!is_decimal_text("-1"));
    assert!(!is_decimal_text("+1"));
    assert!(!is_decimal_text("1_000"));
    assert!(!is_decimal_text("0x10"));
    assert!(!is_decimal_text(" 1"));
    assert!(!is_decimal_text("1.5"));
    assert!(!is_decimal_text("١٢"));
}

#[test]
fn a_list_is_decimal_where_each_of_its_texts_is() {
    assert!(are_decimal_texts(&Vec::new()));
    assert!(are_decimal_texts(&texts(&["3", "5"])));
    assert!(!are_decimal_texts(&texts(&["3", ""])));
    assert!(!are_decimal_texts(&texts(&["x", "5"])));
}

#[test]
fn base_name_is_what_follows_the_last_separator() {
    assert_eq!(base_name_of("./test-vectors/circom/multiplier2_final.zkey"), "multiplier2_final.zkey");
    assert_eq!(base_name_of("multiplier2_final.zkey"), "multiplier2_final.zkey");
    assert_eq!(base_name_of("/keccak.zkey"), "keccak.zkey");
    assert_eq!(base_name_of("a/b/"), "");
    assert_eq!(base_name_of("/"), "");
    assert_eq!(base_name_of(""), "");
    assert_eq!(base_name_of("schlüssel/größe.zkey"), "größe.zkey");
    assert_eq!(base_name_of("a\\b.zkey"), "a\\b.zkey");
}

// ---------------------------------------------------------------------------
// The envelope.

#[test]
fn envelope_opens_to_what_was_sealed() {
    let cases: [(Vec<u8>, Vec<String>); 4] = [
        (Vec::new(), Vec::new()),
        (vec![1, 2, 3], Vec::new()),
        (Vec::new(), texts(&["0"])),
        (
            vec![0, 8, 0, 0, 0, 0, 0, 0, 0, 255],
            texts(&["6", "21888242871839275222246405745257275088548364400416034343698204186575808495617"]),
        ),
    ];
    for (points, public) in cases {
        let envelope = seal(&points, &public);
        assert_eq!(open(&envelope), Some((points, public)));
    }
}

#[test]
fn envelope_is_a_row_of_frames() {
    let envelope = seal(&[7, 9], &texts(&["55"]));
    assert_eq!(envelope, vec![2, 0, 0, 0, 0, 0, 0, 0, 7, 9, 2, 0, 0, 0, 0, 0, 0, 0, 53, 53]);
    let long = seal(&vec![1u8; 300], &Vec::new());
    assert_eq!(long.len(), 308);
    assert_eq!(&long[..8], &[44, 1, 0, 0, 0, 0, 0, 0]);
    assert_eq!(open(&long), Some((vec![1u8; 300], Vec::new())));
}

#[test]
fn bytes_that_are_no_envelope_do_not_open() {
    // no frame at all
    assert_eq!(open(&[]), None);
    // a header that is cut short
    assert_eq!(open(&[2, 0, 0, 0]), None);
    // an item that is cut short
    assert_eq!(open(&[2, 0, 0, 0, 0, 0, 0, 0, 7]), None);
    // a length that no envelope can hold
    assert_eq!(open(&[255, 255, 255, 255, 255, 255, 255, 255, 7]), None);
    // bytes left over after the last frame
    assert_eq!(open(&[1, 0, 0, 0, 0, 0, 0, 0, 7, 1]), None);
    // a public input that is empty
    assert_eq!(open(&[1, 0, 0, 0, 0, 0, 0, 0, 7, 0, 0, 0, 0, 0, 0, 0, 0]), None);
    // a public input that is no decimal text
    assert_eq!(open(&[1, 0, 0, 0, 0, 0, 0, 0, 7, 1, 0, 0, 0, 0, 0, 0, 0, b'x']), None);
    assert_eq!(open(&[1, 0, 0, 0, 0, 0, 0, 0, 7, 2, 0, 0, 0, 0, 0, 0, 0, b'1', b'/']), None);
    assert_eq!(open(&[1, 0, 0, 0, 0, 0, 0, 0, 7, 2, 0, 0, 0, 0, 0, 0, 0, b':', b'1']), None);
    // the same with a digit in its place
    assert_eq!(
        open(&[1, 0, 0, 0, 0, 0, 0, 0, 7, 2, 0, 0, 0, 0, 0, 0, 0, b'9', b'0']),
        Some((vec![7], texts(&["90"])))
    );
}

// ---------------------------------------------------------------------------
// The registry.

#[test]
fn registry_resolves_what_was_registered() {
    let mut builder: RegistryBuilder<u32> = RegistryBuilder::new();
    assert_eq!(builder.register(text("a.zkey"), ProofSystemKind::ArithmeticCircuit, 1), Ok(()));
    assert_eq!(builder.register(text("b_pk.bin"), ProofSystemKind::PolynomialIop, 2), Ok(()));
    assert_eq!(builder.register(text("c.json"), ProofSystemKind::UniversalCircuit, 3), Ok(()));
    let registry = builder.build();
    assert_eq!(registry.len(), 3);
    assert!(registry.contains("a.zkey"));
    assert!(!registry.contains("A.zkey"));
    assert_eq!(registry.resolve("a.zkey"), Ok((ProofSystemKind::ArithmeticCircuit, &1)));
    assert_eq!(registry.resolve("b_pk.bin"), Ok((ProofSystemKind::PolynomialIop, &2)));
    assert_eq!(registry.resolve("c.json"), Ok((ProofSystemKind::UniversalCircuit, &3)));
    assert_eq!(registry.resolve("d.json"), Err(ErrorKind::UnknownCircuit));
    assert_eq!(registry.resolve(""), Err(ErrorKind::UnknownCircuit));
}

#[test]
fn empty_registry_knows_no_circuit() {
    let registry = RegistryBuilder::<u32>::new().build();
    assert_eq!(registry.len(), 0);
    assert!(!registry.contains("a.zkey"));
    assert_eq!(registry.resolve("a.zkey"), Err(ErrorKind::UnknownCircuit));
}

#[test]
fn second_registration_of_a_handle_is_refused() {
    let mut builder: RegistryBuilder<u32> = RegistryBuilder::new();
    builder.register(text("a.zkey"), ProofSystemKind::ArithmeticCircuit, 1).unwrap();
    assert_eq!(
        builder.register(text("a.zkey"), ProofSystemKind::PolynomialIop, 2),
        Err(RegistrationError::DuplicateHandle)
    );
    assert_eq!(
        builder.register(text("a.zkey"), ProofSystemKind::ArithmeticCircuit, 1),
        Err(RegistrationError::DuplicateHandle)
    );
    builder.register(text("b.zkey"), ProofSystemKind::ArithmeticCircuit, 4).unwrap();
    let registry = builder.build();
    assert_eq!(registry.len(), 2);
    assert_eq!(registry.resolve("a.zkey"), Ok((ProofSystemKind::ArithmeticCircuit, &1)));
    assert_eq!(registry.resolve("b.zkey"), Ok((ProofSystemKind::ArithmeticCircuit, &4)));
}

// ---------------------------------------------------------------------------
// The dispatcher.

fn small_dispatcher(adapters: Adapters) -> Dispatcher<u32> {
    let mut builder: RegistryBuilder<u32> = RegistryBuilder::new();
    builder.register(text("a.zkey"), ProofSystemKind::ArithmeticCircuit, 1).unwrap();
    builder.register(text("b_pk.bin"), ProofSystemKind::PolynomialIop, 2).unwrap();
    builder.register(text("c.json"), ProofSystemKind::UniversalCircuit, 3).unwrap();
    Dispatcher::new(builder.build(), adapters)
}

#[test]
fn request_is_routed_by_the_base_name_of_its_path() {
    let dispatcher = small_dispatcher(EVERYTHING);
    let route = dispatcher.route("./keys/a.zkey").unwrap();
    assert_eq!(route.handle, "a.zkey");
    assert_eq!(route.kind, ProofSystemKind::ArithmeticCircuit);
    assert_eq!(*route.capability, 1);
    let route = dispatcher.route("b_pk.bin").unwrap();
    assert_eq!(route.kind, ProofSystemKind::PolynomialIop);
    assert_eq!(*route.capability, 2);
    let route = dispatcher.route("/x/y/c.json").unwrap();
    assert_eq!(route.kind, ProofSystemKind::UniversalCircuit);
    assert_eq!(*route.capability, 3);
}

#[test]
fn unregistered_handle_fails_with_unknown_circuit() {
    let dispatcher = small_dispatcher(EVERYTHING);
    assert_eq!(dispatcher.route("./keys/d.zkey").err(), Some(ErrorKind::UnknownCircuit));
    assert_eq!(dispatcher.route("./a.zkey/").err(), Some(ErrorKind::UnknownCircuit));
    assert_eq!(dispatcher.route("").err(), Some(ErrorKind::UnknownCircuit));
    let nothing = small_dispatcher(Adapters {
        arkworks: false,
        rapidsnark: false,
        polynomial_iop: false,
        universal_circuit: false,
    });
    assert_eq!(nothing.route("d.zkey").err(), Some(ErrorKind::UnknownCircuit));
    assert_eq!(
        nothing.route_as(ProofSystemKind::PolynomialIop, "d.zkey").err(),
        Some(ErrorKind::UnknownCircuit)
    );
}

#[test]
fn absent_adapter_fails_and_never_falls_back() {
    let dispatcher = small_dispatcher(Adapters {
        arkworks: false,
        rapidsnark: false,
        polynomial_iop: true,
        universal_circuit: true,
    });
    assert_eq!(dispatcher.route("a.zkey").err(), Some(ErrorKind::AdapterUnavailable));
    assert_eq!(
        dispatcher.route_as(ProofSystemKind::ArithmeticCircuit, "a.zkey").err(),
        Some(ErrorKind::AdapterUnavailable)
    );
    assert_eq!(
        dispatcher.route_as(ProofSystemKind::PolynomialIop, "a.zkey").err(),
        Some(ErrorKind::UnknownCircuit)
    );
    assert!(dispatcher.route("b_pk.bin").is_ok());
}

#[test]
fn adapters_know_what_is_linked() {
    let adapters = Adapters {
        arkworks: false,
        rapidsnark: true,
        polynomial_iop: false,
        universal_circuit: true,
    };
    assert!(adapters.has(ProofSystemKind::ArithmeticCircuit));
    assert!(!adapters.has(ProofSystemKind::PolynomialIop));
    assert!(adapters.has(ProofSystemKind::UniversalCircuit));
    assert!(!adapters.has_lib(ProofLib::Arkworks));
    assert!(adapters.has_lib(ProofLib::Rapidsnark));
    let none = Adapters {
        arkworks: false,
        rapidsnark: false,
        polynomial_iop: true,
        universal_circuit: false,
    };
    assert!(!none.has(ProofSystemKind::ArithmeticCircuit));
    assert!(none.has(ProofSystemKind::PolynomialIop));
    assert!(!none.has(ProofSystemKind::UniversalCircuit));
}

// ---------------------------------------------------------------------------
// Circuit inputs.

#[test]
fn inputs_map_each_name_to_its_values() {
    let mut inputs = CircuitInputs::new();
    assert_eq!(inputs.len(), 0);
    assert_eq!(inputs.insert(text("out"), texts(&["55"])), Ok(()));
    assert_eq!(inputs.insert(text("in"), texts(&["1", "1"])), Ok(()));
    assert_eq!(inputs.insert(text("none"), Vec::new()), Ok(()));
    assert_eq!(inputs.len(), 3);
    assert_eq!(inputs.get("out"), Some(&texts(&["55"])));
    assert_eq!(inputs.get("in"), Some(&texts(&["1", "1"])));
    assert_eq!(inputs.get("none"), Some(&Vec::new()));
    assert_eq!(inputs.get("other"), None);
    let (name, values) = inputs.signal(1).unwrap();
    assert_eq!(name, "in");
    assert_eq!(values, &texts(&["1", "1"]));
    assert_eq!(inputs.signal(3), None);
}

#[test]
fn later_values_replace_earlier_ones() {
    let mut inputs = CircuitInputs::new();
    inputs.insert(text("out"), texts(&["55"])).unwrap();
    inputs.insert(text("in"), texts(&["1"])).unwrap();
    inputs.insert(text("out"), texts(&["89", "144"])).unwrap();
    assert_eq!(inputs.len(), 2);
    assert_eq!(inputs.get("out"), Some(&texts(&["89", "144"])));
    assert_eq!(inputs.get("in"), Some(&texts(&["1"])));
}

#[test]
fn values_that_are_not_decimal_are_refused() {
    let mut inputs = CircuitInputs::new();
    inputs.insert(text("out"), texts(&["55"])).unwrap();
    assert_eq!(
        inputs.insert(text("out"), texts(&["55", "0x37"])),
        Err(ErrorKind::WitnessComputationError)
    );
    assert_eq!(inputs.insert(text("in"), texts(&[""])), Err(ErrorKind::WitnessComputationError));
    assert_eq!(inputs.len(), 1);
    assert_eq!(inputs.get("out"), Some(&texts(&["55"])));
    assert_eq!(inputs.get("in"), None);
}

#[test]
fn entries_build_up_inputs_in_their_order() {
    let entries = vec![
        (text("a"), texts(&["2"])),
        (text("b"), texts(&["3"])),
        (text("a"), texts(&["4", "5"])),
    ];
    let inputs = CircuitInputs::from_entries(entries).unwrap();
    assert_eq!(inputs.len(), 2);
    assert_eq!(inputs.get("a"), Some(&texts(&["4", "5"])));
    assert_eq!(inputs.get("b"), Some(&texts(&["3"])));
    let empty = CircuitInputs::from_entries(Vec::new()).unwrap();
    assert_eq!(empty.len(), 0);
    let refused =
        CircuitInputs::from_entries(vec![(text("a"), texts(&["2"])), (text("b"), texts(&["x"]))]);
    assert_eq!(refused.err(), Some(ErrorKind::WitnessComputationError));
}

#[test]
fn inputs_are_read_out_of_json() {
    let inputs = CircuitInputs::parse("{\"a\": [\"2\"], \"b\": [\"3\", \"44\"]}").unwrap();
    assert_eq!(inputs.len(), 2);
    assert_eq!(inputs.get("a"), Some(&texts(&["2"])));
    assert_eq!(inputs.get("b"), Some(&texts(&["3", "44"])));
    let empty = CircuitInputs::parse("{}").unwrap();
    assert_eq!(empty.len(), 0);
}

#[test]
fn json_members_that_are_no_lists_of_strings_are_passed_over() {
    let inputs = CircuitInputs::parse("{\"a\": 2, \"b\": 3}").unwrap();
    assert_eq!(inputs.len(), 0);
    let inputs = CircuitInputs::parse("{\"a\": [\"2\", 3, \"4\"], \"b\": \"5\"}").unwrap();
    assert_eq!(inputs.len(), 1);
    assert_eq!(inputs.get("a"), Some(&texts(&["2", "4"])));
    let inputs = CircuitInputs::parse("[\"1\", \"2\"]").unwrap();
    assert_eq!(inputs.len(), 0);
}

#[test]
fn malformed_json_is_refused() {
    let refused = |json: &str| CircuitInputs::parse(json).err();
    assert_eq!(refused(""), Some(ErrorKind::WitnessComputationError));
    assert_eq!(refused("{\"a\": [\"2\""), Some(ErrorKind::WitnessComputationError));
    assert_eq!(refused("a: 2"), Some(ErrorKind::WitnessComputationError));
    assert_eq!(refused("{\"a\": [\"-2\"]}"), Some(ErrorKind::WitnessComputationError));
    assert_eq!(refused("{\"a\": [\"2\"], \"b\": [\"\"]}"), Some(ErrorKind::WitnessComputationError));
}

// ---------------------------------------------------------------------------
// The lifecycle.

#[test]
fn generation_goes_through_its_phases() {
    let mut life = Lifecycle::generation();
    assert_eq!(life.flow(), Flow::Generation);
    assert_eq!(life.phase(), Phase::Idle);
    assert!(!life.is_over());
    assert_eq!(life.completion(), None);
    assert_eq!(life.advance(Event::Start), Action::LoadArtifact);
    assert_eq!(life.phase(), Phase::ArtifactLoading);
    assert_eq!(life.advance(Event::ArtifactLoaded), Action::PrepareInputs);
    assert_eq!(life.phase(), Phase::WitnessOrInputPreparation);
    assert_eq!(life.advance(Event::InputsPrepared), Action::Prove);
    assert_eq!(life.phase(), Phase::Proving);
    assert_eq!(life.completion(), None);
    assert_eq!(life.advance(Event::ProofProduced), Action::Deliver);
    assert_eq!(life.phase(), Phase::ProofReady);
    assert!(life.is_over());
    assert_eq!(life.completion(), Some(Ok(())));
    assert_eq!(life.verdict(), None);
}

#[test]
fn verification_ends_valid_or_invalid() {
    let mut life = Lifecycle::verification();
    assert_eq!(life.flow(), Flow::Verification);
    assert_eq!(life.advance(Event::Start), Action::LoadArtifact);
    assert_eq!(life.advance(Event::ArtifactLoaded), Action::Check);
    assert_eq!(life.phase(), Phase::Verifying);
    assert_eq!(life.verdict(), None);
    assert_eq!(life.advance(Event::Accepted), Action::Deliver);
    assert_eq!(life.phase(), Phase::Valid);
    assert_eq!(life.verdict(), Some(Ok(true)));

    let mut life = Lifecycle::verification();
    life.advance(Event::Start);
    life.advance(Event::ArtifactLoaded);
    assert_eq!(life.advance(Event::Rejected), Action::Deliver);
    assert_eq!(life.phase(), Phase::Invalid);
    assert!(life.is_over());
    assert_eq!(life.verdict(), Some(Ok(false)));
    assert_eq!(life.completion(), None);
}

#[test]
fn fault_ends_the_run_with_the_failure_as_reported() {
    let kinds = [
        ErrorKind::UnknownCircuit,
        ErrorKind::ArtifactNotFound,
        ErrorKind::ArtifactCorrupt,
        ErrorKind::WitnessComputationError,
        ErrorKind::ProofMalformed,
        ErrorKind::VerificationArtifactMismatch,
        ErrorKind::BackendInternalError,
        ErrorKind::AdapterUnavailable,
    ];
    for kind in kinds {
        let mut life = Lifecycle::generation();
        assert_eq!(life.advance(Event::Fault(kind)), Action::Abort);
        assert_eq!(life.phase(), Phase::Failed(kind));
        assert_eq!(life.completion(), Some(Err(kind)));

        let mut life = Lifecycle::verification();
        life.advance(Event::Start);
        life.advance(Event::ArtifactLoaded);
        assert_eq!(life.advance(Event::Fault(kind)), Action::Abort);
        assert_eq!(life.verdict(), Some(Err(kind)));
        assert!(life.is_over());
    }
}

#[test]
fn ended_run_stays_where_it_is() {
    let mut life = Lifecycle::verification();
    life.advance(Event::Start);
    life.advance(Event::ArtifactLoaded);
    life.advance(Event::Fault(ErrorKind::VerificationArtifactMismatch));
    assert_eq!(life.advance(Event::Accepted), Action::Abort);
    assert_eq!(life.advance(Event::Start), Action::Abort);
    assert_eq!(life.verdict(), Some(Err(ErrorKind::VerificationArtifactMismatch)));

    let mut life = Lifecycle::verification();
    life.advance(Event::Start);
    life.advance(Event::ArtifactLoaded);
    life.advance(Event::Rejected);
    assert_eq!(life.advance(Event::Accepted), Action::Deliver);
    assert_eq!(life.advance(Event::Fault(ErrorKind::ArtifactCorrupt)), Action::Deliver);
    assert_eq!(life.verdict(), Some(Ok(false)));

    let mut life = Lifecycle::generation();
    for event in [Event::Start, Event::ArtifactLoaded, Event::InputsPrepared, Event::ProofProduced]
    {
        life.advance(event);
    }
    assert_eq!(life.advance(Event::Fault(ErrorKind::ArtifactCorrupt)), Action::Deliver);
    assert_eq!(life.phase(), Phase::ProofReady);
}

#[test]
fn event_out_of_order_fails_the_run() {
    let mut life = Lifecycle::generation();
    assert_eq!(life.advance(Event::ArtifactLoaded), Action::Abort);
    assert_eq!(life.phase(), Phase::Failed(ErrorKind::BackendInternalError));

    let mut life = Lifecycle::generation();
    life.advance(Event::Start);
    life.advance(Event::ArtifactLoaded);
    assert_eq!(life.advance(Event::Accepted), Action::Abort);
    assert_eq!(life.completion(), Some(Err(ErrorKind::BackendInternalError)));

    let mut life = Lifecycle::verification();
    life.advance(Event::Start);
    assert_eq!(life.advance(Event::Accepted), Action::Abort);
    assert_eq!(life.verdict(), Some(Err(ErrorKind::BackendInternalError)));

    let mut life = Lifecycle::verification();
    life.advance(Event::Start);
    life.advance(Event::ArtifactLoaded);
    assert_eq!(life.advance(Event::ProofProduced), Action::Abort);
    assert_eq!(life.verdict(), Some(Err(ErrorKind::BackendInternalError)));
}

// ---------------------------------------------------------------------------
// Failures and settings.

#[test]
fn each_failure_has_its_name() {
    assert_eq!(ErrorKind::UnknownCircuit.name(), "UnknownCircuit");
    assert_eq!(ErrorKind::ArtifactNotFound.name(), "ArtifactNotFound");
    assert_eq!(ErrorKind::ArtifactCorrupt.name(), "ArtifactCorrupt");
    assert_eq!(ErrorKind::WitnessComputationError.name(), "WitnessComputationError");
    assert_eq!(ErrorKind::ProofMalformed.name(), "ProofMalformed");
    assert_eq!(ErrorKind::VerificationArtifactMismatch.name(), "VerificationArtifactMismatch");
    assert_eq!(ErrorKind::BackendInternalError.name(), "BackendInternalError");
    assert_eq!(ErrorKind::AdapterUnavailable.name(), "AdapterUnavailable");
}

#[test]
fn proofs_share_a_layout_where_the_transcripts_agree() {
    let on_chain = NoirSettings { on_chain_mode: true, low_memory_mode: false };
    let on_chain_low = NoirSettings { on_chain_mode: true, low_memory_mode: true };
    let off_chain = NoirSettings { on_chain_mode: false, low_memory_mode: false };
    assert!(on_chain.has_same_layout(&on_chain_low));
    assert!(on_chain_low.has_same_layout(&on_chain));
    assert!(!on_chain.has_same_layout(&off_chain));
    assert!(off_chain.has_same_layout(&off_chain));
}

#[test]
fn derived_key_fills_a_request_that_came_without_one() {
    let dispatcher = small_dispatcher(EVERYTHING);
    let request = prepare_noir_proof(
        &dispatcher,
        "./circuits/c.json",
        Some(text("./circuits/c.srs")),
        texts(&["3", "5"]),
        true,
        VerificationKey::OnDemand,
        false,
    )
    .unwrap();
    assert_eq!(request.handle, "c.json");
    assert_eq!(request.circuit_path, "./circuits/c.json");
    assert_eq!(request.srs_path, Some(text("./circuits/c.srs")));
    assert_eq!(request.inputs, texts(&["3", "5"]));
    assert_eq!(request.settings, NoirSettings { on_chain_mode: true, low_memory_mode: false });
    assert!(request.needs_key());
    let request = request.with_key(vec![7, 8]);
    assert!(!request.needs_key());
    assert!(matches!(&request.key, VerificationKey::Supplied(key) if *key == vec![7, 8]));
    let request = request.with_key(vec![9]);
    assert!(matches!(&request.key, VerificationKey::Supplied(key) if *key == vec![7, 8]));
}

#[test]
fn supplied_key_is_kept_in_a_verification() {
    let dispatcher = small_dispatcher(EVERYTHING);
    let request = prepare_noir_verification(
        &dispatcher,
        "c.json",
        vec![1, 2, 3],
        false,
        VerificationKey::Supplied(vec![4]),
        true,
    )
    .unwrap();
    assert_eq!(request.handle, "c.json");
    assert_eq!(request.proof, vec![1, 2, 3]);
    assert_eq!(request.settings, NoirSettings { on_chain_mode: false, low_memory_mode: true });
    assert!(!request.needs_key());
    let request = request.with_key(vec![5]);
    assert!(matches!(&request.key, VerificationKey::Supplied(key) if *key == vec![4]));

    let request = prepare_noir_verification(
        &dispatcher,
        "c.json",
        vec![1, 2, 3],
        false,
        VerificationKey::OnDemand,
        true,
    )
    .unwrap();
    assert!(request.needs_key());
    let request = request.with_key(vec![5]);
    assert!(matches!(&request.key, VerificationKey::Supplied(key) if *key == vec![5]));
}
