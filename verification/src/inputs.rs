//! Circuit inputs: a mapping from signal name to a list of decimal field
//! elements, checked at the boundary before any adapter sees it.

use vstd::prelude::*;
use crate::error::ErrorKind;
use crate::text::{all_decimal, are_decimal_texts, texts};

verus! {

/// One signal of a circuit with the field elements assigned to it.
pub struct Signal {
    pub name: String,
    pub values: Vec<String>,
}

/// An assignment of field elements to signal names.
pub type Assignment = Map<Seq<char>, Seq<Seq<char>>>;

/// True where every field element of `assignment` is written in decimal.
pub open spec fn valid_assignment(assignment: Assignment) -> bool {
    forall|name: Seq<char>| #[trigger]
        assignment.contains_key(name) ==> all_decimal(assignment[name])
}

/// True where no two signals of `signals` share a name.
pub open spec fn distinct_names(signals: Seq<Signal>) -> bool {
    forall|i: int, j: int|
        0 <= i < j < signals.len() ==> (#[trigger] signals[i]).name@ != (
        #[trigger] signals[j]).name@
}

/// True where `name` is the name of one of `signals`.
pub open spec fn named(signals: Seq<Signal>, name: Seq<char>) -> bool {
    exists|i: int| 0 <= i < signals.len() && (#[trigger] signals[i]).name@ == name
}

/// The place of the signal called `name` among `signals`.
pub open spec fn index_of(signals: Seq<Signal>, name: Seq<char>) -> int {
    choose|i: int| 0 <= i < signals.len() && (#[trigger] signals[i]).name@ == name
}

/// The assignment that a list of signals stands for.
pub open spec fn assignment_of(signals: Seq<Signal>) -> Assignment {
    Map::new(
        |name: Seq<char>| named(signals, name),
        |name: Seq<char>| texts(signals[index_of(signals, name)].values@),
    )
}

/// With distinct names, the signal at place `i` is what its name maps to.
pub proof fn lemma_assignment_at(signals: Seq<Signal>, i: int)
    requires
        distinct_names(signals),
        0 <= i < signals.len(),
    ensures
        assignment_of(signals).contains_key(signals[i].name@),
        assignment_of(signals)[signals[i].name@] == texts(signals[i].values@),
        index_of(signals, signals[i].name@) == i,
{
    let name = signals[i].name@;
    assert(named(signals, name));
    let at = index_of(signals, name);
    assert(0 <= at < signals.len() && signals[at].name@ == name);
    if at < i {
        assert(signals[at].name@ != signals[i].name@);
    } else if i < at {
        assert(signals[i].name@ != signals[at].name@);
    }
}

/// A signal under a new name adds one pair to the assignment.
pub proof fn lemma_assignment_push(signals: Seq<Signal>, signal: Signal)
    requires
        distinct_names(signals),
        !named(signals, signal.name@),
    ensures
        distinct_names(signals.push(signal)),
        assignment_of(signals.push(signal)) == assignment_of(signals).insert(
            signal.name@,
            texts(signal.values@),
        ),
{
    let more = signals.push(signal);
    assert forall|i: int, j: int| 0 <= i < j < more.len() implies (#[trigger] more[i]).name@ != (
    #[trigger] more[j]).name@ by {
        if j == signals.len() {
            assert(more[i] == signals[i]);
        } else {
            assert(more[i] == signals[i] && more[j] == signals[j]);
        }
    }
    let grown = assignment_of(signals).insert(signal.name@, texts(signal.values@));
    assert forall|name: Seq<char>| assignment_of(more).contains_key(name) implies #[trigger]
    grown.contains_key(name) by {
        let at = index_of(more, name);
        if at < signals.len() {
            assert(more[at] == signals[at]);
        }
    }
    assert forall|name: Seq<char>| #[trigger] grown.contains_key(name) implies assignment_of(
        more,
    ).contains_key(name) && assignment_of(more)[name] == grown[name] by {
        if name == signal.name@ {
            assert(more[signals.len() as int] == signal);
            lemma_assignment_at(more, signals.len() as int);
        } else {
            let at = index_of(signals, name);
            assert(more[at] == signals[at]);
            lemma_assignment_at(signals, at);
            lemma_assignment_at(more, at);
        }
    }
    assert(assignment_of(more) =~= grown);
}

/// A signal put in the place of one with the same name replaces that pair.
pub proof fn lemma_assignment_update(signals: Seq<Signal>, i: int, signal: Signal)
    requires
        distinct_names(signals),
        0 <= i < signals.len(),
        signals[i].name@ == signal.name@,
    ensures
        distinct_names(signals.update(i, signal)),
        assignment_of(signals.update(i, signal)) == assignment_of(signals).insert(
            signal.name@,
            texts(signal.values@),
        ),
{
    let changed = signals.update(i, signal);
    assert forall|a: int, b: int| 0 <= a < b < changed.len() implies (
    #[trigger] changed[a]).name@ != (#[trigger] changed[b]).name@ by {
        assert(changed[a].name@ == signals[a].name@);
        assert(changed[b].name@ == signals[b].name@);
    }
    let grown = assignment_of(signals).insert(signal.name@, texts(signal.values@));
    assert forall|name: Seq<char>| assignment_of(changed).contains_key(name) implies #[trigger]
    grown.contains_key(name) by {
        let at = index_of(changed, name);
        assert(changed[at].name@ == signals[at].name@);
    }
    assert forall|name: Seq<char>| #[trigger] grown.contains_key(name) implies assignment_of(
        changed,
    ).contains_key(name) && assignment_of(changed)[name] == grown[name] by {
        if name == signal.name@ {
            assert(changed[i] == signal);
            lemma_assignment_at(changed, i);
        } else {
            let at = index_of(signals, name);
            assert(changed[at] == signals[at]);
            lemma_assignment_at(signals, at);
            lemma_assignment_at(changed, at);
        }
    }
    assert(assignment_of(changed) =~= grown);
}

/// The named lists of a request as plain values.
pub open spec fn plain(entries: Seq<(String, Vec<String>)>) -> Seq<(Seq<char>, Seq<Seq<char>>)> {
    Seq::new(entries.len(), |i: int| (entries[i].0@, texts(entries[i].1@)))
}

/// The assignment that a list of entries builds up, one after the other: where
/// a name comes twice, its later list stands.
pub open spec fn entries_assignment(entries: Seq<(Seq<char>, Seq<Seq<char>>)>) -> Assignment
    decreases entries.len(),
{
    if entries.len() == 0 {
        Map::empty()
    } else {
        entries_assignment(entries.drop_last()).insert(entries.last().0, entries.last().1)
    }
}

/// True where every field element of every entry is written in decimal.
pub open spec fn entries_decimal(entries: Seq<(Seq<char>, Seq<Seq<char>>)>) -> bool {
    forall|i: int| 0 <= i < entries.len() ==> all_decimal((#[trigger] entries[i]).1)
}

/// True where `entries` holds each pair of `assignment` once and nothing else.
pub open spec fn lists(entries: Seq<(Seq<char>, Seq<Seq<char>>)>, assignment: Assignment) -> bool {
    &&& forall|i: int, j: int|
        0 <= i < j < entries.len() ==> (#[trigger] entries[i]).0 != (#[trigger] entries[j]).0
    &&& forall|i: int|
        0 <= i < entries.len() ==> assignment.contains_key((#[trigger] entries[i]).0)
            && assignment[entries[i].0] == entries[i].1
    &&& forall|name: Seq<char>| #[trigger]
        assignment.contains_key(name) ==> exists|i: int|
            0 <= i < entries.len() && (#[trigger] entries[i]).0 == name
}

/// What entries with distinct names build up: each name maps to its own list,
/// and no other name is in the assignment.
pub proof fn lemma_entries_assignment(entries: Seq<(Seq<char>, Seq<Seq<char>>)>)
    requires
        forall|i: int, j: int|
            0 <= i < j < entries.len() ==> (#[trigger] entries[i]).0 != (#[trigger] entries[j]).0,
    ensures
        forall|i: int|
            0 <= i < entries.len() ==> entries_assignment(entries).contains_key(
                (#[trigger] entries[i]).0,
            ) && entries_assignment(entries)[entries[i].0] == entries[i].1,
        forall|name: Seq<char>| #[trigger]
            entries_assignment(entries).contains_key(name) ==> exists|i: int|
                0 <= i < entries.len() && (#[trigger] entries[i]).0 == name,
    decreases entries.len(),
{
    if entries.len() > 0 {
        let front = entries.drop_last();
        assert forall|i: int, j: int| 0 <= i < j < front.len() implies (#[trigger] front[i]).0 != (
        #[trigger] front[j]).0 by {
            assert(front[i] == entries[i] && front[j] == entries[j]);
        }
        lemma_entries_assignment(front);
        assert forall|i: int| 0 <= i < entries.len() implies entries_assignment(
            entries,
        ).contains_key((#[trigger] entries[i]).0) && entries_assignment(entries)[entries[i].0]
            == entries[i].1 by {
            if i < front.len() {
                assert(front[i] == entries[i]);
                assert(entries[i].0 != entries[entries.len() - 1].0);
            }
        }
        assert forall|name: Seq<char>| #[trigger]
            entries_assignment(entries).contains_key(name) implies exists|i: int|
            0 <= i < entries.len() && (#[trigger] entries[i]).0 == name by {
            if name == entries.last().0 {
                assert(entries[entries.len() - 1].0 == name);
            } else {
                assert(entries_assignment(front).contains_key(name));
                let i = choose|i: int| 0 <= i < front.len() && (#[trigger] front[i]).0 == name;
                assert(entries[i].0 == name);
            }
        }
    }
}

/// Entries that list an assignment build up that very assignment.
pub proof fn lemma_listed_assignment(
    entries: Seq<(Seq<char>, Seq<Seq<char>>)>,
    assignment: Assignment,
)
    requires
        lists(entries, assignment),
    ensures
        entries_assignment(entries) == assignment,
        entries_decimal(entries) == valid_assignment(assignment),
{
    lemma_entries_assignment(entries);
    assert(entries_assignment(entries) =~= assignment);
    if valid_assignment(assignment) {
        assert forall|i: int| 0 <= i < entries.len() implies all_decimal(
            (#[trigger] entries[i]).1,
        ) by {
            assert(assignment.contains_key(entries[i].0));
        }
    }
    if entries_decimal(entries) {
        assert forall|name: Seq<char>| #[trigger]
            assignment.contains_key(name) implies all_decimal(assignment[name]) by {
            let i = choose|i: int| 0 <= i < entries.len() && (#[trigger] entries[i]).0 == name;
            assert(all_decimal(entries[i].1));
        }
    }
}

#[verifier::external_type_specification]
#[verifier::external_body]
pub struct ExJsonError(serde_json::Error);

/// What `circom_prover::witness::json_to_hashmap` reads out of a JSON text: the
/// assignment it holds, or nothing where the text is no JSON. The prover reads
/// its inputs with this function, so the library reads them with it too. It
/// keeps the members of the top-level object that are lists, and of each list
/// the elements that are strings; what else the text holds it passes over.
pub uninterp spec fn parsed_inputs(json: Seq<char>) -> Option<Map<Seq<char>, Seq<Seq<char>>>>;

/// Calls `circom_prover::witness::json_to_hashmap` and hands its pairs out as a
/// list. The call fails exactly where the text is no JSON; where it succeeds,
/// the list holds each pair of the assignment once, in no promised order.
#[verifier::external_body]
fn json_entries(json: &str) -> (parsed: Result<Vec<(String, Vec<String>)>, serde_json::Error>)
    ensures
        match parsed {
            Ok(entries) => parsed_inputs(json@) is Some && lists(
                plain(entries@),
                parsed_inputs(json@)->Some_0,
            ),
            Err(_) => parsed_inputs(json@) is None,
        },
{
    match circom_prover::witness::json_to_hashmap(json) {
        Ok(map) => Ok(map.into_iter().collect()),
        Err(error) => Err(error),
    }
}

/// True where `json` is JSON and every field element read out of it is decimal.
pub open spec fn acceptable_json(json: Seq<char>) -> bool {
    parsed_inputs(json) is Some && valid_assignment(parsed_inputs(json)->Some_0)
}

/// Checked circuit inputs: each signal name once, each field element in decimal.
pub struct CircuitInputs {
    signals: Vec<Signal>,
}

/// Looks for the signal called `name`.
fn find(signals: &Vec<Signal>, name: &str) -> (place: Option<usize>)
    requires
        distinct_names(signals@),
    ensures
        match place {
            Some(i) => i < signals.len() && signals[i as int].name@ == name@,
            None => !named(signals@, name@),
        },
{
    let wanted = name.to_string();
    let mut i: usize = 0;
    while i < signals.len()
        invariant
            i <= signals.len(),
            wanted@ == name@,
            forall|k: int| 0 <= k < i ==> (#[trigger] signals@[k]).name@ != name@,
        decreases signals.len() - i,
    {
        if signals[i].name == wanted {
            return Some(i);
        }
        i = i + 1;
    }
    None
}

impl CircuitInputs {
    #[verifier::type_invariant]
    spec fn well_formed(self) -> bool {
        &&& distinct_names(self.signals@)
        &&& forall|i: int|
            0 <= i < self.signals.len() ==> all_decimal(
                texts((#[trigger] self.signals[i]).values@),
            )
    }

    /// The inputs as an assignment of field elements to signal names.
    pub closed spec fn view(&self) -> Assignment {
        assignment_of(self.signals@)
    }

    /// The number of signals.
    pub closed spec fn count(&self) -> nat {
        self.signals.len() as nat
    }

    /// The name of the signal at place `i`.
    pub closed spec fn name_at(&self, i: int) -> Seq<char> {
        self.signals[i].name@
    }

    /// Inputs that assign nothing.
    pub fn new() -> (inputs: Self)
        ensures
            inputs@ == Assignment::empty(),
            inputs.count() == 0,
    {
        let inputs = CircuitInputs { signals: Vec::new() };
        assert(inputs@ =~= Assignment::empty());
        inputs
    }

    /// Assigns `values` to the signal `name`, in place of what it had. Values that
    /// are not all decimal field elements are refused, and the inputs then stay
    /// as they were.
    pub fn insert(&mut self, name: String, values: Vec<String>) -> (done: Result<(), ErrorKind>)
        ensures
            all_decimal(texts(values@)) ==> done is Ok && final(self)@ == old(self)@.insert(
                name@,
                texts(values@),
            ),
            !all_decimal(texts(values@)) ==> done == Err::<(), ErrorKind>(
                ErrorKind::WitnessComputationError,
            ) && final(self)@ == old(self)@ && final(self).count() == old(self).count(),
    {
        proof {
            use_type_invariant(&*self);
        }
        if !are_decimal_texts(&values) {
            return Err(ErrorKind::WitnessComputationError);
        }
        let place = find(&self.signals, name.as_str());
        let signal = Signal { name, values };
        let mut signals: Vec<Signal> = Vec::new();
        std::mem::swap(&mut self.signals, &mut signals);
        match place {
            Some(i) => {
                proof {
                    lemma_assignment_update(signals@, i as int, signal);
                }
                signals.set(i, signal);
            },
            None => {
                proof {
                    lemma_assignment_push(signals@, signal);
                }
                signals.push(signal);
            },
        }
        std::mem::swap(&mut self.signals, &mut signals);
        Ok(())
    }

    /// The number of signals that have values.
    pub fn len(&self) -> (n: usize)
        ensures
            n == self.count(),
    {
        self.signals.len()
    }

    /// The field elements assigned to `name`, if any.
    pub fn get(&self, name: &str) -> (values: Option<&Vec<String>>)
        ensures
            match values {
                Some(list) => self@.contains_key(name@) && self@[name@] == texts(list@),
                None => !self@.contains_key(name@),
            },
    {
        proof {
            use_type_invariant(self);
        }
        match find(&self.signals, name) {
            Some(i) => {
                proof {
                    lemma_assignment_at(self.signals@, i as int);
                }
                Some(&self.signals[i].values)
            },
            None => None,
        }
    }

    /// The signal at place `i`, for a host that walks the inputs: the places
    /// below `len` hold each name of the assignment once, and above them there
    /// is nothing.
    pub fn signal(&self, i: usize) -> (signal: Option<(&String, &Vec<String>)>)
        ensures
            match signal {
                Some((name, values)) => {
                    &&& i < self.count()
                    &&& name@ == self.name_at(i as int)
                    &&& self@.contains_key(name@)
                    &&& self@[name@] == texts(values@)
                    &&& all_decimal(texts(values@))
                },
                None => i >= self.count(),
            },
    {
        proof {
            use_type_invariant(self);
        }
        if i < self.signals.len() {
            proof {
                lemma_assignment_at(self.signals@, i as int);
            }
            Some((&self.signals[i].name, &self.signals[i].values))
        } else {
            None
        }
    }

    /// Builds inputs from named lists, one after the other as `insert` would.
    /// One value that is no decimal field element refuses them all.
    pub fn from_entries(entries: Vec<(String, Vec<String>)>) -> (made: Result<Self, ErrorKind>)
        ensures
            entries_decimal(plain(entries@)) ==> made is Ok && made->Ok_0@ == entries_assignment(
                plain(entries@),
            ),
            !entries_decimal(plain(entries@)) ==> made is Err && made->Err_0
                == ErrorKind::WitnessComputationError,
    {
        let ghost all = plain(entries@);
        let mut inputs = CircuitInputs::new();
        assert(all.take(0) =~= Seq::empty());
        for entry in it: entries.into_iter()
            invariant
                it.seq() == entries@,
                all == plain(entries@),
                inputs@ == entries_assignment(all.take(it.index() as int)),
                entries_decimal(all.take(it.index() as int)),
        {
            let ghost done = it.index() as int;
            let (name, values) = entry;
            proof {
                assert(all[done] == (name@, texts(values@)));
                assert(all.take(done + 1).drop_last() =~= all.take(done));
                assert(all.take(done + 1).last() == all[done]);
            }
            match inputs.insert(name, values) {
                Ok(()) => {
                    proof {
                        assert forall|i: int| 0 <= i < done + 1 implies all_decimal(
                            (#[trigger] all.take(done + 1)[i]).1,
                        ) by {
                            if i < done {
                                assert(all.take(done)[i] == all.take(done + 1)[i]);
                            }
                        }
                    }
                },
                Err(kind) => {
                    assert(!all_decimal(all[done].1));
                    return Err(kind);
                },
            }
        }
        proof {
            assert(all.take(all.len() as int) =~= all);
        }
        Ok(inputs)
    }

    /// Reads inputs out of a JSON text. A text that is no JSON, or that holds a
    /// field element that is not decimal, is refused as malformed.
    pub fn parse(json: &str) -> (made: Result<Self, ErrorKind>)
        ensures
            acceptable_json(json@) ==> made is Ok && made->Ok_0@ == parsed_inputs(json@)->Some_0,
            !acceptable_json(json@) ==> made is Err && made->Err_0
                == ErrorKind::WitnessComputationError,
    {
        match json_entries(json) {
            Ok(entries) => {
                proof {
                    lemma_listed_assignment(plain(entries@), parsed_inputs(json@)->Some_0);
                }
                CircuitInputs::from_entries(entries)
            },
            Err(_) => Err(ErrorKind::WitnessComputationError),
        }
    }
}

} // verus!
