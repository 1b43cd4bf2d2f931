use crate::tape::{one, Move, Tape, TapeModel};
use indexmap::IndexMap;
use vstd::prelude::*;

verus! {

#[verifier::external_type_specification]
#[verifier::external_body]
#[verifier::reject_recursive_types(K)]
#[verifier::reject_recursive_types(V)]
#[verifier::reject_recursive_types(S)]
pub struct ExIndexMap<K, V, S>(IndexMap<K, V, S>);

/// What one row of a transition table holds: for each symbol, the symbol to
/// write, the move and the next state.
pub uninterp spec fn row_rules(row: IndexMap<String, (String, Move, String)>) -> Map<
    Seq<char>,
    (Seq<char>, Move, Seq<char>),
>;

/// What a transition table holds: for each state name, the rules of its row.
pub uninterp spec fn table_rows(
    table: IndexMap<String, IndexMap<String, (String, Move, String)>>,
) -> Map<Seq<char>, Map<Seq<char>, (Seq<char>, Move, Seq<char>)>>;

/// Relies on `IndexMap::get`: the row stored under the key equal to `state`,
/// if there is one.
#[verifier::external_body]
fn row_of<'a>(
    table: &'a IndexMap<String, IndexMap<String, (String, Move, String)>>,
    state: &String,
) -> (r: Option<&'a IndexMap<String, (String, Move, String)>>)
    ensures
        r.is_some() == table_rows(*table).contains_key(state@),
        r.is_some() ==> row_rules(*r.unwrap()) == table_rows(*table)[state@],
{
    table.get(state)
}

/// Relies on `IndexMap::get`: the rule stored under the key equal to `symbol`,
/// if there is one.
#[verifier::external_body]
fn rule_of<'a>(row: &'a IndexMap<String, (String, Move, String)>, symbol: &String) -> (r: Option<
    &'a (String, Move, String),
>)
    ensures
        r.is_some() == row_rules(*row).contains_key(symbol@),
        r.is_some() ==> row_rules(*row)[symbol@] == (r.unwrap().0@, r.unwrap().1, r.unwrap().2@),
{
    row.get(symbol)
}

/// The reserved name of the terminal state.
pub open spec fn halt() -> Seq<char> {
    seq!['H', 'A', 'L', 'T']
}

/// Why the engine could not go on.
pub enum Failure {
    UndefinedState(Seq<char>),
    UndefinedTransition(Seq<char>, Seq<char>),
    StepLimit,
}

/// The rule that `table` gives for `state` reading `symbol`, or the entry
/// that is missing.
pub open spec fn transition(
    table: Map<Seq<char>, Map<Seq<char>, (Seq<char>, Move, Seq<char>)>>,
    state: Seq<char>,
    symbol: Seq<char>,
) -> Result<(Seq<char>, Move, Seq<char>), Failure> {
    if !table.contains_key(state) {
        Err(Failure::UndefinedState(state))
    } else if !table[state].contains_key(symbol) {
        Err(Failure::UndefinedTransition(state, symbol))
    } else {
        Ok(table[state][symbol])
    }
}

/// The abstract machine.
pub struct MachineModel {
    pub steps: nat,
    pub state: Seq<char>,
    pub table: Map<Seq<char>, Map<Seq<char>, (Seq<char>, Move, Seq<char>)>>,
    pub tape: TapeModel,
}

impl MachineModel {
    pub open spec fn halted(self) -> bool {
        self.state == halt()
    }

    /// The missing table entry that stops the next step, if any.
    pub open spec fn fault(self) -> Option<Failure> {
        if self.halted() {
            None
        } else {
            match transition(self.table, self.state, self.tape.center) {
                Ok(_) => None,
                Err(f) => Some(f),
            }
        }
    }

    /// The machine after one step: nothing changes once halted; otherwise the
    /// step is counted, and the rule, where there is one, is applied.
    pub open spec fn next(self) -> MachineModel {
        if self.halted() {
            self
        } else {
            match transition(self.table, self.state, self.tape.center) {
                Ok(rule) => MachineModel {
                    steps: self.steps + 1,
                    state: rule.2,
                    tape: self.tape.written(rule.0).moved(rule.1),
                    ..self
                },
                Err(_) => MachineModel { steps: self.steps + 1, ..self },
            }
        }
    }

    /// The machine after `n` steps.
    pub open spec fn after(self, n: nat) -> MachineModel
        decreases n,
    {
        if n == 0 {
            self
        } else {
            self.after((n - 1) as nat).next()
        }
    }
}

/// Each step of a machine that has not halted adds exactly one to the step
/// count; once halted, no number of steps changes it.
pub proof fn lemma_step_count(m: MachineModel, n: nat)
    ensures
        !m.halted() ==> m.next().steps == m.steps + 1,
        m.halted() ==> m.after(n).steps == m.steps,
{
    if m.halted() {
        lemma_halted_stays(m, n);
    }
}

/// Once halted, any number of further steps leaves the state, the tape and
/// the step count as they are.
pub proof fn lemma_halted_stays(m: MachineModel, n: nat)
    requires
        m.halted(),
    ensures
        m.after(n) == m,
    decreases n,
{
    if n > 0 {
        lemma_halted_stays(m, (n - 1) as nat);
    }
}

/// A missing table entry stops the machine with a failure that names the
/// current state, and the symbol under the head where the state has a row; it
/// depends on nothing else on the tape, and the failing step leaves the machine
/// to fail the same way again.
pub proof fn lemma_fault_determined(m1: MachineModel, m2: MachineModel)
    requires
        m1.table == m2.table,
        m1.state == m2.state,
        m1.tape.center == m2.tape.center,
    ensures
        m1.fault() == m2.fault(),
        m1.fault() matches Some(f) ==> f == Failure::UndefinedState(m1.state) || f
            == Failure::UndefinedTransition(m1.state, m1.tape.center),
        m1.fault() is Some ==> m1.next().fault() == m1.fault(),
{
}

/// A missing table entry, or a step counter that cannot count further.
#[derive(Debug, PartialEq, Eq)]
pub enum MachineError {
    UndefinedState(String),
    UndefinedTransition(String, String),
    StepLimit,
}

impl View for MachineError {
    type V = Failure;

    open spec fn view(&self) -> Failure {
        match self {
            MachineError::UndefinedState(s) => Failure::UndefinedState(s@),
            MachineError::UndefinedTransition(s, c) => Failure::UndefinedTransition(s@, c@),
            MachineError::StepLimit => Failure::StepLimit,
        }
    }
}

/// A Turing machine: a transition table, the current state, a step counter
/// and a tape.
pub struct TuringMachine {
    steps: usize,
    state: String,
    table: IndexMap<String, IndexMap<String, (String, Move, String)>>,
    tape: Tape,
}

impl View for TuringMachine {
    type V = MachineModel;

    closed spec fn view(&self) -> MachineModel {
        MachineModel {
            steps: self.steps as nat,
            state: self.state@,
            table: table_rows(self.table),
            tape: self.tape@,
        }
    }
}

impl TuringMachine {
    /// A machine in `state` that has taken no step yet.
    pub fn new(
        state: String,
        table: IndexMap<String, IndexMap<String, (String, Move, String)>>,
        tape: Tape,
    ) -> (r: TuringMachine)
        ensures
            r@ == (MachineModel { steps: 0, state: state@, table: table_rows(table), tape: tape@ }),
    {
        TuringMachine { steps: 0, state, table, tape }
    }

    /// A machine resumed after `steps` steps.
    pub fn from_parts(
        steps: usize,
        state: String,
        table: IndexMap<String, IndexMap<String, (String, Move, String)>>,
        tape: Tape,
    ) -> (r: TuringMachine)
        ensures
            r@ == (MachineModel {
                steps: steps as nat,
                state: state@,
                table: table_rows(table),
                tape: tape@,
            }),
    {
        TuringMachine { steps, state, table, tape }
    }

    /// Number of steps taken.
    pub fn steps(&self) -> (r: usize)
        ensures
            r == self@.steps,
    {
        self.steps
    }

    /// The current state.
    pub fn state(&self) -> (r: &String)
        ensures
            r@ == self@.state,
    {
        &self.state
    }

    /// The transition table.
    pub fn table(&self) -> (r: &IndexMap<String, IndexMap<String, (String, Move, String)>>)
        ensures
            table_rows(*r) == self@.table,
    {
        &self.table
    }

    /// The tape.
    pub fn tape(&self) -> (r: &Tape)
        ensures
            r@ == self@.tape,
    {
        &self.tape
    }

    /// Whether the machine is in the terminal state.
    pub fn is_halted(&self) -> (r: bool)
        ensures
            r == self@.halted(),
    {
        proof {
            reveal_strlit("HALT");
        }
        let h = "HALT".to_owned();
        assert(h@ =~= halt());
        self.state == h
    }

    /// Number of ones on the tape.
    pub fn count1s(&mut self) -> (r: u128)
        ensures
            r == old(self)@.tape.census(one()),
            final(self)@ == old(self)@,
    {
        self.tape.count1s()
    }

    /// Take one step. Once halted this does nothing. Otherwise the step is
    /// counted, and the rule for the current state and the symbol under the
    /// head is applied; where the table has no such rule, the error names the
    /// missing entry and nothing else changes.
    pub fn step(&mut self) -> (r: Result<(), MachineError>)
        requires
            !old(self)@.halted() ==> old(self)@.steps < usize::MAX,
        ensures
            final(self)@ == old(self)@.next(),
            match r {
                Ok(()) => old(self)@.fault() is None,
                Err(e) => old(self)@.fault() == Some(e@),
            },
    {
        if self.is_halted() {
            return Ok(());
        }
        self.steps = self.steps + 1;
        let rule = match row_of(&self.table, &self.state) {
            None => {
                return Err(MachineError::UndefinedState(self.state.clone()));
            },
            Some(row) => match rule_of(row, self.tape.read()) {
                None => {
                    return Err(
                        MachineError::UndefinedTransition(
                            self.state.clone(),
                            self.tape.read().clone(),
                        ),
                    );
                },
                Some(rule) => rule,
            },
        };
        let write = rule.0.clone();
        let dir = rule.1;
        let next = rule.2.clone();
        self.tape.write(write);
        self.tape.mov(dir);
        self.state = next;
        Ok(())
    }

    /// Step until the machine halts. Returns the error of a step that found
    /// no rule, or `StepLimit` where the step counter cannot count further.
    pub fn run(&mut self) -> (r: Result<(), MachineError>)
        ensures
            exists|n: nat| final(self)@ == old(self)@.after(n),
            match r {
                Ok(()) => final(self)@.halted(),
                Err(e) => !final(self)@.halted() && (final(self)@.fault() == Some(e@) || (e@
                    == Failure::StepLimit && final(self)@.steps == usize::MAX)),
            },
    {
        let ghost start = self@;
        let ghost mut n: nat = 0;
        loop
            invariant
                start == old(self)@,
                self@ == start.after(n),
            decreases usize::MAX - self.steps,
        {
            if self.is_halted() {
                return Ok(());
            }
            if self.steps == usize::MAX {
                return Err(MachineError::StepLimit);
            }
            let r = self.step();
            proof {
                n = n + 1;
                assert(self@ == start.after(n));
            }
            match r {
                Ok(()) => {},
                Err(e) => {
                    return Err(e);
                },
            }
        }
    }
}

} // verus!
