use indexmap::IndexMap;
use turing_machine::{MachineError, Move, Tape, TuringMachine};

type Table = IndexMap<String, IndexMap<String, (String, Move, String)>>;

fn s(x: &str) -> String {
    x.to_string()
}

fn table(rules: &[(&str, &str, &str, Move, &str)]) -> Table {
    let mut t: Table = IndexMap::new();
    for (state, read, write, dir, next) in rules.iter() {
        t.entry(s(state))
            .or_insert_with(IndexMap::new)
            .insert(s(read), (s(write), *dir, s(next)));
    }
    t
}

fn blank_tape() -> Tape {
    Tape::new(vec![], s("0"), vec![])
}

fn flipper() -> Table {
    table(&[
        ("A", "0", "1", Move::R, "A"),
        ("A", "1", "0", Move::L, "HALT"),
    ])
}

fn busy_beaver_two() -> Table {
    table(&[
        ("A", "0", "1", Move::R, "B"),
        ("A", "1", "1", Move::L, "B"),
        ("B", "0", "1", Move::L, "A"),
        ("B", "1", "1", Move::R, "HALT"),
    ])
}

#[test]
fn new_machine_starts_at_zero_steps() {
    let m = TuringMachine::new(s("A"), flipper(), blank_tape());
    assert_eq!(m.steps(), 0);
    assert_eq!(m.state(), "A");
    assert!(!m.is_halted());
    assert_eq!(m.table().len(), 1);
}

#[test]
fn flipper_first_step_moves_right_and_writes_one() {
    let tape = Tape::new(vec![], s("0"), vec![s("1")]);
    let mut m = TuringMachine::new(s("A"), flipper(), tape);
    assert_eq!(m.step(), Ok(()));
    assert_eq!(m.state(), "A");
    assert_eq!(m.steps(), 1);
    assert_eq!(m.tape().left().iter().cloned().collect::<Vec<_>>(), vec![s("1")]);
    assert_eq!(m.tape().read(), "1");
}

#[test]
fn flipper_halts_after_two_steps() {
    let tape = Tape::new(vec![], s("0"), vec![s("1")]);
    let mut m = TuringMachine::new(s("A"), flipper(), tape);
    assert_eq!(m.step(), Ok(()));
    assert_eq!(m.step(), Ok(()));
    assert_eq!(m.state(), "HALT");
    assert!(m.is_halted());
    assert_eq!(m.steps(), 2);
    assert_eq!(m.tape().render(), "--[1]0---");
}

#[test]
fn halted_machine_steps_are_no_ops() {
    let mut m = TuringMachine::new(s("HALT"), flipper(), blank_tape());
    for _ in 0..3 {
        assert_eq!(m.step(), Ok(()));
    }
    assert_eq!(m.steps(), 0);
    assert_eq!(m.state(), "HALT");
    assert_eq!(m.tape().render(), "--[0]---");
}

#[test]
fn step_count_grows_by_one_per_step() {
    let mut m = TuringMachine::new(s("A"), busy_beaver_two(), blank_tape());
    for i in 1..=6 {
        assert_eq!(m.step(), Ok(()));
        assert_eq!(m.steps(), i);
    }
    assert!(m.is_halted());
    assert_eq!(m.step(), Ok(()));
    assert_eq!(m.steps(), 6);
}

#[test]
fn busy_beaver_two_states_runs_to_four_ones() {
    let mut m = TuringMachine::new(s("A"), busy_beaver_two(), blank_tape());
    assert_eq!(m.run(), Ok(()));
    assert_eq!(m.state(), "HALT");
    assert_eq!(m.steps(), 6);
    assert_eq!(m.count1s(), 4);
    assert_eq!(m.tape().render(), "---1-1[1]1---");
}

#[test]
fn non_halting_machine_stops_only_at_driver_bound() {
    let t = table(&[("A", "0", "0", Move::R, "A")]);
    let mut m = TuringMachine::new(s("A"), t, blank_tape());
    let bound = 100;
    while !m.is_halted() && m.steps() < bound {
        assert_eq!(m.step(), Ok(()));
    }
    assert_ne!(m.state(), "HALT");
    assert_eq!(m.steps(), 100);
    assert_eq!(m.tape().left().len(), 100);
}

#[test]
fn undefined_state_names_the_state() {
    let t = table(&[("A", "0", "1", Move::R, "B")]);
    let mut m = TuringMachine::new(s("A"), t, blank_tape());
    assert_eq!(m.step(), Ok(()));
    assert_eq!(m.step(), Err(MachineError::UndefinedState(s("B"))));
    assert_eq!(m.state(), "B");
    assert_eq!(m.steps(), 2);
}

#[test]
fn undefined_transition_names_state_and_symbol() {
    let t = table(&[("A", "0", "1", Move::R, "A")]);
    let tape = Tape::new(vec![], s("0"), vec![s("x")]);
    let mut m = TuringMachine::new(s("A"), t, tape);
    assert_eq!(m.step(), Ok(()));
    assert_eq!(
        m.step(),
        Err(MachineError::UndefinedTransition(s("A"), s("x")))
    );
    assert_eq!(m.tape().render(), "---1[x]---");
    assert_eq!(
        m.step(),
        Err(MachineError::UndefinedTransition(s("A"), s("x")))
    );
}

#[test]
fn undefined_transition_is_independent_of_other_cells() {
    let t = table(&[("A", "0", "1", Move::R, "A")]);
    let tape = Tape::new(vec![s("7"), s("8")], s("x"), vec![s("9")]);
    let mut m = TuringMachine::new(s("A"), t, tape);
    assert_eq!(
        m.step(),
        Err(MachineError::UndefinedTransition(s("A"), s("x")))
    );
}

#[test]
fn run_reports_missing_entry() {
    let t = table(&[("A", "0", "1", Move::R, "A")]);
    let tape = Tape::new(vec![], s("0"), vec![s("0"), s("2")]);
    let mut m = TuringMachine::new(s("A"), t, tape);
    assert_eq!(
        m.run(),
        Err(MachineError::UndefinedTransition(s("A"), s("2")))
    );
    assert_eq!(m.steps(), 3);
}

#[test]
fn run_stops_at_step_limit() {
    let t = table(&[("A", "0", "0", Move::N, "A")]);
    let mut m = TuringMachine::from_parts(usize::MAX - 2, s("A"), t, blank_tape());
    assert_eq!(m.run(), Err(MachineError::StepLimit));
    assert_eq!(m.steps(), usize::MAX);
    assert_eq!(m.state(), "A");
}

#[test]
fn resumed_machine_keeps_its_count() {
    let tape = Tape::new(vec![], s("0"), vec![s("1")]);
    let mut m = TuringMachine::from_parts(40, s("A"), flipper(), tape);
    assert_eq!(m.run(), Ok(()));
    assert_eq!(m.steps(), 42);
}
