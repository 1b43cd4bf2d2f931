//! A single-tape Turing machine: a tape that grows on demand in both
//! directions, and an engine that runs a transition table on it.
pub mod machine;
pub mod tape;

pub use machine::{MachineError, TuringMachine};
pub use tape::{Move, Tape};
