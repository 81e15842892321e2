//! The editor's settings that the interpreter consults while it runs.
use vstd::prelude::*;

verus! {

/// What a cursor does when an instruction fails.
#[derive(Clone, Copy, Debug, PartialEq, Eq)]
pub enum InvalidOperationBehaviour {
    /// Turn around and move on.
    Reflect,
    /// Stop the program and report the error.
    Halt,
    /// Carry on as if nothing happened.
    Ignore,
}

/// Run-time settings.
#[derive(Clone, Copy, Debug)]
pub struct Settings {
    /// Record which way cursors leave each cell.
    pub pos_history: bool,
    /// Record when cells were read with `g`.
    pub get_history: bool,
    /// Record when cells were written with `p`.
    pub put_history: bool,
    /// Let a cursor glide over spaces within one tick.
    pub skip_spaces: bool,
    /// Let input instructions read -1 from an empty buffer, in place of
    /// waiting for input.
    pub non_blocking_input: bool,
    pub invalid_operation_behaviour: InvalidOperationBehaviour,
}

} // verus!
