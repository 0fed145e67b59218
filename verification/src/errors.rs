//! Errors for user input handled around the engine: a line that could not
//! be read, a bet that is not a number, a keyword that is no command. The
//! engine itself never produces these; the input layer maps its own failures
//! onto them.

use vstd::prelude::*;

verus! {

#[derive(Debug, Clone, Copy, PartialEq, Eq, Structural)]
pub enum CliError {
    IoError,
    ParseError,
    InvalidCommand,
}

} // verus!
