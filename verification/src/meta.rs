//! Dot-command dispatch. No meta command is implemented in this scope, so
//! every input is unrecognised.

use vstd::prelude::*;

verus! {

/// Failure to dispatch a dot-command.
#[derive(Debug, PartialEq, Eq)]
pub enum MetaHandleError {
    UnrecognisedCommand,
}

/// Dispatches a dot-command; with none implemented, every input fails.
pub fn handle(_input: &[u8]) -> (r: Result<(), MetaHandleError>)
    ensures
        r == Err::<(), MetaHandleError>(MetaHandleError::UnrecognisedCommand),
{
    Err(MetaHandleError::UnrecognisedCommand)
}

} // verus!
