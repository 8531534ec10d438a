//! Error kinds shared by the decoder and the state machine.
use vstd::prelude::*;

verus! {

/// Every way an instruction can be refused; each cause has its own kind.
#[derive(Clone, Copy, Debug, PartialEq, Eq, Structural)]
pub enum ColabioError {
    /// The payload is empty, truncated, or holds a string that is not UTF-8.
    MalformedInstruction,
    /// The leading tag byte names no instruction.
    UnknownInstruction,
    /// The account that must sign did not.
    MissingSignature,
    /// The project is not in a status that admits the operation.
    InvalidState,
    /// The caller is not the project's creator.
    NotOwner,
    /// The milestone index is past the end of the milestone list.
    IndexOutOfRange,
    /// The milestone has not reached its validation quorum.
    MilestoneNotComplete,
}

} // verus!
