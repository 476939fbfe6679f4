use vstd::prelude::*;

verus! {

/// Why a pick session stopped short.
#[derive(Debug, Clone, PartialEq, Eq)]
pub enum PickError {
    /// The current branch is not `<prefix><ticket><suffix>`.
    InvalidBranchFormat,
    /// The named branch does not exist in the repository.
    BranchNotFound(String),
    /// The version-control tool failed or gave output that could not be used.
    ExternalToolFailure,
    /// An event came that the session was not waiting for.
    UnexpectedEvent,
}

} // verus!
