use vstd::prelude::*;

verus! {

/// Outcome of a scope or operation.
#[derive(Debug, Copy, Clone, PartialEq, Eq, Structural)]
pub enum Outcome {
    /// The scope completed successfully.
    Success,
    /// The scope failed.
    Failure,
    /// The scope was aborted (e.g., dropped without explicit exit).
    Aborted,
}

} // verus!
