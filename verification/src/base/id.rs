use vstd::prelude::*;

verus! {

/// Unique identifier for a scope in the journal.
#[derive(Copy, Clone, Debug, PartialEq, Eq, Hash, Structural)]
pub struct ScopeId(pub u64);

/// Unique identifier for a record in the journal.
#[derive(Copy, Clone, Debug, PartialEq, Eq, Hash, Structural)]
pub struct RecordId(pub u64);

/// The identifier that follows `n` when identifiers are handed out in
/// sequence; the counter wraps around at `u64::MAX` as an atomic `fetch_add` does.
pub open spec fn next_id(n: u64) -> u64 {
    if n == u64::MAX {
        0
    } else {
        (n + 1) as u64
    }
}

/// Advances an identifier counter by one, wrapping at `u64::MAX`.
pub fn advance_id(n: u64) -> (r: u64)
    ensures
        r == next_id(n),
{
    if n == u64::MAX {
        0
    } else {
        n + 1
    }
}

} // verus!
