use vstd::prelude::*;

verus! {

/// Why a query failed: the input string broke the length/character contract
/// of the operation, or a well-formed key simply has no entry.
#[derive(Clone, Copy, Debug, PartialEq, Eq, Structural)]
pub enum JPostError {
    InvalidFormat,
    NotFound,
}

} // verus!
