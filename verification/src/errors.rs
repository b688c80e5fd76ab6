use vstd::prelude::*;

verus! {

/// Errors surfaced by the numeric core.
///
/// Market conditions (an infeasible direction, an empty book) are never
/// errors: they yield zero/empty results. Only malformed snapshots and
/// arithmetic that would exceed the fixed-width integer range fail loudly.
#[derive(Clone, Copy, Debug, PartialEq, Eq, Structural)]
pub enum CoreError {
    /// A snapshot or configuration field is out of its documented domain
    /// (non-positive price, zero sqrt-price, fee rate at or above 100%, ...).
    InvalidInput,
    /// An exact intermediate result does not fit the integer range used by
    /// the core; treated like a malformed input, never silently truncated.
    Overflow,
}

} // verus!
