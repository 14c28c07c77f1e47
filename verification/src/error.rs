//! The ways in which an operation on a universe can fail.

use vstd::prelude::*;

verus! {

/// Why an operation on a universe was refused. A refused operation leaves
/// the universe as it was.
#[derive(Clone, Copy, Debug, PartialEq, Eq, Structural)]
pub enum GridError {
    /// A coordinate names no cell of the grid.
    OutOfRange,
    /// The requested dimensions give more cells than a universe can hold.
    AllocationFailure,
}

} // verus!
