//! Error conditions of the grid operations. A failed call never corrupts a
//! grid: every fallible operation leaves the previous state untouched when
//! it returns an error.

use vstd::prelude::*;

verus! {

/// Why a grid operation was rejected.
#[derive(Clone, Copy, Debug, PartialEq, Eq, Structural)]
pub enum GridError {
    /// An unknown pattern name was passed to the pattern generator.
    InvalidArgument,
    /// A zero width or zero height was passed to a sizing operation;
    /// index and neighbor computations are undefined on an empty
    /// dimension, so the size is rejected before any grid access.
    DomainError,
}

} // verus!
