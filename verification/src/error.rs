//! The one way in which an access to the board can fail.

use vstd::prelude::*;

verus! {

/// Why a square could not be read.
#[derive(Clone, Copy, Debug, PartialEq, Eq, Structural)]
pub enum BoardError {
    /// The row or the column lies outside `1..=3`.
    OutOfRange,
}

impl BoardError {
    /// A short text for the error.
    pub fn message(&self) -> (s: &'static str)
        ensures
            s@ == "Out of range"@,
    {
        match self {
            BoardError::OutOfRange => "Out of range",
        }
    }
}

} // verus!
