//! The ways in which interpreting a word or a group of words fails.

use vstd::prelude::*;

verus! {

/// Why a word, or a group of words, was not read as a number.
#[derive(Debug, Clone, Copy, PartialEq, Eq, Structural)]
pub enum Error {
    /// The word has no numeral meaning where it stands.
    NotANumber,
    /// The word belongs to a number in progress but does not close it.
    Incomplete,
    /// A write met positions that are already committed.
    Overlap,
    /// A write came out of the descending order of magnitudes.
    Inconsistent,
}

impl Error {
    /// Tells whether more words of the same group may still lead to a number.
    /// Every other error ends the group at once.
    pub fn leaves_group_open(&self) -> (open: bool)
        ensures
            open == (*self == Error::Incomplete),
    {
        match self {
            Error::Incomplete => true,
            _ => false,
        }
    }
}

} // verus!
