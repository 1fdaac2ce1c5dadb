//! Error taxonomy of the library.
//!
//! Failures to acquire the underlying memory region are reported by the
//! caller that performs the mapping; the library itself only signals the
//! kinds below.
use vstd::prelude::*;

verus! {

/// What a library operation can reject.
#[derive(Debug, Clone, Copy, PartialEq, Eq, Structural)]
pub enum MemError {
    /// A poke size outside {1, 2, 4, 8}.
    InvalidSize,
    /// A requested size of 0 where the operation needs a positive size.
    EmptyRange,
    /// A malformed numeric literal or size suffix.
    Parse,
}

impl MemError {
    /// A short description, for callers that report failures as text.
    pub fn describe(&self) -> (r: &'static str)
        ensures
            self is InvalidSize ==> r@ == "invalid size, please input --help to get usage"@,
            self is EmptyRange ==> r@ == "size must be positive"@,
            self is Parse ==> r@ == "malformed numeric literal"@,
    {
        match self {
            MemError::InvalidSize => "invalid size, please input --help to get usage",
            MemError::EmptyRange => "size must be positive",
            MemError::Parse => "malformed numeric literal",
        }
    }
}

} // verus!
