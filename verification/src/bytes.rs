//! Errors of conversions between values and their byte representations.
use vstd::prelude::*;

verus! {

/// Error raised when a byte slice handed to a conversion is too small.
#[derive(Debug, Copy, Clone, PartialEq, Eq, Structural)]
pub enum ByteConversionError {
    /// The target slice of a serialization is too small.
    ToSliceTooSmall { found: usize, expected: usize },
    /// The source slice of a deserialization is too small.
    FromSliceTooSmall { found: usize, expected: usize },
}

} // verus!
