//! The ways in which decoding or repairing a spell code can fail.

use vstd::prelude::*;

verus! {

/// Why a spell code could not be decoded, or could not be repaired.
#[derive(Clone, Copy, Debug, PartialEq, Eq, Structural)]
pub enum Error {
    /// The code holds a character that is not in the alphabet of its format;
    /// the character is the first such one.
    UnsupportedSymbol(char),
    /// The code packs into a buffer whose stored checksum is not the computed one.
    InvalidChecksum,
    /// A field of the record lies beyond the end of the buffer, or the code
    /// has a length that its format does not allow.
    MalformedRecord,
    /// No single substitution turns the code into one that decodes, validates
    /// and meets the constraints.
    RecoveryFailed,
}

} // verus!
