use vstd::prelude::*;

verus! {

/// The ways in which building or parsing a chunk can fail.
///
/// Parsing never corrects or defaults a bad record: every failure is
/// reported to the caller as one of these values.
#[derive(Clone, Copy, Debug, PartialEq, Eq, Structural)]
pub enum ChunkError {
    /// The four tag bytes are not all ASCII letters, or the reserved
    /// (third) byte is lowercase.
    InvalidTag,
    /// The buffer ends before the record it declares is complete.
    Truncated,
    /// The stored checksum disagrees with the checksum recomputed from
    /// the type tag and the payload.
    CrcMismatch,
    /// The payload bytes are not valid UTF-8 text.
    NotUtf8,
}

} // verus!
