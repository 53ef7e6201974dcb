//! Failure taxonomy of the codec.

use vstd::prelude::*;

verus! {

/// Every codec operation reports failure through one of these variants.
///
/// `MessageTooLarge` is encode-time only; both of its fields are counted in
/// bits, matching the unit used for reasoning about the embedded bit stream.
/// `NoMessageFound` and `InvalidLength` are decode-time only. `Utf8` is raised
/// only by the string-decoding convenience wrapper.
#[derive(Clone, Copy, Debug, PartialEq, Eq, Structural)]
pub enum StegError {
    /// The payload plus the 6-byte header does not fit in the carrier image.
    MessageTooLarge { needed: usize, capacity: usize },
    /// The extracted bit stream is too short for a header, or the magic
    /// marker does not match.
    NoMessageFound,
    /// The magic matched but the decoded length field implies a payload
    /// extending past the available bits.
    InvalidLength,
    /// The frame was structurally valid but its payload is not valid UTF-8.
    Utf8,
}

} // verus!
