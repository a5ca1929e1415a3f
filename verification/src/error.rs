//! The kinds of failure that callers can tell apart.

use vstd::prelude::*;

verus! {

/// The error type of `std::io`, in which the decoders report their failures.
/// Nothing is known of what a value of it holds.
#[verifier::external_type_specification]
#[verifier::external_body]
pub struct ExIoError(std::io::Error);

/// Why an operation was abandoned.
#[derive(Clone, Copy, Debug, PartialEq, Eq, Structural)]
pub enum DeltaError {
    /// The delta is malformed, corrupt or cut short.
    PatchFormat,
    /// The delta reads bytes that lie outside the original content.
    OutOfRange,
    /// The rebuilt content is longer than the storage prepared for it.
    SizeExceeded,
    /// A view over the file could not be established or flushed.
    Mapping,
    /// The compressed stream is malformed.
    Decompression,
    /// Resizing, reading or writing the file failed.
    Io,
}

impl DeltaError {
    /// The text that describes the failure to a person.
    pub open spec fn message_text(self) -> Seq<char> {
        match self {
            DeltaError::PatchFormat => "Patch is malformed"@,
            DeltaError::OutOfRange => "Patch reads outside the source"@,
            DeltaError::SizeExceeded => "Patch exceeds mapped file size"@,
            DeltaError::Mapping => "Failed to map source"@,
            DeltaError::Decompression => "Compressed stream is malformed"@,
            DeltaError::Io => "File operation failed"@,
        }
    }

    /// Describes the failure in a few words.
    pub fn message(self) -> (text: &'static str)
        ensures
            text@ == self.message_text(),
    {
        match self {
            DeltaError::PatchFormat => "Patch is malformed",
            DeltaError::OutOfRange => "Patch reads outside the source",
            DeltaError::SizeExceeded => "Patch exceeds mapped file size",
            DeltaError::Mapping => "Failed to map source",
            DeltaError::Decompression => "Compressed stream is malformed",
            DeltaError::Io => "File operation failed",
        }
    }
}

} // verus!
