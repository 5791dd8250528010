//! Failures the container codec can report.

use vstd::prelude::*;

verus! {

/// The broad class a failure belongs to.
#[derive(Clone, Copy, Debug, PartialEq, Eq, Structural)]
pub enum ErrorKind {
    /// The key does not have the length the cipher needs.
    Key,
    /// A constant header field does not hold a value this codec understands.
    Format,
    /// The buffer ends before a fixed or declared field does.
    Truncated,
    /// The caller asked for one key id and the header names another.
    KeyIdMismatch,
    /// The cipher did not accept the tag.
    Authentication,
    /// A payload is longer than a 32-bit length field can declare.
    Oversize,
}

/// A failure of encoding or decoding, with the field or check that caused it.
#[derive(Clone, Copy, Debug, PartialEq, Eq, Structural)]
pub enum CodecError {
    /// The key is not exactly 32 bytes long.
    InvalidKeyLength,
    /// The first eight bytes are not the format's magic.
    BadMagic,
    /// The version byte, carried here, is not the supported one.
    UnsupportedVersion(u8),
    /// The cipher id byte, carried here, names no supported suite.
    UnsupportedCipher(u8),
    /// The buffer is shorter than its fixed or declared fields need.
    TruncatedInput,
    /// The header's key id is not the one the caller expects.
    KeyIdMismatch { expected: u16, found: u16 },
    /// Tag verification failed: the data was altered, or the key is wrong.
    AuthenticationFailed,
    /// The plaintext or the associated data does not fit a 32-bit length.
    PayloadTooLarge,
}

impl CodecError {
    /// The class of this failure.
    pub open spec fn spec_kind(self) -> ErrorKind {
        match self {
            CodecError::InvalidKeyLength => ErrorKind::Key,
            CodecError::BadMagic => ErrorKind::Format,
            CodecError::UnsupportedVersion(_) => ErrorKind::Format,
            CodecError::UnsupportedCipher(_) => ErrorKind::Format,
            CodecError::TruncatedInput => ErrorKind::Truncated,
            CodecError::KeyIdMismatch { .. } => ErrorKind::KeyIdMismatch,
            CodecError::AuthenticationFailed => ErrorKind::Authentication,
            CodecError::PayloadTooLarge => ErrorKind::Oversize,
        }
    }

    /// The class of this failure.
    #[verifier::when_used_as_spec(spec_kind)]
    pub fn kind(self) -> (k: ErrorKind)
        ensures
            k == self.spec_kind(),
    {
        match self {
            CodecError::InvalidKeyLength => ErrorKind::Key,
            CodecError::BadMagic => ErrorKind::Format,
            CodecError::UnsupportedVersion(_) => ErrorKind::Format,
            CodecError::UnsupportedCipher(_) => ErrorKind::Format,
            CodecError::TruncatedInput => ErrorKind::Truncated,
            CodecError::KeyIdMismatch { .. } => ErrorKind::KeyIdMismatch,
            CodecError::AuthenticationFailed => ErrorKind::Authentication,
            CodecError::PayloadTooLarge => ErrorKind::Oversize,
        }
    }
}

} // verus!
