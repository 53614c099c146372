//! Decode-time error types.
//!
//! Encoding is infallible by design: a well-formed value can always be
//! written to a byte buffer. Decoding operates on untrusted input, so every
//! read is checked and surfaces a typed error instead of panicking.

use vstd::prelude::*;

verus! {

/// Every way a decode operation can fail.
#[non_exhaustive]
#[derive(Debug, Clone, PartialEq, Eq, Structural)]
pub enum DecodeError {
    /// The buffer ran out of bytes before the value was fully decoded.
    UnexpectedEof {
        /// How many bytes the decoder needed.
        needed: usize,
        /// How many bytes were still available.
        remaining: usize,
    },
    /// A `bool` field (or an `Option` tag) held a byte other than `0x00` or `0x01`.
    InvalidBool(u8),
    /// A `char` field held a value that is not a valid Unicode scalar.
    InvalidChar(u32),
    /// A `String` or `&str` field contained invalid UTF-8.
    InvalidUtf8,
    /// A length prefix exceeded the configured safety limit.
    ///
    /// Prevents adversarial input from triggering multi-gigabyte allocations.
    CollectionTooLarge {
        /// The length read from the wire.
        len: u32,
        /// The limit that was enforced.
        limit: u32,
    },
    /// An enum variant index had no matching variant in the type.
    UnknownVariant(u32),
    /// Collections were nested deeper than the decoder allows.
    NestingTooDeep,
}

} // verus!
