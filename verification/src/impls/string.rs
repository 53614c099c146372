//! Encode + Decode for string types.

use crate::codec::{Decode, Encode, RoundTrip};
use crate::decoder::{BufDecoder, DecoderView};
use crate::encoder::BufEncoder;
use crate::error::DecodeError;
use crate::wire::{le_u32, lemma_u32_roundtrip};
use vstd::prelude::*;
use vstd::utf8::{decode_utf8, encode_utf8, valid_utf8};

verus! {

/// `core::str::from_utf8`: borrows `bytes` as a `&str` when they are valid
/// UTF-8, else gives `None` (the `Utf8Error` is dropped). Its documentation
/// says it fails exactly on invalid UTF-8 and otherwise returns the string
/// those bytes spell.
#[verifier::external_body]
pub(crate) fn str_from_utf8<'a>(bytes: &'a [u8]) -> (s: Option<&'a str>)
    ensures
        s is Some <==> valid_utf8(bytes@),
        s matches Some(t) ==> t@ == decode_utf8(bytes@),
{
    core::str::from_utf8(bytes).ok()
}

/// The wire form of a string: its UTF-8 byte count as a `u32` (cut to 32
/// bits), then the UTF-8 bytes.
pub open spec fn string_encoding(chars: Seq<char>) -> Seq<u8> {
    le_u32(encode_utf8(chars).len() as u32) + encode_utf8(chars)
}

// ── String ────────────────────────────────────────────────────────────────

impl Encode for String {
    /// The UTF-8 byte length must fit in the `u32` prefix.
    open spec fn encodable(&self) -> bool {
        encode_utf8(self@).len() <= u32::MAX
    }

    /// Wire layout: `u32` byte length, then raw UTF-8 bytes.
    open spec fn encoding(&self) -> Seq<u8> {
        string_encoding(self@)
    }

    fn encode(&self, enc: &mut BufEncoder) {
        let b = self.as_str().as_bytes();
        enc.write_u32(b.len() as u32);
        enc.write_bytes(b);
        assert(enc@ =~= old(enc)@ + string_encoding(self@));
    }
}

impl Decode for String {
    open spec fn decodable() -> bool {
        true
    }

    /// A byte length above the decoder's collection limit is
    /// `CollectionTooLarge`; bytes that are not UTF-8 are `InvalidUtf8`.
    open spec fn decode_outcome(d: DecoderView) -> Result<DecoderView, DecodeError> {
        match d.read_u32() {
            Err(e) => Err(e),
            Ok((len, d1)) => if len > d1.limit {
                Err(DecodeError::CollectionTooLarge { len, limit: d1.limit })
            } else {
                match d1.read_bytes(len as int) {
                    Err(e) => Err(e),
                    Ok((b, d2)) => if valid_utf8(b) {
                        Ok(d2)
                    } else {
                        Err(DecodeError::InvalidUtf8)
                    },
                }
            },
        }
    }

    open spec fn decodes_as(d: DecoderView, v: String) -> bool {
        match d.read_u32() {
            Ok((len, d1)) => match d1.read_bytes(len as int) {
                Ok((b, _)) => v@ == decode_utf8(b),
                Err(_) => false,
            },
            Err(_) => false,
        }
    }

    fn decode(dec: &mut BufDecoder<'_>) -> (r: Result<String, DecodeError>) {
        let len = match dec.read_u32() {
            Ok(n) => n,
            Err(e) => {
                return Err(e);
            },
        };
        let limit = dec.collection_limit();
        if len > limit {
            return Err(DecodeError::CollectionTooLarge { len, limit });
        }
        let bytes = match dec.read_bytes(len as usize) {
            Ok(b) => b,
            Err(e) => {
                return Err(e);
            },
        };
        match str_from_utf8(bytes) {
            Some(s) => Ok(s.to_owned()),
            None => Err(DecodeError::InvalidUtf8),
        }
    }
}

impl RoundTrip for String {
    open spec fn same_value(self, other: String) -> bool {
        self@ == other@
    }

    proof fn lemma_decodes_unique(d: DecoderView, x: String, y: String) {
    }

    /// The UTF-8 byte length must be within the collection limit.
    open spec fn fits(&self, depth: u32, limit: u32) -> bool {
        encode_utf8(self@).len() <= limit
    }

    proof fn lemma_roundtrip(v: String, d: DecoderView) {
        let bytes = encode_utf8(v@);
        let n = bytes.len() as u32;
        d.lemma_held_split(le_u32(n), bytes);
        d.lemma_read_held(le_u32(n));
        lemma_u32_roundtrip(n);
        d.advance(4).lemma_read_held(bytes);
        vstd::utf8::encode_utf8_valid_utf8(v@);
        vstd::utf8::encode_utf8_decode_utf8(v@);
        assert(d.advance(4).advance(bytes.len() as int) == d.advance(v.encoding().len() as int));
    }
}

// ── str (encode only) ─────────────────────────────────────────────────────

impl Encode for str {
    /// Any string slice can be written; its byte length is cut to 32 bits.
    open spec fn encodable(&self) -> bool {
        true
    }

    /// Same wire layout as `String`.
    ///
    /// Decoding a `&str` is not provided here: use [`crate::ZeroBuf`]
    /// to borrow directly from the source buffer without allocating.
    open spec fn encoding(&self) -> Seq<u8> {
        string_encoding(self@)
    }

    fn encode(&self, enc: &mut BufEncoder) {
        let b = self.as_bytes();
        enc.write_u32(b.len() as u32);
        enc.write_bytes(b);
        assert(enc@ =~= old(enc)@ + string_encoding(self@));
    }
}

impl<'a> Encode for &'a str {
    open spec fn encodable(&self) -> bool {
        true
    }

    open spec fn encoding(&self) -> Seq<u8> {
        string_encoding(self@)
    }

    fn encode(&self, enc: &mut BufEncoder) {
        (**self).encode(enc);
    }
}

} // verus!
