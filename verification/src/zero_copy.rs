//! Zero-copy borrowing from the source buffer.
//!
//! [`ZeroBuf`] is a companion to [`crate::Decode`]. Where `Decode` always
//! produces owned values, `ZeroBuf` implementations borrow directly from
//! the byte slice the [`BufDecoder`] was created over: no allocation, no
//! copying.

use crate::codec::Encode;
use crate::decoder::{BufDecoder, DecoderView};
use crate::error::DecodeError;
use crate::impls::string::{str_from_utf8, string_encoding};
use crate::wire::{le_u32, lemma_u32_roundtrip};
use vstd::prelude::*;
use vstd::utf8::{decode_utf8, encode_utf8, valid_utf8};

verus! {

/// Decodes a value by borrowing bytes directly from the source buffer.
///
/// The lifetime `'buf` is tied to the buffer passed to
/// [`BufDecoder::new`], so the returned value cannot outlive the buffer.
pub trait ZeroBuf<'buf>: Sized {
    /// Whether the implementation states how it decodes. One that does not
    /// leaves this `false`, and verified code then makes no call of its
    /// `decode_borrowed`.
    open spec fn borrowable() -> bool {
        false
    }

    /// What decoding from the decoder state `d` leads to: the state after the
    /// value on success, or the error. Unknown unless the implementation
    /// states it.
    open spec fn borrow_outcome(d: DecoderView) -> Result<DecoderView, DecodeError> {
        arbitrary()
    }

    /// Whether `v` is the value that decoding from the state `d` produces.
    /// Never, unless the implementation states it.
    open spec fn borrows_as(d: DecoderView, v: Self) -> bool {
        false
    }

    /// Decodes by borrowing from the underlying buffer in `dec`.
    fn decode_borrowed(dec: &mut BufDecoder<'buf>) -> (r: Result<Self, DecodeError>)
        requires
            Self::borrowable(),
        ensures
            match Self::borrow_outcome(old(dec)@) {
                Ok(d) => r matches Ok(v) && final(dec)@ == d && Self::borrows_as(old(dec)@, v),
                Err(e) => r matches Err(e2) && e2 == e,
            },
            final(dec)@.buf == old(dec)@.buf,
            final(dec)@.limit == old(dec)@.limit,
    ;
}

/// The bytes of a length-prefixed run read from `d`, and the state after
/// them. A length above the decoder's collection limit is
/// `CollectionTooLarge`.
pub open spec fn read_prefixed(d: DecoderView) -> Result<(Seq<u8>, DecoderView), DecodeError> {
    match d.read_u32() {
        Err(e) => Err(e),
        Ok((n, d1)) => if n > d1.limit {
            Err(DecodeError::CollectionTooLarge { len: n, limit: d1.limit })
        } else {
            d1.read_bytes(n as int)
        },
    }
}

// ── &[u8] ─────────────────────────────────────────────────────────────────

impl<'buf> ZeroBuf<'buf> for &'buf [u8] {
    open spec fn borrowable() -> bool {
        true
    }

    /// A `u32` length prefix, within the collection limit, then that many bytes.
    open spec fn borrow_outcome(d: DecoderView) -> Result<DecoderView, DecodeError> {
        match read_prefixed(d) {
            Ok((_, d2)) => Ok(d2),
            Err(e) => Err(e),
        }
    }

    open spec fn borrows_as(d: DecoderView, v: &'buf [u8]) -> bool {
        read_prefixed(d) matches Ok((b, _)) && v@ == b
    }

    /// Reads a `u32` length prefix, then returns a slice of that many
    /// bytes pointing into the original buffer.
    fn decode_borrowed(dec: &mut BufDecoder<'buf>) -> (r: Result<&'buf [u8], DecodeError>) {
        let len = match dec.read_u32() {
            Ok(n) => n,
            Err(e) => {
                return Err(e);
            },
        };
        let limit = dec.collection_limit();
        if len > limit {
            return Err(DecodeError::CollectionTooLarge { len, limit });
        }
        dec.read_bytes(len as usize)
    }
}

// ── &str ──────────────────────────────────────────────────────────────────

impl<'buf> ZeroBuf<'buf> for &'buf str {
    open spec fn borrowable() -> bool {
        true
    }

    /// A `u32` byte-length prefix, within the collection limit, then that
    /// many bytes, which must be UTF-8.
    open spec fn borrow_outcome(d: DecoderView) -> Result<DecoderView, DecodeError> {
        match read_prefixed(d) {
            Ok((b, d2)) => if valid_utf8(b) {
                Ok(d2)
            } else {
                Err(DecodeError::InvalidUtf8)
            },
            Err(e) => Err(e),
        }
    }

    open spec fn borrows_as(d: DecoderView, v: &'buf str) -> bool {
        read_prefixed(d) matches Ok((b, _)) && v@ == decode_utf8(b)
    }

    /// Reads a `u32` byte-length prefix, then borrows the UTF-8 bytes
    /// directly from the buffer without copying.
    fn decode_borrowed(dec: &mut BufDecoder<'buf>) -> (r: Result<&'buf str, DecodeError>) {
        let bytes = match <&'buf [u8]>::decode_borrowed(dec) {
            Ok(b) => b,
            Err(e) => {
                return Err(e);
            },
        };
        match str_from_utf8(bytes) {
            Some(s) => Ok(s),
            None => Err(DecodeError::InvalidUtf8),
        }
    }
}

/// Borrowing a byte slice from where a `Vec<u8>` was encoded gives exactly
/// the vector's bytes, and moves past its encoding.
pub proof fn lemma_borrow_bytes_of_vec<'buf>(v: Vec<u8>, d: DecoderView)
    requires
        v.encodable(),
        v@.len() <= d.limit,
        d.holds_at_cursor(v.encoding()),
    ensures
        <&'buf [u8] as ZeroBuf<'buf>>::borrow_outcome(d) == Ok::<DecoderView, DecodeError>(
            d.advance(v.encoding().len() as int),
        ),
        forall|s: &'buf [u8]| <&'buf [u8] as ZeroBuf<'buf>>::borrows_as(d, s) <==> s@ == v@,
{
    let n = v@.len() as u32;
    lemma_encode_seq_bytes(v@);
    d.lemma_held_split(le_u32(n), v@);
    d.lemma_read_held(le_u32(n));
    lemma_u32_roundtrip(n);
    d.advance(4).lemma_read_held(v@);
    assert(d.advance(4).advance(v@.len() as int) == d.advance(v.encoding().len() as int));
}

/// The encoding of a sequence of bytes, item by item, is the bytes themselves.
pub proof fn lemma_encode_seq_bytes(s: Seq<u8>)
    ensures
        crate::codec::encode_seq(s) == s,
    decreases s.len(),
{
    if s.len() > 0 {
        lemma_encode_seq_bytes(s.drop_last());
        assert(s.drop_last().push(s.last()) =~= s);
    }
}

/// Borrowing a `&str` from where a string was encoded gives that string, and
/// moves past its encoding.
pub proof fn lemma_borrow_str_roundtrip<'buf>(chars: Seq<char>, d: DecoderView)
    requires
        encode_utf8(chars).len() <= d.limit,
        d.holds_at_cursor(string_encoding(chars)),
    ensures
        <&'buf str as ZeroBuf<'buf>>::borrow_outcome(d) == Ok::<DecoderView, DecodeError>(
            d.advance(string_encoding(chars).len() as int),
        ),
        forall|s: &'buf str| <&'buf str as ZeroBuf<'buf>>::borrows_as(d, s) <==> s@ == chars,
{
    let bytes = encode_utf8(chars);
    let n = bytes.len() as u32;
    d.lemma_held_split(le_u32(n), bytes);
    d.lemma_read_held(le_u32(n));
    lemma_u32_roundtrip(n);
    d.advance(4).lemma_read_held(bytes);
    vstd::utf8::encode_utf8_valid_utf8(chars);
    vstd::utf8::encode_utf8_decode_utf8(chars);
    assert(d.advance(4).advance(bytes.len() as int) == d.advance(
        string_encoding(chars).len() as int,
    ));
}

/// Borrowing a byte slice reads a four-byte little-endian count: a count
/// above the decoder's collection limit is `CollectionTooLarge`; otherwise
/// the slice is exactly the `count` bytes after it, when there are that
/// many, and decoding moves past them.
pub proof fn lemma_borrow_bytes_wire<'buf>(d: DecoderView, s: &'buf [u8])
    requires
        0 <= d.pos,
        d.pos + 4 <= d.buf.len(),
    ensures
        ({
            let n = crate::wire::le_value(d.buf.subrange(d.pos, d.pos + 4));
            &&& n > d.limit ==> <&'buf [u8] as ZeroBuf<'buf>>::borrow_outcome(d) == Err::<
                DecoderView,
                DecodeError,
            >(DecodeError::CollectionTooLarge { len: n as u32, limit: d.limit })
            &&& n <= d.limit && d.pos + 4 + n <= d.buf.len() ==> <&'buf [u8] as ZeroBuf<
                'buf,
            >>::borrow_outcome(d) == Ok::<DecoderView, DecodeError>(d.advance(4 + n))
            &&& n <= d.limit && d.pos + 4 + n <= d.buf.len() ==> (<&'buf [u8] as ZeroBuf<
                'buf,
            >>::borrows_as(d, s) <==> s@ == d.buf.subrange(d.pos + 4, d.pos + 4 + n))
        }),
{
    crate::wire::lemma_u32_le_value(0, d.buf.subrange(d.pos, d.pos + 4));
}

} // verus!
