//! What each standard type puts on the wire and reads back, stated
//! against the byte values themselves: integers as the little-endian digits
//! (base 256) of their bit pattern, `bool` and `Option` tags as fixed
//! bytes, strings as a byte-count prefix and their UTF-8 bytes, and
//! composite values as their parts in declaration order.

use crate::codec::{Decode, Encode, RoundTrip, encode_seq};
use crate::decoder::{DecoderView, MAX_DECODE_DEPTH};
use crate::error::DecodeError;
use crate::impls::string::string_encoding;
use crate::wire::{
    le_u32, le_value, lemma_u16_le_value, lemma_u32_le_value, lemma_u64_le_value,
    lemma_u32_roundtrip,
};
use vstd::prelude::*;
use vstd::string::StringSliceAdditionalSpecFns;
use vstd::utf8::{encode_utf8, is_scalar};

verus! {

/// The `n` bytes at the cursor of `d`.
pub open spec fn next_bytes(d: DecoderView, n: int) -> Seq<u8> {
    d.buf.subrange(d.pos, d.pos + n)
}

/// A `u8` is written as the 1 byte of its value, least significant
/// first. Decoding reads 1 byte and yields exactly the `u8` whose
/// value they spell that way; with fewer left it is `UnexpectedEof`.
pub proof fn lemma_u8_wire(v: u8, d: DecoderView)
    requires
        0 <= d.pos <= d.buf.len(),
    ensures
        v.encoding().len() == 1,
        le_value(v.encoding()) == v as u8,
        d.remaining() >= 1 ==> <u8 as Decode>::decode_outcome(d) == Ok::<DecoderView, DecodeError>(
            d.advance(1),
        ),
        d.remaining() >= 1 ==> (<u8 as Decode>::decodes_as(d, v) <==> v as u8 == le_value(
            next_bytes(d, 1),
        )),
        d.remaining() < 1 ==> <u8 as Decode>::decode_outcome(d) == Err::<DecoderView, DecodeError>(
            DecodeError::UnexpectedEof { needed: 1, remaining: d.remaining() as usize },
        ),
{
        reveal_with_fuel(le_value, 2);
        assert(v.encoding().drop_first() =~= Seq::<u8>::empty());
        if d.remaining() >= 1 {
            assert(next_bytes(d, 1).drop_first() =~= Seq::<u8>::empty());
        }
    }

/// A `i8` is written as the 1 byte of its two's-complement bit pattern, least significant
/// first. Decoding reads 1 byte and yields exactly the `i8` whose
/// two's-complement bit pattern they spell that way; with fewer left it is `UnexpectedEof`.
pub proof fn lemma_i8_wire(v: i8, d: DecoderView)
    requires
        0 <= d.pos <= d.buf.len(),
    ensures
        v.encoding().len() == 1,
        le_value(v.encoding()) == v as u8,
        d.remaining() >= 1 ==> <i8 as Decode>::decode_outcome(d) == Ok::<DecoderView, DecodeError>(
            d.advance(1),
        ),
        d.remaining() >= 1 ==> (<i8 as Decode>::decodes_as(d, v) <==> v as u8 == le_value(
            next_bytes(d, 1),
        )),
        d.remaining() < 1 ==> <i8 as Decode>::decode_outcome(d) == Err::<DecoderView, DecodeError>(
            DecodeError::UnexpectedEof { needed: 1, remaining: d.remaining() as usize },
        ),
{
        reveal_with_fuel(le_value, 2);
        assert(v.encoding().drop_first() =~= Seq::<u8>::empty());
        if d.remaining() >= 1 {
            assert(next_bytes(d, 1).drop_first() =~= Seq::<u8>::empty());
        }
        if d.remaining() >= 1 {
            let x: u8 = next_bytes(d, 1)[0];
            assert((x as i8 == v) == (v as u8 == x)) by (bit_vector);
        }
    }

/// A `u16` is written as the 2 bytes of its value, least significant
/// first. Decoding reads 2 bytes and yields exactly the `u16` whose
/// value they spell that way; with fewer left it is `UnexpectedEof`.
pub proof fn lemma_u16_wire(v: u16, d: DecoderView)
    requires
        0 <= d.pos <= d.buf.len(),
    ensures
        v.encoding().len() == 2,
        le_value(v.encoding()) == v as u16,
        d.remaining() >= 2 ==> <u16 as Decode>::decode_outcome(d) == Ok::<DecoderView, DecodeError>(
            d.advance(2),
        ),
        d.remaining() >= 2 ==> (<u16 as Decode>::decodes_as(d, v) <==> v as u16 == le_value(
            next_bytes(d, 2),
        )),
        d.remaining() < 2 ==> <u16 as Decode>::decode_outcome(d) == Err::<DecoderView, DecodeError>(
            DecodeError::UnexpectedEof { needed: 2, remaining: d.remaining() as usize },
        ),
{
        lemma_u16_le_value(v as u16, next_bytes(d, 2));
    }

/// A `i16` is written as the 2 bytes of its two's-complement bit pattern, least significant
/// first. Decoding reads 2 bytes and yields exactly the `i16` whose
/// two's-complement bit pattern they spell that way; with fewer left it is `UnexpectedEof`.
pub proof fn lemma_i16_wire(v: i16, d: DecoderView)
    requires
        0 <= d.pos <= d.buf.len(),
    ensures
        v.encoding().len() == 2,
        le_value(v.encoding()) == v as u16,
        d.remaining() >= 2 ==> <i16 as Decode>::decode_outcome(d) == Ok::<DecoderView, DecodeError>(
            d.advance(2),
        ),
        d.remaining() >= 2 ==> (<i16 as Decode>::decodes_as(d, v) <==> v as u16 == le_value(
            next_bytes(d, 2),
        )),
        d.remaining() < 2 ==> <i16 as Decode>::decode_outcome(d) == Err::<DecoderView, DecodeError>(
            DecodeError::UnexpectedEof { needed: 2, remaining: d.remaining() as usize },
        ),
{
        lemma_u16_le_value(v as u16, next_bytes(d, 2));
        if d.remaining() >= 2 {
            let x: u16 = crate::wire::u16_of(next_bytes(d, 2));
            assert((x as i16 == v) == (v as u16 == x)) by (bit_vector);
        }
    }

/// A `u32` is written as the 4 bytes of its value, least significant
/// first. Decoding reads 4 bytes and yields exactly the `u32` whose
/// value they spell that way; with fewer left it is `UnexpectedEof`.
pub proof fn lemma_u32_wire(v: u32, d: DecoderView)
    requires
        0 <= d.pos <= d.buf.len(),
    ensures
        v.encoding().len() == 4,
        le_value(v.encoding()) == v as u32,
        d.remaining() >= 4 ==> <u32 as Decode>::decode_outcome(d) == Ok::<DecoderView, DecodeError>(
            d.advance(4),
        ),
        d.remaining() >= 4 ==> (<u32 as Decode>::decodes_as(d, v) <==> v as u32 == le_value(
            next_bytes(d, 4),
        )),
        d.remaining() < 4 ==> <u32 as Decode>::decode_outcome(d) == Err::<DecoderView, DecodeError>(
            DecodeError::UnexpectedEof { needed: 4, remaining: d.remaining() as usize },
        ),
{
        lemma_u32_le_value(v as u32, next_bytes(d, 4));
    }

/// A `i32` is written as the 4 bytes of its two's-complement bit pattern, least significant
/// first. Decoding reads 4 bytes and yields exactly the `i32` whose
/// two's-complement bit pattern they spell that way; with fewer left it is `UnexpectedEof`.
pub proof fn lemma_i32_wire(v: i32, d: DecoderView)
    requires
        0 <= d.pos <= d.buf.len(),
    ensures
        v.encoding().len() == 4,
        le_value(v.encoding()) == v as u32,
        d.remaining() >= 4 ==> <i32 as Decode>::decode_outcome(d) == Ok::<DecoderView, DecodeError>(
            d.advance(4),
        ),
        d.remaining() >= 4 ==> (<i32 as Decode>::decodes_as(d, v) <==> v as u32 == le_value(
            next_bytes(d, 4),
        )),
        d.remaining() < 4 ==> <i32 as Decode>::decode_outcome(d) == Err::<DecoderView, DecodeError>(
            DecodeError::UnexpectedEof { needed: 4, remaining: d.remaining() as usize },
        ),
{
        lemma_u32_le_value(v as u32, next_bytes(d, 4));
        if d.remaining() >= 4 {
            let x: u32 = crate::wire::u32_of(next_bytes(d, 4));
            assert((x as i32 == v) == (v as u32 == x)) by (bit_vector);
        }
    }

/// A `u64` is written as the 8 bytes of its value, least significant
/// first. Decoding reads 8 bytes and yields exactly the `u64` whose
/// value they spell that way; with fewer left it is `UnexpectedEof`.
pub proof fn lemma_u64_wire(v: u64, d: DecoderView)
    requires
        0 <= d.pos <= d.buf.len(),
    ensures
        v.encoding().len() == 8,
        le_value(v.encoding()) == v as u64,
        d.remaining() >= 8 ==> <u64 as Decode>::decode_outcome(d) == Ok::<DecoderView, DecodeError>(
            d.advance(8),
        ),
        d.remaining() >= 8 ==> (<u64 as Decode>::decodes_as(d, v) <==> v as u64 == le_value(
            next_bytes(d, 8),
        )),
        d.remaining() < 8 ==> <u64 as Decode>::decode_outcome(d) == Err::<DecoderView, DecodeError>(
            DecodeError::UnexpectedEof { needed: 8, remaining: d.remaining() as usize },
        ),
{
        lemma_u64_le_value(v as u64, next_bytes(d, 8));
    }

/// A `i64` is written as the 8 bytes of its two's-complement bit pattern, least significant
/// first. Decoding reads 8 bytes and yields exactly the `i64` whose
/// two's-complement bit pattern they spell that way; with fewer left it is `UnexpectedEof`.
pub proof fn lemma_i64_wire(v: i64, d: DecoderView)
    requires
        0 <= d.pos <= d.buf.len(),
    ensures
        v.encoding().len() == 8,
        le_value(v.encoding()) == v as u64,
        d.remaining() >= 8 ==> <i64 as Decode>::decode_outcome(d) == Ok::<DecoderView, DecodeError>(
            d.advance(8),
        ),
        d.remaining() >= 8 ==> (<i64 as Decode>::decodes_as(d, v) <==> v as u64 == le_value(
            next_bytes(d, 8),
        )),
        d.remaining() < 8 ==> <i64 as Decode>::decode_outcome(d) == Err::<DecoderView, DecodeError>(
            DecodeError::UnexpectedEof { needed: 8, remaining: d.remaining() as usize },
        ),
{
        lemma_u64_le_value(v as u64, next_bytes(d, 8));
        if d.remaining() >= 8 {
            let x: u64 = crate::wire::u64_of(next_bytes(d, 8));
            assert((x as i64 == v) == (v as u64 == x)) by (bit_vector);
        }
    }

/// A `bool` is the byte `0x00` (`false`) or `0x01` (`true`). Decoding reads
/// one byte: `0x00` gives `false`, `0x01` gives `true`, any other byte `b`
/// is `InvalidBool(b)`.
pub proof fn lemma_bool_wire(v: bool, d: DecoderView)
    requires
        0 <= d.pos < d.buf.len(),
    ensures
        v.encoding() == seq![if v { 1u8 } else { 0u8 }],
        d.buf[d.pos] <= 1 ==> <bool as Decode>::decode_outcome(d) == Ok::<DecoderView, DecodeError>(
            d.advance(1),
        ),
        d.buf[d.pos] == 0 ==> (<bool as Decode>::decodes_as(d, v) <==> !v),
        d.buf[d.pos] == 1 ==> (<bool as Decode>::decodes_as(d, v) <==> v),
        d.buf[d.pos] > 1 ==> <bool as Decode>::decode_outcome(d) == Err::<DecoderView, DecodeError>(
            DecodeError::InvalidBool(d.buf[d.pos]),
        ),
{
}

/// A `char` is written as the four little-endian bytes of its scalar value.
/// Decoding reads four bytes: a Unicode scalar value gives that character,
/// any other value `n` is `InvalidChar(n)`.
pub proof fn lemma_char_wire(c: char, d: DecoderView)
    requires
        0 <= d.pos,
        d.pos + 4 <= d.buf.len(),
    ensures
        c.encoding().len() == 4,
        le_value(c.encoding()) == c as u32,
        is_scalar(le_value(next_bytes(d, 4)) as u32) ==> <char as Decode>::decode_outcome(d) == Ok::<
            DecoderView,
            DecodeError,
        >(d.advance(4)),
        is_scalar(le_value(next_bytes(d, 4)) as u32) ==> (<char as Decode>::decodes_as(d, c) <==> c
            as u32 == le_value(next_bytes(d, 4))),
        !is_scalar(le_value(next_bytes(d, 4)) as u32) ==> <char as Decode>::decode_outcome(d)
            == Err::<DecoderView, DecodeError>(
            DecodeError::InvalidChar(le_value(next_bytes(d, 4)) as u32),
        ),
{
    lemma_u32_le_value(c as u32, next_bytes(d, 4));
}

/// `None` is the single byte `0x00`; `Some(x)` is the byte `0x01` followed
/// by the encoding of `x`. Decoding reads the tag byte: `0x00` gives `None`
/// after that byte, `0x01` decodes the payload right after it, any other
/// byte `b` is `InvalidBool(b)`.
pub proof fn lemma_option_wire<T: Decode + Encode>(x: T, d: DecoderView)
    requires
        0 <= d.pos < d.buf.len(),
    ensures
        None::<T>.encoding() == seq![0u8],
        Some(x).encoding() == seq![1u8] + x.encoding(),
        d.buf[d.pos] == 0 ==> <Option<T> as Decode>::decode_outcome(d) == Ok::<
            DecoderView,
            DecodeError,
        >(d.advance(1)),
        d.buf[d.pos] == 0 ==> <Option<T> as Decode>::decodes_as(d, None),
        d.buf[d.pos] == 0 ==> !<Option<T> as Decode>::decodes_as(d, Some(x)),
        d.buf[d.pos] == 1 ==> <Option<T> as Decode>::decode_outcome(d) == T::decode_outcome(
            d.advance(1),
        ),
        d.buf[d.pos] == 1 ==> (<Option<T> as Decode>::decodes_as(d, Some(x)) <==> T::decodes_as(
            d.advance(1),
            x,
        )),
        d.buf[d.pos] == 1 ==> !<Option<T> as Decode>::decodes_as(d, None),
        d.buf[d.pos] > 1 ==> <Option<T> as Decode>::decode_outcome(d) == Err::<
            DecoderView,
            DecodeError,
        >(DecodeError::InvalidBool(d.buf[d.pos])),
{
}

/// Items are encoded front to back: the first item's encoding comes first.
pub proof fn lemma_encode_seq_front<T: Encode>(x: T, s: Seq<T>)
    ensures
        encode_seq(seq![x] + s) == x.encoding() + encode_seq(s),
    decreases s.len(),
{
    if s.len() == 0 {
        assert(seq![x] + s =~= seq![x]);
        assert(seq![x].drop_last() =~= Seq::<T>::empty());
        assert(encode_seq(seq![x]) == encode_seq(seq![x].drop_last()) + seq![x].last().encoding());
        assert(encode_seq(s) =~= Seq::<u8>::empty());
        assert(Seq::<u8>::empty() + x.encoding() =~= x.encoding() + Seq::<u8>::empty());
    } else {
        lemma_encode_seq_front(x, s.drop_last());
        let xs = seq![x] + s;
        assert(encode_seq(xs) == encode_seq(xs.drop_last()) + xs.last().encoding());
        assert(xs.drop_last() =~= seq![x] + s.drop_last());
        assert((seq![x] + s).last() == s.last());
        assert(x.encoding() + encode_seq(s.drop_last()) + s.last().encoding() =~= x.encoding() + (
        encode_seq(s.drop_last()) + s.last().encoding()));
    }
}

/// A vector is its element count as four little-endian bytes, then its
/// elements front to back. Decoding refuses a count above the collection
/// limit with `CollectionTooLarge`, and a decoded vector holds as many
/// elements as the count says, the first one decoded right after the count.
pub proof fn lemma_vec_wire<T: Decode + Encode>(v: Vec<T>, d: DecoderView)
    requires
        0 <= d.pos,
        d.pos + 4 <= d.buf.len(),
        d.depth < MAX_DECODE_DEPTH,
    ensures
        v@.len() <= u32::MAX ==> le_value(v.encoding().subrange(0, 4)) == v@.len(),
        v.encoding().subrange(4, v.encoding().len() as int) == encode_seq(v@),
        v@.len() > 0 ==> encode_seq(v@) == v@[0].encoding() + encode_seq(v@.drop_first()),
        le_value(next_bytes(d, 4)) > d.limit ==> <Vec<T> as Decode>::decode_outcome(d) == Err::<
            DecoderView,
            DecodeError,
        >(
            DecodeError::CollectionTooLarge {
                len: le_value(next_bytes(d, 4)) as u32,
                limit: d.limit,
            },
        ),
        <Vec<T> as Decode>::decodes_as(d, v) ==> v@.len() == le_value(next_bytes(d, 4)),
        <Vec<T> as Decode>::decodes_as(d, v) && v@.len() > 0 ==> T::decodes_as(
            d.at_depth((d.depth + 1) as u32).advance(4),
            v@[0],
        ),
{
    let n = v@.len() as u32;
    lemma_u32_le_value(n, next_bytes(d, 4));
    let e = v.encoding();
    assert(e.subrange(0, 4) =~= le_u32(n));
    assert(e.subrange(4, e.len() as int) =~= encode_seq(v@));
    if v@.len() > 0 {
        assert(v@ =~= seq![v@[0]] + v@.drop_first());
        lemma_encode_seq_front(v@[0], v@.drop_first());
        if <Vec<T> as Decode>::decodes_as(d, v) {
            lemma_decodes_seq_first::<T>(d.at_depth((d.depth + 1) as u32).advance(4), v@);
        }
    }
}

/// In a decoded run of values, the first was decoded at the starting state.
pub proof fn lemma_decodes_seq_first<T: Decode>(d: DecoderView, s: Seq<T>)
    requires
        s.len() > 0,
        crate::codec::decodes_seq::<T>(d, s),
    ensures
        T::decodes_as(d, s[0]),
    decreases s.len(),
{
    if s.len() > 1 {
        lemma_decodes_seq_first::<T>(d, s.drop_last());
        assert(s.drop_last()[0] == s[0]);
    } else {
        assert(s.last() == s[0]);
    }
}

/// An array is its items front to back, with no prefix. A decoded array's
/// first item was decoded at the starting state.
pub proof fn lemma_array_wire<T: Decode + Encode, const N: usize>(a: [T; N], d: DecoderView)
    ensures
        a.encoding() == encode_seq(a@),
        N > 0 ==> a.encoding() == a@[0].encoding() + encode_seq(a@.drop_first()),
        N > 0 && <[T; N] as Decode>::decodes_as(d, a) ==> T::decodes_as(d, a@[0]),
{
    if N > 0 {
        assert(a@ =~= seq![a@[0]] + a@.drop_first());
        lemma_encode_seq_front(a@[0], a@.drop_first());
        if <[T; N] as Decode>::decodes_as(d, a) {
            lemma_decodes_seq_first::<T>(d, a@);
        }
    }
}

/// Decoding a `String` reads a four-byte little-endian byte count: a count
/// above the decoder's collection limit is `CollectionTooLarge`, too few
/// bytes after it `UnexpectedEof`, bytes that are not UTF-8 `InvalidUtf8`;
/// otherwise the string is the text those bytes spell, and decoding moves
/// past the count and the bytes.
pub proof fn lemma_string_decode(t: String, d: DecoderView)
    requires
        0 <= d.pos,
        d.pos + 4 <= d.buf.len(),
    ensures
        ({
            let n = le_value(next_bytes(d, 4));
            let after = d.advance(4);
            &&& n > d.limit ==> <String as Decode>::decode_outcome(d) == Err::<
                DecoderView,
                DecodeError,
            >(DecodeError::CollectionTooLarge { len: n as u32, limit: d.limit })
            &&& n <= d.limit && after.pos + n > d.buf.len() ==> <String as Decode>::decode_outcome(d)
                == Err::<DecoderView, DecodeError>(
                DecodeError::UnexpectedEof {
                    needed: n as usize,
                    remaining: after.remaining() as usize,
                },
            )
            &&& n <= d.limit && after.pos + n <= d.buf.len() && !vstd::utf8::valid_utf8(
                next_bytes(after, n),
            ) ==> <String as Decode>::decode_outcome(d) == Err::<DecoderView, DecodeError>(
                DecodeError::InvalidUtf8,
            )
            &&& n <= d.limit && after.pos + n <= d.buf.len() && vstd::utf8::valid_utf8(
                next_bytes(after, n),
            ) ==> <String as Decode>::decode_outcome(d) == Ok::<DecoderView, DecodeError>(
                after.advance(n),
            ) && (<String as Decode>::decodes_as(d, t) <==> encode_utf8(t@) == next_bytes(
                after,
                n,
            ))
        }),
{
    lemma_u32_le_value(0, next_bytes(d, 4));
    let n = le_value(next_bytes(d, 4));
    let after = d.advance(4);
    if n <= d.limit && after.pos + n <= d.buf.len() && vstd::utf8::valid_utf8(next_bytes(after, n)) {
        let b = next_bytes(after, n);
        vstd::utf8::decode_utf8_encode_utf8(b);
        vstd::utf8::encode_utf8_decode_utf8(t@);
    }
}

/// A string slice is its UTF-8 byte count as four
/// little-endian bytes, then its UTF-8 bytes: the same bytes as a `String`
/// with the same text, whether written as `str` or as `&str`. Decoding a
/// `String` from where a slice was encoded
/// reads back that text and moves past the whole encoding.
pub proof fn lemma_str_wire<'a>(s: &'a str, t: String, d: DecoderView)
    ensures
        <&'a str as Encode>::encoding(&s) == <str as Encode>::encoding(s),
        <&'a str as Encode>::encodable(&s) && <str as Encode>::encodable(s),
        <str as Encode>::encoding(s) == s.encoding(),
        s.encoding().len() == 4 + encode_utf8(s@).len(),
        encode_utf8(s@).len() <= u32::MAX ==> le_value(s.encoding().subrange(0, 4)) == encode_utf8(
            s@,
        ).len(),
        s.encoding().subrange(4, s.encoding().len() as int) == s.spec_bytes(),
        t.encoding().len() == 4 + encode_utf8(t@).len(),
        t.encodable() ==> le_value(t.encoding().subrange(0, 4)) == encode_utf8(t@).len(),
        t.encoding().subrange(4, t.encoding().len() as int) == encode_utf8(t@),
        s@ == t@ ==> s.encoding() == t.encoding(),
        encode_utf8(s@).len() <= d.limit && d.holds_at_cursor(s.encoding())
            ==> <String as Decode>::decode_outcome(d) == Ok::<DecoderView, DecodeError>(
            d.advance(s.encoding().len() as int),
        ),
        encode_utf8(s@).len() <= d.limit && d.holds_at_cursor(s.encoding()) ==> (
        <String as Decode>::decodes_as(d, t) <==> t@ == s@),
{
    let n = encode_utf8(s@).len() as u32;
    lemma_u32_le_value(n, Seq::<u8>::empty());
    let e = s.encoding();
    assert(e.subrange(0, 4) =~= le_u32(n));
    assert(e.subrange(4, e.len() as int) =~= encode_utf8(s@));
    let m = encode_utf8(t@).len() as u32;
    lemma_u32_le_value(m, Seq::<u8>::empty());
    let f = t.encoding();
    assert(f.subrange(0, 4) =~= le_u32(m));
    assert(f.subrange(4, f.len() as int) =~= encode_utf8(t@));
    if encode_utf8(s@).len() <= d.limit && d.holds_at_cursor(s.encoding()) {
        let bytes = encode_utf8(s@);
        d.lemma_held_split(le_u32(n), bytes);
        d.lemma_read_held(le_u32(n));
        lemma_u32_roundtrip(n);
        d.advance(4).lemma_read_held(bytes);
        vstd::utf8::encode_utf8_valid_utf8(s@);
        vstd::utf8::encode_utf8_decode_utf8(s@);
        assert(d.advance(4).advance(bytes.len() as int) == d.advance(e.len() as int));
    }
}

} // verus!
