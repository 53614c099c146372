//! Encode + Decode for the primitive types.
//!
//! All integers are little-endian. Signed integers are cast through their
//! unsigned equivalents: the bit pattern is identical, no sign extension
//! needed.

use crate::codec::{
    Decode, Encode, RoundTrip, all_encodable, all_fit, decode_many, decodes_seq, encode_seq,
    lemma_decode_many_err, lemma_encode_seq_push, lemma_roundtrip_seq, all_same,
    lemma_decodes_seq_unique,
};
use crate::decoder::{BufDecoder, DecoderView};
use crate::encoder::BufEncoder;
use crate::error::DecodeError;
use crate::wire::{
    le_u16, le_u32, le_u64, lemma_u16_roundtrip, lemma_u32_roundtrip, lemma_u64_roundtrip,
};
use vstd::prelude::*;
use vstd::utf8::is_scalar;

verus! {

/// The state after a read, or its error.
pub open spec fn after<V>(r: Result<(V, DecoderView), DecodeError>) -> Result<DecoderView, DecodeError> {
    match r {
        Ok((_, d)) => Ok(d),
        Err(e) => Err(e),
    }
}

// ── u8 / i8 ───────────────────────────────────────────────────────────────

impl Encode for u8 {
    open spec fn encodable(&self) -> bool {
        true
    }

    open spec fn encoding(&self) -> Seq<u8> {
        seq![*self]
    }

    fn encode(&self, enc: &mut BufEncoder) {
        enc.write_u8(*self);
        assert(enc@ =~= old(enc)@ + seq![*self]);
    }
}

impl Decode for u8 {
    open spec fn decodable() -> bool {
        true
    }

    open spec fn decode_outcome(d: DecoderView) -> Result<DecoderView, DecodeError> {
        after(d.read_u8())
    }

    open spec fn decodes_as(d: DecoderView, v: u8) -> bool {
        d.read_u8() matches Ok((x, _)) && x == v
    }

    fn decode(dec: &mut BufDecoder<'_>) -> (r: Result<u8, DecodeError>) {
        dec.read_u8()
    }
}

impl RoundTrip for u8 {
    open spec fn same_value(self, other: u8) -> bool {
        self == other
    }

    proof fn lemma_decodes_unique(d: DecoderView, x: u8, y: u8) {
    }

    open spec fn fits(&self, depth: u32, limit: u32) -> bool {
        true
    }

    proof fn lemma_roundtrip(v: u8, d: DecoderView) {
        d.lemma_read_held(v.encoding());
    }
}

impl Encode for i8 {
    open spec fn encodable(&self) -> bool {
        true
    }

    open spec fn encoding(&self) -> Seq<u8> {
        seq![*self as u8]
    }

    fn encode(&self, enc: &mut BufEncoder) {
        enc.write_u8(*self as u8);
        assert(enc@ =~= old(enc)@ + seq![*self as u8]);
    }
}

impl Decode for i8 {
    open spec fn decodable() -> bool {
        true
    }

    open spec fn decode_outcome(d: DecoderView) -> Result<DecoderView, DecodeError> {
        after(d.read_u8())
    }

    open spec fn decodes_as(d: DecoderView, v: i8) -> bool {
        d.read_u8() matches Ok((x, _)) && x as i8 == v
    }

    fn decode(dec: &mut BufDecoder<'_>) -> (r: Result<i8, DecodeError>) {
        match dec.read_u8() {
            Ok(b) => Ok(b as i8),
            Err(e) => Err(e),
        }
    }
}

impl RoundTrip for i8 {
    open spec fn same_value(self, other: i8) -> bool {
        self == other
    }

    proof fn lemma_decodes_unique(d: DecoderView, x: i8, y: i8) {
    }

    open spec fn fits(&self, depth: u32, limit: u32) -> bool {
        true
    }

    proof fn lemma_roundtrip(v: i8, d: DecoderView) {
        d.lemma_read_held(v.encoding());
        assert((v as u8) as i8 == v) by (bit_vector);
    }
}

// ── u16 / i16 ─────────────────────────────────────────────────────────────

impl Encode for u16 {
    open spec fn encodable(&self) -> bool {
        true
    }

    open spec fn encoding(&self) -> Seq<u8> {
        le_u16(*self)
    }

    fn encode(&self, enc: &mut BufEncoder) {
        enc.write_u16(*self);
    }
}

impl Decode for u16 {
    open spec fn decodable() -> bool {
        true
    }

    open spec fn decode_outcome(d: DecoderView) -> Result<DecoderView, DecodeError> {
        after(d.read_u16())
    }

    open spec fn decodes_as(d: DecoderView, v: u16) -> bool {
        d.read_u16() matches Ok((x, _)) && x == v
    }

    fn decode(dec: &mut BufDecoder<'_>) -> (r: Result<u16, DecodeError>) {
        dec.read_u16()
    }
}

impl RoundTrip for u16 {
    open spec fn same_value(self, other: u16) -> bool {
        self == other
    }

    proof fn lemma_decodes_unique(d: DecoderView, x: u16, y: u16) {
    }

    open spec fn fits(&self, depth: u32, limit: u32) -> bool {
        true
    }

    proof fn lemma_roundtrip(v: u16, d: DecoderView) {
        d.lemma_read_held(v.encoding());
        lemma_u16_roundtrip(v);
    }
}

impl Encode for i16 {
    open spec fn encodable(&self) -> bool {
        true
    }

    open spec fn encoding(&self) -> Seq<u8> {
        le_u16(*self as u16)
    }

    fn encode(&self, enc: &mut BufEncoder) {
        enc.write_u16(*self as u16);
    }
}

impl Decode for i16 {
    open spec fn decodable() -> bool {
        true
    }

    open spec fn decode_outcome(d: DecoderView) -> Result<DecoderView, DecodeError> {
        after(d.read_u16())
    }

    open spec fn decodes_as(d: DecoderView, v: i16) -> bool {
        d.read_u16() matches Ok((x, _)) && x as i16 == v
    }

    fn decode(dec: &mut BufDecoder<'_>) -> (r: Result<i16, DecodeError>) {
        match dec.read_u16() {
            Ok(x) => Ok(x as i16),
            Err(e) => Err(e),
        }
    }
}

impl RoundTrip for i16 {
    open spec fn same_value(self, other: i16) -> bool {
        self == other
    }

    proof fn lemma_decodes_unique(d: DecoderView, x: i16, y: i16) {
    }

    open spec fn fits(&self, depth: u32, limit: u32) -> bool {
        true
    }

    proof fn lemma_roundtrip(v: i16, d: DecoderView) {
        d.lemma_read_held(v.encoding());
        lemma_u16_roundtrip(v as u16);
        assert((v as u16) as i16 == v) by (bit_vector);
    }
}

// ── u32 / i32 ─────────────────────────────────────────────────────────────

impl Encode for u32 {
    open spec fn encodable(&self) -> bool {
        true
    }

    open spec fn encoding(&self) -> Seq<u8> {
        le_u32(*self)
    }

    fn encode(&self, enc: &mut BufEncoder) {
        enc.write_u32(*self);
    }
}

impl Decode for u32 {
    open spec fn decodable() -> bool {
        true
    }

    open spec fn decode_outcome(d: DecoderView) -> Result<DecoderView, DecodeError> {
        after(d.read_u32())
    }

    open spec fn decodes_as(d: DecoderView, v: u32) -> bool {
        d.read_u32() matches Ok((x, _)) && x == v
    }

    fn decode(dec: &mut BufDecoder<'_>) -> (r: Result<u32, DecodeError>) {
        dec.read_u32()
    }
}

impl RoundTrip for u32 {
    open spec fn same_value(self, other: u32) -> bool {
        self == other
    }

    proof fn lemma_decodes_unique(d: DecoderView, x: u32, y: u32) {
    }

    open spec fn fits(&self, depth: u32, limit: u32) -> bool {
        true
    }

    proof fn lemma_roundtrip(v: u32, d: DecoderView) {
        d.lemma_read_held(v.encoding());
        lemma_u32_roundtrip(v);
    }
}

impl Encode for i32 {
    open spec fn encodable(&self) -> bool {
        true
    }

    open spec fn encoding(&self) -> Seq<u8> {
        le_u32(*self as u32)
    }

    fn encode(&self, enc: &mut BufEncoder) {
        enc.write_u32(*self as u32);
    }
}

impl Decode for i32 {
    open spec fn decodable() -> bool {
        true
    }

    open spec fn decode_outcome(d: DecoderView) -> Result<DecoderView, DecodeError> {
        after(d.read_u32())
    }

    open spec fn decodes_as(d: DecoderView, v: i32) -> bool {
        d.read_u32() matches Ok((x, _)) && x as i32 == v
    }

    fn decode(dec: &mut BufDecoder<'_>) -> (r: Result<i32, DecodeError>) {
        match dec.read_u32() {
            Ok(x) => Ok(x as i32),
            Err(e) => Err(e),
        }
    }
}

impl RoundTrip for i32 {
    open spec fn same_value(self, other: i32) -> bool {
        self == other
    }

    proof fn lemma_decodes_unique(d: DecoderView, x: i32, y: i32) {
    }

    open spec fn fits(&self, depth: u32, limit: u32) -> bool {
        true
    }

    proof fn lemma_roundtrip(v: i32, d: DecoderView) {
        d.lemma_read_held(v.encoding());
        lemma_u32_roundtrip(v as u32);
        assert((v as u32) as i32 == v) by (bit_vector);
    }
}

// ── u64 / i64 ─────────────────────────────────────────────────────────────

impl Encode for u64 {
    open spec fn encodable(&self) -> bool {
        true
    }

    open spec fn encoding(&self) -> Seq<u8> {
        le_u64(*self)
    }

    fn encode(&self, enc: &mut BufEncoder) {
        enc.write_u64(*self);
    }
}

impl Decode for u64 {
    open spec fn decodable() -> bool {
        true
    }

    open spec fn decode_outcome(d: DecoderView) -> Result<DecoderView, DecodeError> {
        after(d.read_u64())
    }

    open spec fn decodes_as(d: DecoderView, v: u64) -> bool {
        d.read_u64() matches Ok((x, _)) && x == v
    }

    fn decode(dec: &mut BufDecoder<'_>) -> (r: Result<u64, DecodeError>) {
        dec.read_u64()
    }
}

impl RoundTrip for u64 {
    open spec fn same_value(self, other: u64) -> bool {
        self == other
    }

    proof fn lemma_decodes_unique(d: DecoderView, x: u64, y: u64) {
    }

    open spec fn fits(&self, depth: u32, limit: u32) -> bool {
        true
    }

    proof fn lemma_roundtrip(v: u64, d: DecoderView) {
        d.lemma_read_held(v.encoding());
        lemma_u64_roundtrip(v);
    }
}

impl Encode for i64 {
    open spec fn encodable(&self) -> bool {
        true
    }

    open spec fn encoding(&self) -> Seq<u8> {
        le_u64(*self as u64)
    }

    fn encode(&self, enc: &mut BufEncoder) {
        enc.write_u64(*self as u64);
    }
}

impl Decode for i64 {
    open spec fn decodable() -> bool {
        true
    }

    open spec fn decode_outcome(d: DecoderView) -> Result<DecoderView, DecodeError> {
        after(d.read_u64())
    }

    open spec fn decodes_as(d: DecoderView, v: i64) -> bool {
        d.read_u64() matches Ok((x, _)) && x as i64 == v
    }

    fn decode(dec: &mut BufDecoder<'_>) -> (r: Result<i64, DecodeError>) {
        match dec.read_u64() {
            Ok(x) => Ok(x as i64),
            Err(e) => Err(e),
        }
    }
}

impl RoundTrip for i64 {
    open spec fn same_value(self, other: i64) -> bool {
        self == other
    }

    proof fn lemma_decodes_unique(d: DecoderView, x: i64, y: i64) {
    }

    open spec fn fits(&self, depth: u32, limit: u32) -> bool {
        true
    }

    proof fn lemma_roundtrip(v: i64, d: DecoderView) {
        d.lemma_read_held(v.encoding());
        lemma_u64_roundtrip(v as u64);
        assert((v as u64) as i64 == v) by (bit_vector);
    }
}

// ── bool ──────────────────────────────────────────────────────────────────

/// The wire byte of a `bool`: `false` is `0x00`, `true` is `0x01`.
pub open spec fn bool_byte(b: bool) -> u8 {
    if b {
        1
    } else {
        0
    }
}

impl Encode for bool {
    open spec fn encodable(&self) -> bool {
        true
    }

    open spec fn encoding(&self) -> Seq<u8> {
        seq![bool_byte(*self)]
    }

    fn encode(&self, enc: &mut BufEncoder) {
        let b: u8 = if *self {
            1
        } else {
            0
        };
        enc.write_u8(b);
        assert(enc@ =~= old(enc)@ + seq![bool_byte(*self)]);
    }
}

impl Decode for bool {
    open spec fn decodable() -> bool {
        true
    }

    /// Only `0x00` and `0x01` are accepted; any other byte is `InvalidBool`.
    open spec fn decode_outcome(d: DecoderView) -> Result<DecoderView, DecodeError> {
        match d.read_u8() {
            Ok((b, d2)) => if b == 0 || b == 1 {
                Ok(d2)
            } else {
                Err(DecodeError::InvalidBool(b))
            },
            Err(e) => Err(e),
        }
    }

    open spec fn decodes_as(d: DecoderView, v: bool) -> bool {
        d.read_u8() matches Ok((b, _)) && v == (b == 1)
    }

    fn decode(dec: &mut BufDecoder<'_>) -> (r: Result<bool, DecodeError>) {
        match dec.read_u8() {
            Ok(0) => Ok(false),
            Ok(1) => Ok(true),
            Ok(b) => Err(DecodeError::InvalidBool(b)),
            Err(e) => Err(e),
        }
    }
}

impl RoundTrip for bool {
    open spec fn same_value(self, other: bool) -> bool {
        self == other
    }

    proof fn lemma_decodes_unique(d: DecoderView, x: bool, y: bool) {
    }

    open spec fn fits(&self, depth: u32, limit: u32) -> bool {
        true
    }

    proof fn lemma_roundtrip(v: bool, d: DecoderView) {
        d.lemma_read_held(v.encoding());
    }
}

// ── char ──────────────────────────────────────────────────────────────────

/// `char::from_u32`: the character whose scalar value is `n`, or `None`
/// when `n` is a surrogate or above `0x10FFFF`. Its documentation says that
/// exactly the Unicode scalar values are accepted.
#[verifier::external_body]
fn char_from_u32(n: u32) -> (c: Option<char>)
    ensures
        c is Some <==> is_scalar(n),
        c matches Some(ch) ==> ch as u32 == n,
{
    char::from_u32(n)
}

impl Encode for char {
    open spec fn encodable(&self) -> bool {
        true
    }

    /// Stored as the Unicode scalar value, a little-endian `u32`.
    open spec fn encoding(&self) -> Seq<u8> {
        le_u32(*self as u32)
    }

    fn encode(&self, enc: &mut BufEncoder) {
        enc.write_u32(*self as u32);
    }
}

impl Decode for char {
    open spec fn decodable() -> bool {
        true
    }

    /// A `u32` that is not a Unicode scalar value is `InvalidChar`.
    open spec fn decode_outcome(d: DecoderView) -> Result<DecoderView, DecodeError> {
        match d.read_u32() {
            Ok((n, d2)) => if is_scalar(n) {
                Ok(d2)
            } else {
                Err(DecodeError::InvalidChar(n))
            },
            Err(e) => Err(e),
        }
    }

    open spec fn decodes_as(d: DecoderView, v: char) -> bool {
        d.read_u32() matches Ok((n, _)) && v as u32 == n
    }

    fn decode(dec: &mut BufDecoder<'_>) -> (r: Result<char, DecodeError>) {
        match dec.read_u32() {
            Ok(n) => match char_from_u32(n) {
                Some(c) => Ok(c),
                None => Err(DecodeError::InvalidChar(n)),
            },
            Err(e) => Err(e),
        }
    }
}

impl RoundTrip for char {
    open spec fn same_value(self, other: char) -> bool {
        self == other
    }

    proof fn lemma_decodes_unique(d: DecoderView, x: char, y: char) {
        vstd::utf8::char_u32_cast(x, x as u32);
        vstd::utf8::char_u32_cast(y, y as u32);
    }

    open spec fn fits(&self, depth: u32, limit: u32) -> bool {
        true
    }

    proof fn lemma_roundtrip(v: char, d: DecoderView) {
        d.lemma_read_held(v.encoding());
        lemma_u32_roundtrip(v as u32);
        vstd::utf8::char_is_scalar(v);
    }
}

// ── [T; N] ────────────────────────────────────────────────────────────────

/// `<[T; N]>::try_from(Vec<T>)`: the vector's items as an array. Its
/// documentation says the conversion succeeds exactly when the vector holds
/// `N` items; `requires` asks for that, so the unwrap cannot fail.
#[verifier::external_body]
fn array_from_vec<T, const N: usize>(v: Vec<T>) -> (a: [T; N])
    requires
        v@.len() == N,
    ensures
        a@ == v@,
{
    <[T; N]>::try_from(v).ok().unwrap()
}

impl<T: Encode, const N: usize> Encode for [T; N] {
    open spec fn encodable(&self) -> bool {
        all_encodable(self@)
    }

    /// Each element in order. No length prefix; `N` is part of the type.
    open spec fn encoding(&self) -> Seq<u8> {
        encode_seq(self@)
    }

    fn encode(&self, enc: &mut BufEncoder) {
        let mut i: usize = 0;
        while i < N
            invariant
                self@.len() == N,
                i <= N,
                all_encodable(self@),
                enc@ == old(enc)@ + encode_seq(self@.subrange(0, i as int)),
            decreases N - i,
        {
            self[i].encode(enc);
            proof {
                let done = self@.subrange(0, i as int);
                lemma_encode_seq_push(done, self@[i as int]);
                assert(self@.subrange(0, i + 1) =~= done.push(self@[i as int]));
                assert(enc@ =~= old(enc)@ + encode_seq(self@.subrange(0, i + 1)));
            }
            i = i + 1;
        }
        assert(self@.subrange(0, N as int) =~= self@);
    }
}

impl<T: Decode, const N: usize> Decode for [T; N] {
    open spec fn decodable() -> bool {
        T::decodable()
    }

    /// `N` elements, one after another.
    open spec fn decode_outcome(d: DecoderView) -> Result<DecoderView, DecodeError> {
        decode_many::<T>(d, N as nat)
    }

    open spec fn decodes_as(d: DecoderView, v: [T; N]) -> bool {
        decodes_seq::<T>(d, v@)
    }

    fn decode(dec: &mut BufDecoder<'_>) -> (r: Result<[T; N], DecodeError>) {
        let ghost d0 = dec@;
        let mut out: Vec<T> = Vec::with_capacity(N);
        let mut i: usize = 0;
        while i < N
            invariant
                T::decodable(),
                d0 == old(dec)@,
                i <= N,
                out@.len() == i,
                decode_many::<T>(d0, i as nat) == Ok::<DecoderView, DecodeError>(dec@),
                decodes_seq::<T>(d0, out@),
                dec@.depth == d0.depth,
                dec@.buf == d0.buf,
                dec@.limit == d0.limit,
            decreases N - i,
        {
            let ghost before = dec@;
            match T::decode(dec) {
                Ok(v) => {
                    proof {
                        assert(out@.push(v).drop_last() =~= out@);
                    }
                    out.push(v);
                },
                Err(e) => {
                    proof {
                        assert(T::decode_outcome(before) == Err::<DecoderView, DecodeError>(e));
                        assert(decode_many::<T>(d0, (i + 1) as nat) == T::decode_outcome(before));
                        lemma_decode_many_err::<T>(d0, (i + 1) as nat, N as nat);
                    }
                    return Err(e);
                },
            }
            i = i + 1;
        }
        let arr: [T; N] = array_from_vec(out);
        Ok(arr)
    }
}

impl<T: RoundTrip, const N: usize> RoundTrip for [T; N] {
    open spec fn same_value(self, other: [T; N]) -> bool {
        all_same(self@, other@)
    }

    proof fn lemma_decodes_unique(d: DecoderView, x: [T; N], y: [T; N]) {
        lemma_decodes_seq_unique(d, x@, y@);
    }

    open spec fn fits(&self, depth: u32, limit: u32) -> bool {
        all_fit(self@, depth, limit)
    }

    proof fn lemma_roundtrip(v: [T; N], d: DecoderView) {
        lemma_roundtrip_seq(v@, d);
    }
}

} // verus!
