//! Core `Encode` and `Decode` traits, plus top-level convenience functions.
//!
//! Each implementation states, as specifications, which bytes it writes
//! and how it reads them back; [`RoundTrip`] adds the proof that reading
//! back what was written gives the value again, having consumed exactly the
//! bytes that were written.

use crate::decoder::{BufDecoder, DecoderView, DEFAULT_COLLECTION_LIMIT};
use crate::encoder::BufEncoder;
use crate::error::DecodeError;
use vstd::prelude::*;

verus! {

/// Writes a value into a [`BufEncoder`].
///
/// # Contract
///
/// - Write fields in declaration order.
/// - No type flags, field names, or padding: just raw bytes.
/// - The bytes produced are a function of the value ([`Encode::encoding`]).
///
/// Encoding never fails on an encodable value.
pub trait Encode {
    /// Whether `self` can be written: every length prefix it needs fits in a
    /// `u32`. An implementation that does not state this leaves it `false`,
    /// and verified code then makes no call of its `encode`.
    open spec fn encodable(&self) -> bool {
        false
    }

    /// The bytes that encoding `self` appends. An implementation that does
    /// not state them leaves them unknown.
    open spec fn encoding(&self) -> Seq<u8> {
        arbitrary()
    }

    /// Encodes `self` into `enc`.
    fn encode(&self, enc: &mut BufEncoder)
        requires
            self.encodable(),
        ensures
            final(enc)@ == old(enc)@ + self.encoding(),
    ;
}

/// Reads a value from a [`BufDecoder`].
///
/// # Contract
///
/// - Read fields in the exact order and sizes that [`Encode`] wrote them.
/// - Return [`DecodeError`] on malformed input; never panic.
/// - Consume exactly as many bytes as [`Encode`] produced (see [`RoundTrip`]).
pub trait Decode: Sized {
    /// Whether the implementation states how it decodes. One that does not
    /// leaves this `false`, and verified code then makes no call of its
    /// `decode`.
    open spec fn decodable() -> bool {
        false
    }

    /// What decoding from the decoder state `d` leads to: the state after the
    /// value on success, or the error. Unknown unless the implementation
    /// states it.
    open spec fn decode_outcome(d: DecoderView) -> Result<DecoderView, DecodeError> {
        arbitrary()
    }

    /// Whether `v` is the value that decoding from the state `d` produces.
    /// Never, unless the implementation states it.
    open spec fn decodes_as(d: DecoderView, v: Self) -> bool {
        false
    }

    /// Decodes a value by consuming bytes from `dec`.
    fn decode(dec: &mut BufDecoder<'_>) -> (r: Result<Self, DecodeError>)
        requires
            Self::decodable(),
        ensures
            match Self::decode_outcome(old(dec)@) {
                Ok(d) => r matches Ok(v) && final(dec)@ == d && Self::decodes_as(old(dec)@, v),
                Err(e) => r matches Err(e2) && e2 == e,
            },
            final(dec)@.buf == old(dec)@.buf,
            final(dec)@.limit == old(dec)@.limit,
            r is Ok ==> final(dec)@.depth == old(dec)@.depth,
    ;
}

/// Types whose decoding reads back exactly what their encoding wrote.
pub trait RoundTrip: Encode + Decode {
    /// Whether a decoder at nesting depth `depth`, with collection limit
    /// `limit`, accepts the encoding of `self`.
    spec fn fits(&self, depth: u32, limit: u32) -> bool;

    /// Whether `self` and `other` are the same value as far as the wire can
    /// tell: equal scalars and strings, and containers with the same items
    /// in the same order.
    spec fn same_value(self, other: Self) -> bool;

    /// Decoding from one state yields one value: any two values that
    /// decoding from `d` can produce are the same.
    proof fn lemma_decodes_unique(d: DecoderView, x: Self, y: Self)
        requires
            Self::decodes_as(d, x),
            Self::decodes_as(d, y),
        ensures
            x.same_value(y),
    ;

    /// Decoding from a state whose cursor stands at the encoding of `v`
    /// succeeds, yields `v`, and moves the cursor past exactly that encoding.
    proof fn lemma_roundtrip(v: Self, d: DecoderView)
        requires
            v.encodable(),
            v.fits(d.depth, d.limit),
            d.holds_at_cursor(v.encoding()),
        ensures
            Self::decode_outcome(d) == Ok::<DecoderView, DecodeError>(
                d.advance(v.encoding().len() as int),
            ),
            Self::decodes_as(d, v),
    ;
}

// ── sequences of values ───────────────────────────────────────────────────

/// The encodings of the items of `s`, one after another, with no prefix.
pub open spec fn encode_seq<T: Encode>(s: Seq<T>) -> Seq<u8>
    decreases s.len(),
{
    if s.len() == 0 {
        Seq::empty()
    } else {
        encode_seq(s.drop_last()) + s.last().encoding()
    }
}

/// Whether every item of `s` can be encoded.
pub open spec fn all_encodable<T: Encode>(s: Seq<T>) -> bool {
    forall|i: int| 0 <= i < s.len() ==> #[trigger] s[i].encodable()
}

/// Whether every item of `s` fits a decoder at `depth` with `limit`.
pub open spec fn all_fit<T: RoundTrip>(s: Seq<T>, depth: u32, limit: u32) -> bool {
    forall|i: int| 0 <= i < s.len() ==> #[trigger] s[i].fits(depth, limit)
}

/// Whether `s` and `t` hold the same values in the same order.
pub open spec fn all_same<T: RoundTrip>(s: Seq<T>, t: Seq<T>) -> bool {
    &&& s.len() == t.len()
    &&& forall|i: int| 0 <= i < s.len() ==> #[trigger] s[i].same_value(t[i])
}

/// What decoding `n` values of `T` one after another from `d` leads to.
pub open spec fn decode_many<T: Decode>(d: DecoderView, n: nat) -> Result<DecoderView, DecodeError>
    decreases n,
{
    if n == 0 {
        Ok(d)
    } else {
        match decode_many::<T>(d, (n - 1) as nat) {
            Ok(d1) => T::decode_outcome(d1),
            Err(e) => Err(e),
        }
    }
}

/// Whether `s` holds the values that decoding `s.len()` values of `T` one
/// after another from `d` produces.
pub open spec fn decodes_seq<T: Decode>(d: DecoderView, s: Seq<T>) -> bool
    decreases s.len(),
{
    if s.len() == 0 {
        true
    } else {
        &&& decodes_seq::<T>(d, s.drop_last())
        &&& match decode_many::<T>(d, (s.len() - 1) as nat) {
            Ok(d1) => T::decodes_as(d1, s.last()),
            Err(_) => false,
        }
    }
}

/// Once decoding `i` values fails, decoding more values fails with the same error.
pub proof fn lemma_decode_many_err<T: Decode>(d: DecoderView, i: nat, n: nat)
    requires
        i <= n,
        decode_many::<T>(d, i) is Err,
    ensures
        decode_many::<T>(d, n) == decode_many::<T>(d, i),
    decreases n,
{
    if i < n {
        lemma_decode_many_err::<T>(d, i, (n - 1) as nat);
    }
}

/// Adding one item to a sequence adds its encoding at the end.
pub proof fn lemma_encode_seq_push<T: Encode>(s: Seq<T>, x: T)
    ensures
        encode_seq(s.push(x)) == encode_seq(s) + x.encoding(),
{
    assert(s.push(x).drop_last() =~= s);
}

/// Decoding a run of values from one state yields one run of values.
pub proof fn lemma_decodes_seq_unique<T: RoundTrip>(d: DecoderView, s: Seq<T>, t: Seq<T>)
    requires
        s.len() == t.len(),
        decodes_seq::<T>(d, s),
        decodes_seq::<T>(d, t),
    ensures
        all_same(s, t),
    decreases s.len(),
{
    if s.len() > 0 {
        lemma_decodes_seq_unique(d, s.drop_last(), t.drop_last());
        let d1 = decode_many::<T>(d, (s.len() - 1) as nat)->Ok_0;
        T::lemma_decodes_unique(d1, s.last(), t.last());
        assert forall|i: int| 0 <= i < s.len() implies #[trigger] s[i].same_value(t[i]) by {
            if i < s.len() - 1 {
                assert(s.drop_last()[i] == s[i]);
                assert(t.drop_last()[i] == t[i]);
            }
        }
    }
}

/// Decoding the items of `s` from a state whose cursor stands at their
/// encodings reads each of them back and moves past all of it.
pub proof fn lemma_roundtrip_seq<T: RoundTrip>(s: Seq<T>, d: DecoderView)
    requires
        all_encodable(s),
        all_fit(s, d.depth, d.limit),
        d.holds_at_cursor(encode_seq(s)),
    ensures
        decode_many::<T>(d, s.len()) == Ok::<DecoderView, DecodeError>(
            d.advance(encode_seq(s).len() as int),
        ),
        decodes_seq::<T>(d, s),
    decreases s.len(),
{
    if s.len() == 0 {
        assert(d.advance(0) == d);
    } else {
        let init = s.drop_last();
        let x = s.last();
        d.lemma_held_split(encode_seq(init), x.encoding());
        assert(all_encodable(init)) by {
            assert forall|i: int| 0 <= i < init.len() implies #[trigger] init[i].encodable() by {
                assert(init[i] == s[i]);
            }
        }
        assert(all_fit(init, d.depth, d.limit)) by {
            assert forall|i: int| 0 <= i < init.len() implies #[trigger] init[i].fits(
                d.depth,
                d.limit,
            ) by {
                assert(init[i] == s[i]);
            }
        }
        lemma_roundtrip_seq(init, d);
        let d1 = d.advance(encode_seq(init).len() as int);
        assert(x == s[s.len() - 1]);
        T::lemma_roundtrip(x, d1);
        assert(d1.advance(x.encoding().len() as int) == d.advance(encode_seq(s).len() as int));
    }
}

/// Encodes `value` and returns the result as a freshly allocated `Vec<u8>`.
pub fn to_bytes<T: Encode>(value: &T) -> (bytes: Vec<u8>)
    requires
        value.encodable(),
    ensures
        bytes@ == value.encoding(),
{
    let mut enc = BufEncoder::new();
    value.encode(&mut enc);
    enc.finish()
}

/// Decodes a value from a byte slice.
///
/// Does not require the entire slice to be consumed: use [`BufDecoder`]
/// directly if you need to check for trailing bytes.
pub fn from_bytes<T: Decode>(bytes: &[u8]) -> (r: Result<T, DecodeError>)
    requires
        T::decodable(),
    ensures
        match T::decode_outcome(DecoderView::fresh(bytes@)) {
            Ok(_) => r matches Ok(v) && T::decodes_as(DecoderView::fresh(bytes@), v),
            Err(e) => r matches Err(e2) && e2 == e,
        },
{
    let mut dec = BufDecoder::new(bytes);
    T::decode(&mut dec)
}

/// Decoding from a buffer that starts with the encoding of `v`, whatever
/// follows it, gives back `v` and stops right after that encoding: what
/// [`from_bytes`] does with the output of [`to_bytes`].
pub proof fn lemma_from_bytes_to_bytes<T: RoundTrip>(v: T, trailing: Seq<u8>)
    requires
        v.encodable(),
        v.fits(0, DEFAULT_COLLECTION_LIMIT),
    ensures
        T::decode_outcome(DecoderView::fresh(v.encoding() + trailing)) == Ok::<
            DecoderView,
            DecodeError,
        >(DecoderView::fresh(v.encoding() + trailing).advance(v.encoding().len() as int)),
        T::decodes_as(DecoderView::fresh(v.encoding() + trailing), v),
        forall|w: T| #[trigger]
            T::decodes_as(DecoderView::fresh(v.encoding() + trailing), w) ==> w.same_value(v),
{
    let d = DecoderView::fresh(v.encoding() + trailing);
    assert(d.buf.subrange(0, v.encoding().len() as int) =~= v.encoding());
    T::lemma_roundtrip(v, d);
    assert forall|w: T| #[trigger] T::decodes_as(d, w) implies w.same_value(v) by {
        T::lemma_decodes_unique(d, w, v);
    }
}

/// When every item of `s` encodes to `k` bytes, the items together encode to
/// `s.len() * k` bytes: an array `[T; N]` of such items takes `N * k` bytes.
pub proof fn lemma_encode_seq_len<T: Encode>(s: Seq<T>, k: nat)
    requires
        forall|i: int| 0 <= i < s.len() ==> (#[trigger] s[i].encoding()).len() == k,
    ensures
        encode_seq(s).len() == s.len() * k,
    decreases s.len(),
{
    if s.len() > 0 {
        let init = s.drop_last();
        assert forall|i: int| 0 <= i < init.len() implies (#[trigger] init[i].encoding()).len()
            == k by {
            assert(init[i] == s[i]);
        }
        lemma_encode_seq_len(init, k);
        assert(s.last() == s[s.len() - 1]);
        assert(init.len() * k + k == s.len() * k) by (nonlinear_arith)
            requires
                init.len() + 1 == s.len(),
        ;
    }
}

} // verus!
