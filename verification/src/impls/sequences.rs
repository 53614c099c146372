//! Encode + Decode for sequential collection types.

use crate::codec::{
    Decode, Encode, RoundTrip, all_encodable, all_fit, decode_many, decodes_seq, encode_seq,
    lemma_decode_many_err, lemma_encode_seq_push, lemma_roundtrip_seq, all_same,
    lemma_decodes_seq_unique,
};
use crate::decoder::{BufDecoder, DecoderView, MAX_DECODE_DEPTH};
use crate::encoder::BufEncoder;
use crate::error::DecodeError;
use crate::wire::{le_u32, lemma_u32_roundtrip};
use vstd::prelude::*;

verus! {

// ── Vec<T> ────────────────────────────────────────────────────────────────

impl<T: Encode> Encode for Vec<T> {
    /// The element count must fit in the `u32` prefix.
    open spec fn encodable(&self) -> bool {
        &&& self@.len() <= u32::MAX
        &&& all_encodable(self@)
    }

    /// Wire layout: `u32` element count, then each element in order.
    open spec fn encoding(&self) -> Seq<u8> {
        le_u32(self@.len() as u32) + encode_seq(self@)
    }

    fn encode(&self, enc: &mut BufEncoder) {
        let n = self.len();
        enc.write_u32(n as u32);
        let mut i: usize = 0;
        while i < n
            invariant
                n == self@.len(),
                i <= n,
                all_encodable(self@),
                enc@ == old(enc)@ + le_u32(n as u32) + encode_seq(self@.subrange(0, i as int)),
            decreases n - i,
        {
            let ghost before = enc@;
            self[i].encode(enc);
            proof {
                let done = self@.subrange(0, i as int);
                lemma_encode_seq_push(done, self@[i as int]);
                assert(self@.subrange(0, i + 1) =~= done.push(self@[i as int]));
                assert(enc@ =~= old(enc)@ + le_u32(n as u32) + encode_seq(
                    self@.subrange(0, i + 1),
                ));
            }
            i = i + 1;
        }
        assert(self@.subrange(0, n as int) =~= self@);
    }
}

impl<T: Decode> Decode for Vec<T> {
    open spec fn decodable() -> bool {
        T::decodable()
    }

    /// One nesting level is entered, the `u32` count is read and held
    /// against the collection limit, then that many elements are decoded
    /// and the level is left.
    open spec fn decode_outcome(d: DecoderView) -> Result<DecoderView, DecodeError> {
        match d.enter() {
            Err(e) => Err(e),
            Ok(d1) => match d1.read_u32() {
                Err(e) => Err(e),
                Ok((len, d2)) => if len > d2.limit {
                    Err(DecodeError::CollectionTooLarge { len, limit: d2.limit })
                } else {
                    match decode_many::<T>(d2, len as nat) {
                        Ok(d3) => Ok(d3.leave()),
                        Err(e) => Err(e),
                    }
                },
            },
        }
    }

    open spec fn decodes_as(d: DecoderView, v: Vec<T>) -> bool {
        match d.enter() {
            Ok(d1) => match d1.read_u32() {
                Ok((len, d2)) => v@.len() == len && decodes_seq::<T>(d2, v@),
                Err(_) => false,
            },
            Err(_) => false,
        }
    }

    fn decode(dec: &mut BufDecoder<'_>) -> (r: Result<Vec<T>, DecodeError>) {
        let ghost d0 = dec@;
        match dec.enter() {
            Ok(()) => {},
            Err(e) => {
                return Err(e);
            },
        }
        let ghost d1 = dec@;
        let len = match dec.read_u32() {
            Ok(n) => n,
            Err(e) => {
                return Err(e);
            },
        };
        let limit = dec.collection_limit();
        if len > limit {
            return Err(DecodeError::CollectionTooLarge { len, limit });
        }
        // Start small and grow as elements arrive rather than allocating
        // the full requested capacity upfront. Limits the damage from
        // large but otherwise valid length prefixes.
        let cap: usize = if len < 1024 {
            len as usize
        } else {
            1024
        };
        let mut out: Vec<T> = Vec::with_capacity(cap);
        let ghost d2 = dec@;
        let mut i: u32 = 0;
        while i < len
            invariant
                T::decodable(),
                d0 == old(dec)@,
                d0.enter() == Ok::<DecoderView, DecodeError>(d1),
                d1.read_u32() == Ok::<(u32, DecoderView), DecodeError>((len, d2)),
                len <= d2.limit,
                d2.depth == d0.depth + 1,
                i <= len,
                out@.len() == i,
                decode_many::<T>(d2, i as nat) == Ok::<DecoderView, DecodeError>(dec@),
                decodes_seq::<T>(d2, out@),
                dec@.depth == d2.depth,
                dec@.buf == d0.buf,
                dec@.limit == d0.limit,
            decreases len - i,
        {
            let ghost before = dec@;
            match T::decode(dec) {
                Ok(v) => {
                    proof {
                        assert(out@.push(v).drop_last() =~= out@);
                    }
                    out.push(v);
                },
                Err(e) => {
                    proof {
                        assert(T::decode_outcome(before) == Err::<DecoderView, DecodeError>(e));
                        assert(decode_many::<T>(d2, (i + 1) as nat) == T::decode_outcome(before));
                        lemma_decode_many_err::<T>(d2, (i + 1) as nat, len as nat);
                    }
                    return Err(e);
                },
            }
            i = i + 1;
        }
        dec.leave();
        Ok(out)
    }
}

impl<T: RoundTrip> RoundTrip for Vec<T> {
    open spec fn same_value(self, other: Vec<T>) -> bool {
        all_same(self@, other@)
    }

    proof fn lemma_decodes_unique(d: DecoderView, x: Vec<T>, y: Vec<T>) {
        let d1 = d.enter()->Ok_0;
        let d2 = d1.read_u32()->Ok_0.1;
        lemma_decodes_seq_unique(d2, x@, y@);
    }

    /// One more nesting level must be allowed, the element count must be
    /// within the limit, and every element must fit one level deeper.
    open spec fn fits(&self, depth: u32, limit: u32) -> bool {
        &&& depth < MAX_DECODE_DEPTH
        &&& self@.len() <= limit
        &&& all_fit(self@, (depth + 1) as u32, limit)
    }

    proof fn lemma_roundtrip(v: Vec<T>, d: DecoderView) {
        let n = v@.len() as u32;
        let body = encode_seq(v@);
        d.lemma_held_split(le_u32(n), body);
        let d1 = d.at_depth((d.depth + 1) as u32);
        d1.lemma_read_held(le_u32(n));
        lemma_u32_roundtrip(n);
        let d2 = d1.advance(4);
        lemma_roundtrip_seq(v@, d2);
        assert(d2.advance(body.len() as int).leave() == d.advance(v.encoding().len() as int));
    }
}

/// A vector is refused with `NestingTooDeep`, before anything is read, at
/// a decoder already [`MAX_DECODE_DEPTH`] levels deep; below that, its
/// elements are decoded one level deeper. With `lemma_enter_n`, vectors
/// nested `n` levels deep from depth `depth` get past every level's
/// nesting check exactly when `depth + n <= MAX_DECODE_DEPTH`.
pub proof fn lemma_vec_depth_limit<T: Decode>(d: DecoderView)
    ensures
        d.depth >= MAX_DECODE_DEPTH ==> <Vec<T> as Decode>::decode_outcome(d) == Err::<
            DecoderView,
            DecodeError,
        >(DecodeError::NestingTooDeep),
        d.depth < MAX_DECODE_DEPTH ==> d.enter() == Ok::<DecoderView, DecodeError>(
            d.at_depth((d.depth + 1) as u32),
        ),
{
}

} // verus!
