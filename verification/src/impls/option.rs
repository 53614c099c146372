//! Encode + Decode for `Option<T>`.

use crate::codec::{Decode, Encode, RoundTrip};
use crate::decoder::{BufDecoder, DecoderView};
use crate::encoder::BufEncoder;
use crate::error::DecodeError;
use vstd::prelude::*;

verus! {

impl<T: Encode> Encode for Option<T> {
    open spec fn encodable(&self) -> bool {
        match self {
            Some(v) => v.encodable(),
            None => true,
        }
    }

    /// `None` is `0x00`; `Some(v)` is `0x01` followed by the encoding of `v`.
    open spec fn encoding(&self) -> Seq<u8> {
        match self {
            None => seq![0u8],
            Some(v) => seq![1u8] + v.encoding(),
        }
    }

    fn encode(&self, enc: &mut BufEncoder) {
        match self {
            None => {
                enc.write_u8(0);
                assert(enc@ =~= old(enc)@ + seq![0u8]);
            },
            Some(v) => {
                enc.write_u8(1);
                v.encode(enc);
                assert(enc@ =~= old(enc)@ + (seq![1u8] + v.encoding()));
            },
        }
    }
}

impl<T: Decode> Decode for Option<T> {
    open spec fn decodable() -> bool {
        T::decodable()
    }

    /// The tag byte `0x00` is `None`, `0x01` is followed by the value, and any
    /// other tag is `InvalidBool`.
    open spec fn decode_outcome(d: DecoderView) -> Result<DecoderView, DecodeError> {
        match d.read_u8() {
            Ok((tag, d1)) => if tag == 0 {
                Ok(d1)
            } else if tag == 1 {
                T::decode_outcome(d1)
            } else {
                Err(DecodeError::InvalidBool(tag))
            },
            Err(e) => Err(e),
        }
    }

    open spec fn decodes_as(d: DecoderView, v: Option<T>) -> bool {
        match d.read_u8() {
            Ok((tag, d1)) => if tag == 0 {
                v is None
            } else {
                v matches Some(x) && T::decodes_as(d1, x)
            },
            Err(_) => false,
        }
    }

    fn decode(dec: &mut BufDecoder<'_>) -> (r: Result<Option<T>, DecodeError>) {
        match dec.read_u8() {
            Ok(0) => Ok(None),
            Ok(1) => match T::decode(dec) {
                Ok(v) => Ok(Some(v)),
                Err(e) => Err(e),
            },
            Ok(b) => Err(DecodeError::InvalidBool(b)),
            Err(e) => Err(e),
        }
    }
}

impl<T: RoundTrip> RoundTrip for Option<T> {
    open spec fn same_value(self, other: Option<T>) -> bool {
        match (self, other) {
            (None, None) => true,
            (Some(a), Some(b)) => a.same_value(b),
            _ => false,
        }
    }

    proof fn lemma_decodes_unique(d: DecoderView, x: Option<T>, y: Option<T>) {
        if let (Some(a), Some(b)) = (x, y) {
            T::lemma_decodes_unique(d.read_u8()->Ok_0.1, a, b);
        }
    }

    open spec fn fits(&self, depth: u32, limit: u32) -> bool {
        match self {
            Some(v) => v.fits(depth, limit),
            None => true,
        }
    }

    proof fn lemma_roundtrip(v: Option<T>, d: DecoderView) {
        match v {
            None => {
                d.lemma_read_held(seq![0u8]);
            },
            Some(x) => {
                d.lemma_held_split(seq![1u8], x.encoding());
                d.lemma_read_held(seq![1u8]);
                T::lemma_roundtrip(x, d.advance(1));
                assert(d.advance(1).advance(x.encoding().len() as int) == d.advance(
                    v.encoding().len() as int,
                ));
            },
        }
    }
}

} // verus!
