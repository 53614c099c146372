//! Encode + Decode for tuples of one to eight values.
//!
//! A tuple is its fields in order: no prefix, no padding.

use crate::codec::{Decode, Encode, RoundTrip};
use crate::decoder::{BufDecoder, DecoderView};
use crate::encoder::BufEncoder;
use crate::error::DecodeError;
use vstd::prelude::*;

verus! {

// ── 1-tuple ────────────────────────────────────────────────────────────

impl<A: Encode> Encode for (A,) {
    open spec fn encodable(&self) -> bool {
        self.0.encodable()
    }

    open spec fn encoding(&self) -> Seq<u8> {
        self.0.encoding()
    }

    fn encode(&self, enc: &mut BufEncoder) {
        self.0.encode(enc);
        assert(enc@ =~= old(enc)@ + self.encoding());
    }
}

impl<A: Decode> Decode for (A,) {
    open spec fn decodable() -> bool {
        A::decodable()
    }

    /// The fields, one after another.
    open spec fn decode_outcome(d0: DecoderView) -> Result<DecoderView, DecodeError> {
        A::decode_outcome(d0)
    }

    open spec fn decodes_as(d0: DecoderView, v: (A,)) -> bool {
        A::decodes_as(d0, v.0)
    }

    fn decode(dec: &mut BufDecoder<'_>) -> (r: Result<(A,), DecodeError>) {
        let x0 = match A::decode(dec) {
            Ok(x) => x,
            Err(e) => {
                return Err(e);
            },
        };
        Ok((x0,))
    }
}

impl<A: RoundTrip> RoundTrip for (A,) {
    open spec fn same_value(self, other: (A,)) -> bool {
        self.0.same_value(other.0)
    }

    proof fn lemma_decodes_unique(d: DecoderView, x: (A,), y: (A,)) {
        A::lemma_decodes_unique(d, x.0, y.0);
    }

    open spec fn fits(&self, depth: u32, limit: u32) -> bool {
        self.0.fits(depth, limit)
    }

    proof fn lemma_roundtrip(v: (A,), d: DecoderView) {
        let e0 = v.0.encoding();
        let p0 = e0;
        assert(v.encoding() == p0);
        A::lemma_roundtrip(v.0, d);
        assert(d.advance(e0.len() as int) == d.advance(p0.len() as int));
    }
}

// ── 2-tuple ────────────────────────────────────────────────────────────

impl<A: Encode, B: Encode> Encode for (A, B) {
    open spec fn encodable(&self) -> bool {
        self.0.encodable() && self.1.encodable()
    }

    open spec fn encoding(&self) -> Seq<u8> {
        self.0.encoding() + self.1.encoding()
    }

    fn encode(&self, enc: &mut BufEncoder) {
        self.0.encode(enc);
        self.1.encode(enc);
        assert(enc@ =~= old(enc)@ + self.encoding());
    }
}

impl<A: Decode, B: Decode> Decode for (A, B) {
    open spec fn decodable() -> bool {
        A::decodable() && B::decodable()
    }

    /// The fields, one after another.
    open spec fn decode_outcome(d0: DecoderView) -> Result<DecoderView, DecodeError> {
        match A::decode_outcome(d0) {
            Ok(d1) => B::decode_outcome(d1),
            Err(e) => Err(e),
        }
    }

    open spec fn decodes_as(d0: DecoderView, v: (A, B)) -> bool {
        A::decodes_as(d0, v.0) && match A::decode_outcome(d0) {
            Ok(d1) => B::decodes_as(d1, v.1),
            Err(_) => false,
        }
    }

    fn decode(dec: &mut BufDecoder<'_>) -> (r: Result<(A, B), DecodeError>) {
        let x0 = match A::decode(dec) {
            Ok(x) => x,
            Err(e) => {
                return Err(e);
            },
        };
        let x1 = match B::decode(dec) {
            Ok(x) => x,
            Err(e) => {
                return Err(e);
            },
        };
        Ok((x0, x1))
    }
}

impl<A: RoundTrip, B: RoundTrip> RoundTrip for (A, B) {
    open spec fn same_value(self, other: (A, B)) -> bool {
        self.0.same_value(other.0) && self.1.same_value(other.1)
    }

    proof fn lemma_decodes_unique(d: DecoderView, x: (A, B), y: (A, B)) {
        A::lemma_decodes_unique(d, x.0, y.0);
        let d1 = A::decode_outcome(d)->Ok_0;
        B::lemma_decodes_unique(d1, x.1, y.1);
    }

    open spec fn fits(&self, depth: u32, limit: u32) -> bool {
        self.0.fits(depth, limit) && self.1.fits(depth, limit)
    }

    proof fn lemma_roundtrip(v: (A, B), d: DecoderView) {
        let e0 = v.0.encoding();
        let e1 = v.1.encoding();
        let p0 = e0;
        let p1 = p0 + e1;
        assert(v.encoding() == p1);
        d.lemma_held_split(p0, e1);
        A::lemma_roundtrip(v.0, d);
        B::lemma_roundtrip(v.1, d.advance(p0.len() as int));
        assert(d.advance(e0.len() as int) == d.advance(p0.len() as int));
        assert(d.advance(p0.len() as int).advance(e1.len() as int) == d.advance(p1.len() as int));
    }
}

// ── 3-tuple ────────────────────────────────────────────────────────────

impl<A: Encode, B: Encode, C: Encode> Encode for (A, B, C) {
    open spec fn encodable(&self) -> bool {
        self.0.encodable() && self.1.encodable() && self.2.encodable()
    }

    open spec fn encoding(&self) -> Seq<u8> {
        self.0.encoding() + self.1.encoding() + self.2.encoding()
    }

    fn encode(&self, enc: &mut BufEncoder) {
        self.0.encode(enc);
        self.1.encode(enc);
        self.2.encode(enc);
        assert(enc@ =~= old(enc)@ + self.encoding());
    }
}

impl<A: Decode, B: Decode, C: Decode> Decode for (A, B, C) {
    open spec fn decodable() -> bool {
        A::decodable() && B::decodable() && C::decodable()
    }

    /// The fields, one after another.
    open spec fn decode_outcome(d0: DecoderView) -> Result<DecoderView, DecodeError> {
        match A::decode_outcome(d0) {
            Ok(d1) => match B::decode_outcome(d1) {
            Ok(d2) => C::decode_outcome(d2),
            Err(e) => Err(e),
        },
            Err(e) => Err(e),
        }
    }

    open spec fn decodes_as(d0: DecoderView, v: (A, B, C)) -> bool {
        A::decodes_as(d0, v.0) && match A::decode_outcome(d0) {
            Ok(d1) => B::decodes_as(d1, v.1) && match B::decode_outcome(d1) {
            Ok(d2) => C::decodes_as(d2, v.2),
            Err(_) => false,
        },
            Err(_) => false,
        }
    }

    fn decode(dec: &mut BufDecoder<'_>) -> (r: Result<(A, B, C), DecodeError>) {
        let x0 = match A::decode(dec) {
            Ok(x) => x,
            Err(e) => {
                return Err(e);
            },
        };
        let x1 = match B::decode(dec) {
            Ok(x) => x,
            Err(e) => {
                return Err(e);
            },
        };
        let x2 = match C::decode(dec) {
            Ok(x) => x,
            Err(e) => {
                return Err(e);
            },
        };
        Ok((x0, x1, x2))
    }
}

impl<A: RoundTrip, B: RoundTrip, C: RoundTrip> RoundTrip for (A, B, C) {
    open spec fn same_value(self, other: (A, B, C)) -> bool {
        self.0.same_value(other.0) && self.1.same_value(other.1) && self.2.same_value(other.2)
    }

    proof fn lemma_decodes_unique(d: DecoderView, x: (A, B, C), y: (A, B, C)) {
        A::lemma_decodes_unique(d, x.0, y.0);
        let d1 = A::decode_outcome(d)->Ok_0;
        B::lemma_decodes_unique(d1, x.1, y.1);
        let d2 = B::decode_outcome(d1)->Ok_0;
        C::lemma_decodes_unique(d2, x.2, y.2);
    }

    open spec fn fits(&self, depth: u32, limit: u32) -> bool {
        self.0.fits(depth, limit) && self.1.fits(depth, limit) && self.2.fits(depth, limit)
    }

    proof fn lemma_roundtrip(v: (A, B, C), d: DecoderView) {
        let e0 = v.0.encoding();
        let e1 = v.1.encoding();
        let e2 = v.2.encoding();
        let p0 = e0;
        let p1 = p0 + e1;
        let p2 = p1 + e2;
        assert(v.encoding() == p2);
        d.lemma_held_split(p1, e2);
        d.lemma_held_split(p0, e1);
        A::lemma_roundtrip(v.0, d);
        B::lemma_roundtrip(v.1, d.advance(p0.len() as int));
        assert(d.advance(e0.len() as int) == d.advance(p0.len() as int));
        C::lemma_roundtrip(v.2, d.advance(p1.len() as int));
        assert(d.advance(p0.len() as int).advance(e1.len() as int) == d.advance(p1.len() as int));
        assert(d.advance(p1.len() as int).advance(e2.len() as int) == d.advance(p2.len() as int));
    }
}

// ── 4-tuple ────────────────────────────────────────────────────────────

impl<A: Encode, B: Encode, C: Encode, D: Encode> Encode for (A, B, C, D) {
    open spec fn encodable(&self) -> bool {
        self.0.encodable() && self.1.encodable() && self.2.encodable() && self.3.encodable()
    }

    open spec fn encoding(&self) -> Seq<u8> {
        self.0.encoding() + self.1.encoding() + self.2.encoding() + self.3.encoding()
    }

    fn encode(&self, enc: &mut BufEncoder) {
        self.0.encode(enc);
        self.1.encode(enc);
        self.2.encode(enc);
        self.3.encode(enc);
        assert(enc@ =~= old(enc)@ + self.encoding());
    }
}

impl<A: Decode, B: Decode, C: Decode, D: Decode> Decode for (A, B, C, D) {
    open spec fn decodable() -> bool {
        A::decodable() && B::decodable() && C::decodable() && D::decodable()
    }

    /// The fields, one after another.
    open spec fn decode_outcome(d0: DecoderView) -> Result<DecoderView, DecodeError> {
        match A::decode_outcome(d0) {
            Ok(d1) => match B::decode_outcome(d1) {
            Ok(d2) => match C::decode_outcome(d2) {
            Ok(d3) => D::decode_outcome(d3),
            Err(e) => Err(e),
        },
            Err(e) => Err(e),
        },
            Err(e) => Err(e),
        }
    }

    open spec fn decodes_as(d0: DecoderView, v: (A, B, C, D)) -> bool {
        A::decodes_as(d0, v.0) && match A::decode_outcome(d0) {
            Ok(d1) => B::decodes_as(d1, v.1) && match B::decode_outcome(d1) {
            Ok(d2) => C::decodes_as(d2, v.2) && match C::decode_outcome(d2) {
            Ok(d3) => D::decodes_as(d3, v.3),
            Err(_) => false,
        },
            Err(_) => false,
        },
            Err(_) => false,
        }
    }

    fn decode(dec: &mut BufDecoder<'_>) -> (r: Result<(A, B, C, D), DecodeError>) {
        let x0 = match A::decode(dec) {
            Ok(x) => x,
            Err(e) => {
                return Err(e);
            },
        };
        let x1 = match B::decode(dec) {
            Ok(x) => x,
            Err(e) => {
                return Err(e);
            },
        };
        let x2 = match C::decode(dec) {
            Ok(x) => x,
            Err(e) => {
                return Err(e);
            },
        };
        let x3 = match D::decode(dec) {
            Ok(x) => x,
            Err(e) => {
                return Err(e);
            },
        };
        Ok((x0, x1, x2, x3))
    }
}

impl<A: RoundTrip, B: RoundTrip, C: RoundTrip, D: RoundTrip> RoundTrip for (A, B, C, D) {
    open spec fn same_value(self, other: (A, B, C, D)) -> bool {
        self.0.same_value(other.0) && self.1.same_value(other.1) && self.2.same_value(other.2) && self.3.same_value(other.3)
    }

    proof fn lemma_decodes_unique(d: DecoderView, x: (A, B, C, D), y: (A, B, C, D)) {
        A::lemma_decodes_unique(d, x.0, y.0);
        let d1 = A::decode_outcome(d)->Ok_0;
        B::lemma_decodes_unique(d1, x.1, y.1);
        let d2 = B::decode_outcome(d1)->Ok_0;
        C::lemma_decodes_unique(d2, x.2, y.2);
        let d3 = C::decode_outcome(d2)->Ok_0;
        D::lemma_decodes_unique(d3, x.3, y.3);
    }

    open spec fn fits(&self, depth: u32, limit: u32) -> bool {
        self.0.fits(depth, limit) && self.1.fits(depth, limit) && self.2.fits(depth, limit) && self.3.fits(depth, limit)
    }

    proof fn lemma_roundtrip(v: (A, B, C, D), d: DecoderView) {
        let e0 = v.0.encoding();
        let e1 = v.1.encoding();
        let e2 = v.2.encoding();
        let e3 = v.3.encoding();
        let p0 = e0;
        let p1 = p0 + e1;
        let p2 = p1 + e2;
        let p3 = p2 + e3;
        assert(v.encoding() == p3);
        d.lemma_held_split(p2, e3);
        d.lemma_held_split(p1, e2);
        d.lemma_held_split(p0, e1);
        A::lemma_roundtrip(v.0, d);
        B::lemma_roundtrip(v.1, d.advance(p0.len() as int));
        assert(d.advance(e0.len() as int) == d.advance(p0.len() as int));
        C::lemma_roundtrip(v.2, d.advance(p1.len() as int));
        assert(d.advance(p0.len() as int).advance(e1.len() as int) == d.advance(p1.len() as int));
        D::lemma_roundtrip(v.3, d.advance(p2.len() as int));
        assert(d.advance(p1.len() as int).advance(e2.len() as int) == d.advance(p2.len() as int));
        assert(d.advance(p2.len() as int).advance(e3.len() as int) == d.advance(p3.len() as int));
    }
}

// ── 5-tuple ────────────────────────────────────────────────────────────

impl<A: Encode, B: Encode, C: Encode, D: Encode, E: Encode> Encode for (A, B, C, D, E) {
    open spec fn encodable(&self) -> bool {
        self.0.encodable() && self.1.encodable() && self.2.encodable() && self.3.encodable() && self.4.encodable()
    }

    open spec fn encoding(&self) -> Seq<u8> {
        self.0.encoding() + self.1.encoding() + self.2.encoding() + self.3.encoding() + self.4.encoding()
    }

    fn encode(&self, enc: &mut BufEncoder) {
        self.0.encode(enc);
        self.1.encode(enc);
        self.2.encode(enc);
        self.3.encode(enc);
        self.4.encode(enc);
        assert(enc@ =~= old(enc)@ + self.encoding());
    }
}

impl<A: Decode, B: Decode, C: Decode, D: Decode, E: Decode> Decode for (A, B, C, D, E) {
    open spec fn decodable() -> bool {
        A::decodable() && B::decodable() && C::decodable() && D::decodable() && E::decodable()
    }

    /// The fields, one after another.
    open spec fn decode_outcome(d0: DecoderView) -> Result<DecoderView, DecodeError> {
        match A::decode_outcome(d0) {
            Ok(d1) => match B::decode_outcome(d1) {
            Ok(d2) => match C::decode_outcome(d2) {
            Ok(d3) => match D::decode_outcome(d3) {
            Ok(d4) => E::decode_outcome(d4),
            Err(e) => Err(e),
        },
            Err(e) => Err(e),
        },
            Err(e) => Err(e),
        },
            Err(e) => Err(e),
        }
    }

    open spec fn decodes_as(d0: DecoderView, v: (A, B, C, D, E)) -> bool {
        A::decodes_as(d0, v.0) && match A::decode_outcome(d0) {
            Ok(d1) => B::decodes_as(d1, v.1) && match B::decode_outcome(d1) {
            Ok(d2) => C::decodes_as(d2, v.2) && match C::decode_outcome(d2) {
            Ok(d3) => D::decodes_as(d3, v.3) && match D::decode_outcome(d3) {
            Ok(d4) => E::decodes_as(d4, v.4),
            Err(_) => false,
        },
            Err(_) => false,
        },
            Err(_) => false,
        },
            Err(_) => false,
        }
    }

    fn decode(dec: &mut BufDecoder<'_>) -> (r: Result<(A, B, C, D, E), DecodeError>) {
        let x0 = match A::decode(dec) {
            Ok(x) => x,
            Err(e) => {
                return Err(e);
            },
        };
        let x1 = match B::decode(dec) {
            Ok(x) => x,
            Err(e) => {
                return Err(e);
            },
        };
        let x2 = match C::decode(dec) {
            Ok(x) => x,
            Err(e) => {
                return Err(e);
            },
        };
        let x3 = match D::decode(dec) {
            Ok(x) => x,
            Err(e) => {
                return Err(e);
            },
        };
        let x4 = match E::decode(dec) {
            Ok(x) => x,
            Err(e) => {
                return Err(e);
            },
        };
        Ok((x0, x1, x2, x3, x4))
    }
}

impl<A: RoundTrip, B: RoundTrip, C: RoundTrip, D: RoundTrip, E: RoundTrip> RoundTrip for (A, B, C, D, E) {
    open spec fn same_value(self, other: (A, B, C, D, E)) -> bool {
        self.0.same_value(other.0) && self.1.same_value(other.1) && self.2.same_value(other.2) && self.3.same_value(other.3) && self.4.same_value(other.4)
    }

    proof fn lemma_decodes_unique(d: DecoderView, x: (A, B, C, D, E), y: (A, B, C, D, E)) {
        A::lemma_decodes_unique(d, x.0, y.0);
        let d1 = A::decode_outcome(d)->Ok_0;
        B::lemma_decodes_unique(d1, x.1, y.1);
        let d2 = B::decode_outcome(d1)->Ok_0;
        C::lemma_decodes_unique(d2, x.2, y.2);
        let d3 = C::decode_outcome(d2)->Ok_0;
        D::lemma_decodes_unique(d3, x.3, y.3);
        let d4 = D::decode_outcome(d3)->Ok_0;
        E::lemma_decodes_unique(d4, x.4, y.4);
    }

    open spec fn fits(&self, depth: u32, limit: u32) -> bool {
        self.0.fits(depth, limit) && self.1.fits(depth, limit) && self.2.fits(depth, limit) && self.3.fits(depth, limit) && self.4.fits(depth, limit)
    }

    proof fn lemma_roundtrip(v: (A, B, C, D, E), d: DecoderView) {
        let e0 = v.0.encoding();
        let e1 = v.1.encoding();
        let e2 = v.2.encoding();
        let e3 = v.3.encoding();
        let e4 = v.4.encoding();
        let p0 = e0;
        let p1 = p0 + e1;
        let p2 = p1 + e2;
        let p3 = p2 + e3;
        let p4 = p3 + e4;
        assert(v.encoding() == p4);
        d.lemma_held_split(p3, e4);
        d.lemma_held_split(p2, e3);
        d.lemma_held_split(p1, e2);
        d.lemma_held_split(p0, e1);
        A::lemma_roundtrip(v.0, d);
        B::lemma_roundtrip(v.1, d.advance(p0.len() as int));
        assert(d.advance(e0.len() as int) == d.advance(p0.len() as int));
        C::lemma_roundtrip(v.2, d.advance(p1.len() as int));
        assert(d.advance(p0.len() as int).advance(e1.len() as int) == d.advance(p1.len() as int));
        D::lemma_roundtrip(v.3, d.advance(p2.len() as int));
        assert(d.advance(p1.len() as int).advance(e2.len() as int) == d.advance(p2.len() as int));
        E::lemma_roundtrip(v.4, d.advance(p3.len() as int));
        assert(d.advance(p2.len() as int).advance(e3.len() as int) == d.advance(p3.len() as int));
        assert(d.advance(p3.len() as int).advance(e4.len() as int) == d.advance(p4.len() as int));
    }
}

// ── 6-tuple ────────────────────────────────────────────────────────────

impl<A: Encode, B: Encode, C: Encode, D: Encode, E: Encode, F: Encode> Encode for (A, B, C, D, E, F) {
    open spec fn encodable(&self) -> bool {
        self.0.encodable() && self.1.encodable() && self.2.encodable() && self.3.encodable() && self.4.encodable() && self.5.encodable()
    }

    open spec fn encoding(&self) -> Seq<u8> {
        self.0.encoding() + self.1.encoding() + self.2.encoding() + self.3.encoding() + self.4.encoding() + self.5.encoding()
    }

    fn encode(&self, enc: &mut BufEncoder) {
        self.0.encode(enc);
        self.1.encode(enc);
        self.2.encode(enc);
        self.3.encode(enc);
        self.4.encode(enc);
        self.5.encode(enc);
        assert(enc@ =~= old(enc)@ + self.encoding());
    }
}

impl<A: Decode, B: Decode, C: Decode, D: Decode, E: Decode, F: Decode> Decode for (A, B, C, D, E, F) {
    open spec fn decodable() -> bool {
        A::decodable() && B::decodable() && C::decodable() && D::decodable() && E::decodable() && F::decodable()
    }

    /// The fields, one after another.
    open spec fn decode_outcome(d0: DecoderView) -> Result<DecoderView, DecodeError> {
        match A::decode_outcome(d0) {
            Ok(d1) => match B::decode_outcome(d1) {
            Ok(d2) => match C::decode_outcome(d2) {
            Ok(d3) => match D::decode_outcome(d3) {
            Ok(d4) => match E::decode_outcome(d4) {
            Ok(d5) => F::decode_outcome(d5),
            Err(e) => Err(e),
        },
            Err(e) => Err(e),
        },
            Err(e) => Err(e),
        },
            Err(e) => Err(e),
        },
            Err(e) => Err(e),
        }
    }

    open spec fn decodes_as(d0: DecoderView, v: (A, B, C, D, E, F)) -> bool {
        A::decodes_as(d0, v.0) && match A::decode_outcome(d0) {
            Ok(d1) => B::decodes_as(d1, v.1) && match B::decode_outcome(d1) {
            Ok(d2) => C::decodes_as(d2, v.2) && match C::decode_outcome(d2) {
            Ok(d3) => D::decodes_as(d3, v.3) && match D::decode_outcome(d3) {
            Ok(d4) => E::decodes_as(d4, v.4) && match E::decode_outcome(d4) {
            Ok(d5) => F::decodes_as(d5, v.5),
            Err(_) => false,
        },
            Err(_) => false,
        },
            Err(_) => false,
        },
            Err(_) => false,
        },
            Err(_) => false,
        }
    }

    fn decode(dec: &mut BufDecoder<'_>) -> (r: Result<(A, B, C, D, E, F), DecodeError>) {
        let x0 = match A::decode(dec) {
            Ok(x) => x,
            Err(e) => {
                return Err(e);
            },
        };
        let x1 = match B::decode(dec) {
            Ok(x) => x,
            Err(e) => {
                return Err(e);
            },
        };
        let x2 = match C::decode(dec) {
            Ok(x) => x,
            Err(e) => {
                return Err(e);
            },
        };
        let x3 = match D::decode(dec) {
            Ok(x) => x,
            Err(e) => {
                return Err(e);
            },
        };
        let x4 = match E::decode(dec) {
            Ok(x) => x,
            Err(e) => {
                return Err(e);
            },
        };
        let x5 = match F::decode(dec) {
            Ok(x) => x,
            Err(e) => {
                return Err(e);
            },
        };
        Ok((x0, x1, x2, x3, x4, x5))
    }
}

impl<A: RoundTrip, B: RoundTrip, C: RoundTrip, D: RoundTrip, E: RoundTrip, F: RoundTrip> RoundTrip for (A, B, C, D, E, F) {
    open spec fn same_value(self, other: (A, B, C, D, E, F)) -> bool {
        self.0.same_value(other.0) && self.1.same_value(other.1) && self.2.same_value(other.2) && self.3.same_value(other.3) && self.4.same_value(other.4) && self.5.same_value(other.5)
    }

    proof fn lemma_decodes_unique(d: DecoderView, x: (A, B, C, D, E, F), y: (A, B, C, D, E, F)) {
        A::lemma_decodes_unique(d, x.0, y.0);
        let d1 = A::decode_outcome(d)->Ok_0;
        B::lemma_decodes_unique(d1, x.1, y.1);
        let d2 = B::decode_outcome(d1)->Ok_0;
        C::lemma_decodes_unique(d2, x.2, y.2);
        let d3 = C::decode_outcome(d2)->Ok_0;
        D::lemma_decodes_unique(d3, x.3, y.3);
        let d4 = D::decode_outcome(d3)->Ok_0;
        E::lemma_decodes_unique(d4, x.4, y.4);
        let d5 = E::decode_outcome(d4)->Ok_0;
        F::lemma_decodes_unique(d5, x.5, y.5);
    }

    open spec fn fits(&self, depth: u32, limit: u32) -> bool {
        self.0.fits(depth, limit) && self.1.fits(depth, limit) && self.2.fits(depth, limit) && self.3.fits(depth, limit) && self.4.fits(depth, limit) && self.5.fits(depth, limit)
    }

    proof fn lemma_roundtrip(v: (A, B, C, D, E, F), d: DecoderView) {
        let e0 = v.0.encoding();
        let e1 = v.1.encoding();
        let e2 = v.2.encoding();
        let e3 = v.3.encoding();
        let e4 = v.4.encoding();
        let e5 = v.5.encoding();
        let p0 = e0;
        let p1 = p0 + e1;
        let p2 = p1 + e2;
        let p3 = p2 + e3;
        let p4 = p3 + e4;
        let p5 = p4 + e5;
        assert(v.encoding() == p5);
        d.lemma_held_split(p4, e5);
        d.lemma_held_split(p3, e4);
        d.lemma_held_split(p2, e3);
        d.lemma_held_split(p1, e2);
        d.lemma_held_split(p0, e1);
        A::lemma_roundtrip(v.0, d);
        B::lemma_roundtrip(v.1, d.advance(p0.len() as int));
        assert(d.advance(e0.len() as int) == d.advance(p0.len() as int));
        C::lemma_roundtrip(v.2, d.advance(p1.len() as int));
        assert(d.advance(p0.len() as int).advance(e1.len() as int) == d.advance(p1.len() as int));
        D::lemma_roundtrip(v.3, d.advance(p2.len() as int));
        assert(d.advance(p1.len() as int).advance(e2.len() as int) == d.advance(p2.len() as int));
        E::lemma_roundtrip(v.4, d.advance(p3.len() as int));
        assert(d.advance(p2.len() as int).advance(e3.len() as int) == d.advance(p3.len() as int));
        F::lemma_roundtrip(v.5, d.advance(p4.len() as int));
        assert(d.advance(p3.len() as int).advance(e4.len() as int) == d.advance(p4.len() as int));
        assert(d.advance(p4.len() as int).advance(e5.len() as int) == d.advance(p5.len() as int));
    }
}

// ── 7-tuple ────────────────────────────────────────────────────────────

impl<A: Encode, B: Encode, C: Encode, D: Encode, E: Encode, F: Encode, G: Encode> Encode for (A, B, C, D, E, F, G) {
    open spec fn encodable(&self) -> bool {
        self.0.encodable() && self.1.encodable() && self.2.encodable() && self.3.encodable() && self.4.encodable() && self.5.encodable() && self.6.encodable()
    }

    open spec fn encoding(&self) -> Seq<u8> {
        self.0.encoding() + self.1.encoding() + self.2.encoding() + self.3.encoding() + self.4.encoding() + self.5.encoding() + self.6.encoding()
    }

    fn encode(&self, enc: &mut BufEncoder) {
        self.0.encode(enc);
        self.1.encode(enc);
        self.2.encode(enc);
        self.3.encode(enc);
        self.4.encode(enc);
        self.5.encode(enc);
        self.6.encode(enc);
        assert(enc@ =~= old(enc)@ + self.encoding());
    }
}

impl<A: Decode, B: Decode, C: Decode, D: Decode, E: Decode, F: Decode, G: Decode> Decode for (A, B, C, D, E, F, G) {
    open spec fn decodable() -> bool {
        A::decodable() && B::decodable() && C::decodable() && D::decodable() && E::decodable() && F::decodable() && G::decodable()
    }

    /// The fields, one after another.
    open spec fn decode_outcome(d0: DecoderView) -> Result<DecoderView, DecodeError> {
        match A::decode_outcome(d0) {
            Ok(d1) => match B::decode_outcome(d1) {
            Ok(d2) => match C::decode_outcome(d2) {
            Ok(d3) => match D::decode_outcome(d3) {
            Ok(d4) => match E::decode_outcome(d4) {
            Ok(d5) => match F::decode_outcome(d5) {
            Ok(d6) => G::decode_outcome(d6),
            Err(e) => Err(e),
        },
            Err(e) => Err(e),
        },
            Err(e) => Err(e),
        },
            Err(e) => Err(e),
        },
            Err(e) => Err(e),
        },
            Err(e) => Err(e),
        }
    }

    open spec fn decodes_as(d0: DecoderView, v: (A, B, C, D, E, F, G)) -> bool {
        A::decodes_as(d0, v.0) && match A::decode_outcome(d0) {
            Ok(d1) => B::decodes_as(d1, v.1) && match B::decode_outcome(d1) {
            Ok(d2) => C::decodes_as(d2, v.2) && match C::decode_outcome(d2) {
            Ok(d3) => D::decodes_as(d3, v.3) && match D::decode_outcome(d3) {
            Ok(d4) => E::decodes_as(d4, v.4) && match E::decode_outcome(d4) {
            Ok(d5) => F::decodes_as(d5, v.5) && match F::decode_outcome(d5) {
            Ok(d6) => G::decodes_as(d6, v.6),
            Err(_) => false,
        },
            Err(_) => false,
        },
            Err(_) => false,
        },
            Err(_) => false,
        },
            Err(_) => false,
        },
            Err(_) => false,
        }
    }

    fn decode(dec: &mut BufDecoder<'_>) -> (r: Result<(A, B, C, D, E, F, G), DecodeError>) {
        let x0 = match A::decode(dec) {
            Ok(x) => x,
            Err(e) => {
                return Err(e);
            },
        };
        let x1 = match B::decode(dec) {
            Ok(x) => x,
            Err(e) => {
                return Err(e);
            },
        };
        let x2 = match C::decode(dec) {
            Ok(x) => x,
            Err(e) => {
                return Err(e);
            },
        };
        let x3 = match D::decode(dec) {
            Ok(x) => x,
            Err(e) => {
                return Err(e);
            },
        };
        let x4 = match E::decode(dec) {
            Ok(x) => x,
            Err(e) => {
                return Err(e);
            },
        };
        let x5 = match F::decode(dec) {
            Ok(x) => x,
            Err(e) => {
                return Err(e);
            },
        };
        let x6 = match G::decode(dec) {
            Ok(x) => x,
            Err(e) => {
                return Err(e);
            },
        };
        Ok((x0, x1, x2, x3, x4, x5, x6))
    }
}

impl<A: RoundTrip, B: RoundTrip, C: RoundTrip, D: RoundTrip, E: RoundTrip, F: RoundTrip, G: RoundTrip> RoundTrip for (A, B, C, D, E, F, G) {
    open spec fn same_value(self, other: (A, B, C, D, E, F, G)) -> bool {
        self.0.same_value(other.0) && self.1.same_value(other.1) && self.2.same_value(other.2) && self.3.same_value(other.3) && self.4.same_value(other.4) && self.5.same_value(other.5) && self.6.same_value(other.6)
    }

    proof fn lemma_decodes_unique(d: DecoderView, x: (A, B, C, D, E, F, G), y: (A, B, C, D, E, F, G)) {
        A::lemma_decodes_unique(d, x.0, y.0);
        let d1 = A::decode_outcome(d)->Ok_0;
        B::lemma_decodes_unique(d1, x.1, y.1);
        let d2 = B::decode_outcome(d1)->Ok_0;
        C::lemma_decodes_unique(d2, x.2, y.2);
        let d3 = C::decode_outcome(d2)->Ok_0;
        D::lemma_decodes_unique(d3, x.3, y.3);
        let d4 = D::decode_outcome(d3)->Ok_0;
        E::lemma_decodes_unique(d4, x.4, y.4);
        let d5 = E::decode_outcome(d4)->Ok_0;
        F::lemma_decodes_unique(d5, x.5, y.5);
        let d6 = F::decode_outcome(d5)->Ok_0;
        G::lemma_decodes_unique(d6, x.6, y.6);
    }

    open spec fn fits(&self, depth: u32, limit: u32) -> bool {
        self.0.fits(depth, limit) && self.1.fits(depth, limit) && self.2.fits(depth, limit) && self.3.fits(depth, limit) && self.4.fits(depth, limit) && self.5.fits(depth, limit) && self.6.fits(depth, limit)
    }

    proof fn lemma_roundtrip(v: (A, B, C, D, E, F, G), d: DecoderView) {
        let e0 = v.0.encoding();
        let e1 = v.1.encoding();
        let e2 = v.2.encoding();
        let e3 = v.3.encoding();
        let e4 = v.4.encoding();
        let e5 = v.5.encoding();
        let e6 = v.6.encoding();
        let p0 = e0;
        let p1 = p0 + e1;
        let p2 = p1 + e2;
        let p3 = p2 + e3;
        let p4 = p3 + e4;
        let p5 = p4 + e5;
        let p6 = p5 + e6;
        assert(v.encoding() == p6);
        d.lemma_held_split(p5, e6);
        d.lemma_held_split(p4, e5);
        d.lemma_held_split(p3, e4);
        d.lemma_held_split(p2, e3);
        d.lemma_held_split(p1, e2);
        d.lemma_held_split(p0, e1);
        A::lemma_roundtrip(v.0, d);
        B::lemma_roundtrip(v.1, d.advance(p0.len() as int));
        assert(d.advance(e0.len() as int) == d.advance(p0.len() as int));
        C::lemma_roundtrip(v.2, d.advance(p1.len() as int));
        assert(d.advance(p0.len() as int).advance(e1.len() as int) == d.advance(p1.len() as int));
        D::lemma_roundtrip(v.3, d.advance(p2.len() as int));
        assert(d.advance(p1.len() as int).advance(e2.len() as int) == d.advance(p2.len() as int));
        E::lemma_roundtrip(v.4, d.advance(p3.len() as int));
        assert(d.advance(p2.len() as int).advance(e3.len() as int) == d.advance(p3.len() as int));
        F::lemma_roundtrip(v.5, d.advance(p4.len() as int));
        assert(d.advance(p3.len() as int).advance(e4.len() as int) == d.advance(p4.len() as int));
        G::lemma_roundtrip(v.6, d.advance(p5.len() as int));
        assert(d.advance(p4.len() as int).advance(e5.len() as int) == d.advance(p5.len() as int));
        assert(d.advance(p5.len() as int).advance(e6.len() as int) == d.advance(p6.len() as int));
    }
}

// ── 8-tuple ────────────────────────────────────────────────────────────

impl<A: Encode, B: Encode, C: Encode, D: Encode, E: Encode, F: Encode, G: Encode, H: Encode> Encode for (A, B, C, D, E, F, G, H) {
    open spec fn encodable(&self) -> bool {
        self.0.encodable() && self.1.encodable() && self.2.encodable() && self.3.encodable() && self.4.encodable() && self.5.encodable() && self.6.encodable() && self.7.encodable()
    }

    open spec fn encoding(&self) -> Seq<u8> {
        self.0.encoding() + self.1.encoding() + self.2.encoding() + self.3.encoding() + self.4.encoding() + self.5.encoding() + self.6.encoding() + self.7.encoding()
    }

    fn encode(&self, enc: &mut BufEncoder) {
        self.0.encode(enc);
        self.1.encode(enc);
        self.2.encode(enc);
        self.3.encode(enc);
        self.4.encode(enc);
        self.5.encode(enc);
        self.6.encode(enc);
        self.7.encode(enc);
        assert(enc@ =~= old(enc)@ + self.encoding());
    }
}

impl<A: Decode, B: Decode, C: Decode, D: Decode, E: Decode, F: Decode, G: Decode, H: Decode> Decode for (A, B, C, D, E, F, G, H) {
    open spec fn decodable() -> bool {
        A::decodable() && B::decodable() && C::decodable() && D::decodable() && E::decodable() && F::decodable() && G::decodable() && H::decodable()
    }

    /// The fields, one after another.
    open spec fn decode_outcome(d0: DecoderView) -> Result<DecoderView, DecodeError> {
        match A::decode_outcome(d0) {
            Ok(d1) => match B::decode_outcome(d1) {
            Ok(d2) => match C::decode_outcome(d2) {
            Ok(d3) => match D::decode_outcome(d3) {
            Ok(d4) => match E::decode_outcome(d4) {
            Ok(d5) => match F::decode_outcome(d5) {
            Ok(d6) => match G::decode_outcome(d6) {
            Ok(d7) => H::decode_outcome(d7),
            Err(e) => Err(e),
        },
            Err(e) => Err(e),
        },
            Err(e) => Err(e),
        },
            Err(e) => Err(e),
        },
            Err(e) => Err(e),
        },
            Err(e) => Err(e),
        },
            Err(e) => Err(e),
        }
    }

    open spec fn decodes_as(d0: DecoderView, v: (A, B, C, D, E, F, G, H)) -> bool {
        A::decodes_as(d0, v.0) && match A::decode_outcome(d0) {
            Ok(d1) => B::decodes_as(d1, v.1) && match B::decode_outcome(d1) {
            Ok(d2) => C::decodes_as(d2, v.2) && match C::decode_outcome(d2) {
            Ok(d3) => D::decodes_as(d3, v.3) && match D::decode_outcome(d3) {
            Ok(d4) => E::decodes_as(d4, v.4) && match E::decode_outcome(d4) {
            Ok(d5) => F::decodes_as(d5, v.5) && match F::decode_outcome(d5) {
            Ok(d6) => G::decodes_as(d6, v.6) && match G::decode_outcome(d6) {
            Ok(d7) => H::decodes_as(d7, v.7),
            Err(_) => false,
        },
            Err(_) => false,
        },
            Err(_) => false,
        },
            Err(_) => false,
        },
            Err(_) => false,
        },
            Err(_) => false,
        },
            Err(_) => false,
        }
    }

    fn decode(dec: &mut BufDecoder<'_>) -> (r: Result<(A, B, C, D, E, F, G, H), DecodeError>) {
        let x0 = match A::decode(dec) {
            Ok(x) => x,
            Err(e) => {
                return Err(e);
            },
        };
        let x1 = match B::decode(dec) {
            Ok(x) => x,
            Err(e) => {
                return Err(e);
            },
        };
        let x2 = match C::decode(dec) {
            Ok(x) => x,
            Err(e) => {
                return Err(e);
            },
        };
        let x3 = match D::decode(dec) {
            Ok(x) => x,
            Err(e) => {
                return Err(e);
            },
        };
        let x4 = match E::decode(dec) {
            Ok(x) => x,
            Err(e) => {
                return Err(e);
            },
        };
        let x5 = match F::decode(dec) {
            Ok(x) => x,
            Err(e) => {
                return Err(e);
            },
        };
        let x6 = match G::decode(dec) {
            Ok(x) => x,
            Err(e) => {
                return Err(e);
            },
        };
        let x7 = match H::decode(dec) {
            Ok(x) => x,
            Err(e) => {
                return Err(e);
            },
        };
        Ok((x0, x1, x2, x3, x4, x5, x6, x7))
    }
}

impl<A: RoundTrip, B: RoundTrip, C: RoundTrip, D: RoundTrip, E: RoundTrip, F: RoundTrip, G: RoundTrip, H: RoundTrip> RoundTrip for (A, B, C, D, E, F, G, H) {
    open spec fn same_value(self, other: (A, B, C, D, E, F, G, H)) -> bool {
        self.0.same_value(other.0) && self.1.same_value(other.1) && self.2.same_value(other.2) && self.3.same_value(other.3) && self.4.same_value(other.4) && self.5.same_value(other.5) && self.6.same_value(other.6) && self.7.same_value(other.7)
    }

    proof fn lemma_decodes_unique(d: DecoderView, x: (A, B, C, D, E, F, G, H), y: (A, B, C, D, E, F, G, H)) {
        A::lemma_decodes_unique(d, x.0, y.0);
        let d1 = A::decode_outcome(d)->Ok_0;
        B::lemma_decodes_unique(d1, x.1, y.1);
        let d2 = B::decode_outcome(d1)->Ok_0;
        C::lemma_decodes_unique(d2, x.2, y.2);
        let d3 = C::decode_outcome(d2)->Ok_0;
        D::lemma_decodes_unique(d3, x.3, y.3);
        let d4 = D::decode_outcome(d3)->Ok_0;
        E::lemma_decodes_unique(d4, x.4, y.4);
        let d5 = E::decode_outcome(d4)->Ok_0;
        F::lemma_decodes_unique(d5, x.5, y.5);
        let d6 = F::decode_outcome(d5)->Ok_0;
        G::lemma_decodes_unique(d6, x.6, y.6);
        let d7 = G::decode_outcome(d6)->Ok_0;
        H::lemma_decodes_unique(d7, x.7, y.7);
    }

    open spec fn fits(&self, depth: u32, limit: u32) -> bool {
        self.0.fits(depth, limit) && self.1.fits(depth, limit) && self.2.fits(depth, limit) && self.3.fits(depth, limit) && self.4.fits(depth, limit) && self.5.fits(depth, limit) && self.6.fits(depth, limit) && self.7.fits(depth, limit)
    }

    proof fn lemma_roundtrip(v: (A, B, C, D, E, F, G, H), d: DecoderView) {
        let e0 = v.0.encoding();
        let e1 = v.1.encoding();
        let e2 = v.2.encoding();
        let e3 = v.3.encoding();
        let e4 = v.4.encoding();
        let e5 = v.5.encoding();
        let e6 = v.6.encoding();
        let e7 = v.7.encoding();
        let p0 = e0;
        let p1 = p0 + e1;
        let p2 = p1 + e2;
        let p3 = p2 + e3;
        let p4 = p3 + e4;
        let p5 = p4 + e5;
        let p6 = p5 + e6;
        let p7 = p6 + e7;
        assert(v.encoding() == p7);
        d.lemma_held_split(p6, e7);
        d.lemma_held_split(p5, e6);
        d.lemma_held_split(p4, e5);
        d.lemma_held_split(p3, e4);
        d.lemma_held_split(p2, e3);
        d.lemma_held_split(p1, e2);
        d.lemma_held_split(p0, e1);
        A::lemma_roundtrip(v.0, d);
        B::lemma_roundtrip(v.1, d.advance(p0.len() as int));
        assert(d.advance(e0.len() as int) == d.advance(p0.len() as int));
        C::lemma_roundtrip(v.2, d.advance(p1.len() as int));
        assert(d.advance(p0.len() as int).advance(e1.len() as int) == d.advance(p1.len() as int));
        D::lemma_roundtrip(v.3, d.advance(p2.len() as int));
        assert(d.advance(p1.len() as int).advance(e2.len() as int) == d.advance(p2.len() as int));
        E::lemma_roundtrip(v.4, d.advance(p3.len() as int));
        assert(d.advance(p2.len() as int).advance(e3.len() as int) == d.advance(p3.len() as int));
        F::lemma_roundtrip(v.5, d.advance(p4.len() as int));
        assert(d.advance(p3.len() as int).advance(e4.len() as int) == d.advance(p4.len() as int));
        G::lemma_roundtrip(v.6, d.advance(p5.len() as int));
        assert(d.advance(p4.len() as int).advance(e5.len() as int) == d.advance(p5.len() as int));
        H::lemma_roundtrip(v.7, d.advance(p6.len() as int));
        assert(d.advance(p5.len() as int).advance(e6.len() as int) == d.advance(p6.len() as int));
        assert(d.advance(p6.len() as int).advance(e7.len() as int) == d.advance(p7.len() as int));
    }
}

// ── the layout of a tuple ─────────────────────────────────────────────────

/// A 1-tuple is its fields' encodings in index order, with no prefix.
/// Decoding reads field 0 at the starting state and each later field where
/// the one before it ended; the first failing field's error is the result.
pub proof fn lemma_tuple1_wire<A: Decode + Encode>(v: (A,), d: DecoderView)
    ensures
        v.encoding() == v.0.encoding(),
        <(A,) as Decode>::decode_outcome(d) == A::decode_outcome(d),
        <(A,) as Decode>::decodes_as(d, v) <==> (A::decodes_as(d, v.0)),
{
}

/// A 2-tuple is its fields' encodings in index order, with no prefix.
/// Decoding reads field 0 at the starting state and each later field where
/// the one before it ended; the first failing field's error is the result.
pub proof fn lemma_tuple2_wire<A: Decode + Encode, B: Decode + Encode>(v: (A, B), d: DecoderView)
    ensures
        v.encoding() == v.0.encoding() + v.1.encoding(),
        <(A, B) as Decode>::decode_outcome(d) == match A::decode_outcome(d) {
            Ok(d1) => B::decode_outcome(d1),
            Err(e) => Err(e),
        },
        <(A, B) as Decode>::decodes_as(d, v) <==> (A::decodes_as(d, v.0) && (A::decode_outcome(d) matches Ok(d1) && B::decodes_as(d1, v.1))),
{
}

/// A 3-tuple is its fields' encodings in index order, with no prefix.
/// Decoding reads field 0 at the starting state and each later field where
/// the one before it ended; the first failing field's error is the result.
pub proof fn lemma_tuple3_wire<A: Decode + Encode, B: Decode + Encode, C: Decode + Encode>(v: (A, B, C), d: DecoderView)
    ensures
        v.encoding() == v.0.encoding() + v.1.encoding() + v.2.encoding(),
        <(A, B, C) as Decode>::decode_outcome(d) == match A::decode_outcome(d) {
            Ok(d1) => match B::decode_outcome(d1) {
            Ok(d2) => C::decode_outcome(d2),
            Err(e) => Err(e),
        },
            Err(e) => Err(e),
        },
        <(A, B, C) as Decode>::decodes_as(d, v) <==> (A::decodes_as(d, v.0) && (A::decode_outcome(d) matches Ok(d1) && B::decodes_as(d1, v.1) && (B::decode_outcome(d1) matches Ok(d2) && C::decodes_as(d2, v.2)))),
{
}

/// A 4-tuple is its fields' encodings in index order, with no prefix.
/// Decoding reads field 0 at the starting state and each later field where
/// the one before it ended; the first failing field's error is the result.
pub proof fn lemma_tuple4_wire<A: Decode + Encode, B: Decode + Encode, C: Decode + Encode, D: Decode + Encode>(v: (A, B, C, D), d: DecoderView)
    ensures
        v.encoding() == v.0.encoding() + v.1.encoding() + v.2.encoding() + v.3.encoding(),
        <(A, B, C, D) as Decode>::decode_outcome(d) == match A::decode_outcome(d) {
            Ok(d1) => match B::decode_outcome(d1) {
            Ok(d2) => match C::decode_outcome(d2) {
            Ok(d3) => D::decode_outcome(d3),
            Err(e) => Err(e),
        },
            Err(e) => Err(e),
        },
            Err(e) => Err(e),
        },
        <(A, B, C, D) as Decode>::decodes_as(d, v) <==> (A::decodes_as(d, v.0) && (A::decode_outcome(d) matches Ok(d1) && B::decodes_as(d1, v.1) && (B::decode_outcome(d1) matches Ok(d2) && C::decodes_as(d2, v.2) && (C::decode_outcome(d2) matches Ok(d3) && D::decodes_as(d3, v.3))))),
{
}

/// A 5-tuple is its fields' encodings in index order, with no prefix.
/// Decoding reads field 0 at the starting state and each later field where
/// the one before it ended; the first failing field's error is the result.
pub proof fn lemma_tuple5_wire<A: Decode + Encode, B: Decode + Encode, C: Decode + Encode, D: Decode + Encode, E: Decode + Encode>(v: (A, B, C, D, E), d: DecoderView)
    ensures
        v.encoding() == v.0.encoding() + v.1.encoding() + v.2.encoding() + v.3.encoding() + v.4.encoding(),
        <(A, B, C, D, E) as Decode>::decode_outcome(d) == match A::decode_outcome(d) {
            Ok(d1) => match B::decode_outcome(d1) {
            Ok(d2) => match C::decode_outcome(d2) {
            Ok(d3) => match D::decode_outcome(d3) {
            Ok(d4) => E::decode_outcome(d4),
            Err(e) => Err(e),
        },
            Err(e) => Err(e),
        },
            Err(e) => Err(e),
        },
            Err(e) => Err(e),
        },
        <(A, B, C, D, E) as Decode>::decodes_as(d, v) <==> (A::decodes_as(d, v.0) && (A::decode_outcome(d) matches Ok(d1) && B::decodes_as(d1, v.1) && (B::decode_outcome(d1) matches Ok(d2) && C::decodes_as(d2, v.2) && (C::decode_outcome(d2) matches Ok(d3) && D::decodes_as(d3, v.3) && (D::decode_outcome(d3) matches Ok(d4) && E::decodes_as(d4, v.4)))))),
{
}

/// A 6-tuple is its fields' encodings in index order, with no prefix.
/// Decoding reads field 0 at the starting state and each later field where
/// the one before it ended; the first failing field's error is the result.
pub proof fn lemma_tuple6_wire<A: Decode + Encode, B: Decode + Encode, C: Decode + Encode, D: Decode + Encode, E: Decode + Encode, F: Decode + Encode>(v: (A, B, C, D, E, F), d: DecoderView)
    ensures
        v.encoding() == v.0.encoding() + v.1.encoding() + v.2.encoding() + v.3.encoding() + v.4.encoding() + v.5.encoding(),
        <(A, B, C, D, E, F) as Decode>::decode_outcome(d) == match A::decode_outcome(d) {
            Ok(d1) => match B::decode_outcome(d1) {
            Ok(d2) => match C::decode_outcome(d2) {
            Ok(d3) => match D::decode_outcome(d3) {
            Ok(d4) => match E::decode_outcome(d4) {
            Ok(d5) => F::decode_outcome(d5),
            Err(e) => Err(e),
        },
            Err(e) => Err(e),
        },
            Err(e) => Err(e),
        },
            Err(e) => Err(e),
        },
            Err(e) => Err(e),
        },
        <(A, B, C, D, E, F) as Decode>::decodes_as(d, v) <==> (A::decodes_as(d, v.0) && (A::decode_outcome(d) matches Ok(d1) && B::decodes_as(d1, v.1) && (B::decode_outcome(d1) matches Ok(d2) && C::decodes_as(d2, v.2) && (C::decode_outcome(d2) matches Ok(d3) && D::decodes_as(d3, v.3) && (D::decode_outcome(d3) matches Ok(d4) && E::decodes_as(d4, v.4) && (E::decode_outcome(d4) matches Ok(d5) && F::decodes_as(d5, v.5))))))),
{
}

/// A 7-tuple is its fields' encodings in index order, with no prefix.
/// Decoding reads field 0 at the starting state and each later field where
/// the one before it ended; the first failing field's error is the result.
pub proof fn lemma_tuple7_wire<A: Decode + Encode, B: Decode + Encode, C: Decode + Encode, D: Decode + Encode, E: Decode + Encode, F: Decode + Encode, G: Decode + Encode>(v: (A, B, C, D, E, F, G), d: DecoderView)
    ensures
        v.encoding() == v.0.encoding() + v.1.encoding() + v.2.encoding() + v.3.encoding() + v.4.encoding() + v.5.encoding() + v.6.encoding(),
        <(A, B, C, D, E, F, G) as Decode>::decode_outcome(d) == match A::decode_outcome(d) {
            Ok(d1) => match B::decode_outcome(d1) {
            Ok(d2) => match C::decode_outcome(d2) {
            Ok(d3) => match D::decode_outcome(d3) {
            Ok(d4) => match E::decode_outcome(d4) {
            Ok(d5) => match F::decode_outcome(d5) {
            Ok(d6) => G::decode_outcome(d6),
            Err(e) => Err(e),
        },
            Err(e) => Err(e),
        },
            Err(e) => Err(e),
        },
            Err(e) => Err(e),
        },
            Err(e) => Err(e),
        },
            Err(e) => Err(e),
        },
        <(A, B, C, D, E, F, G) as Decode>::decodes_as(d, v) <==> (A::decodes_as(d, v.0) && (A::decode_outcome(d) matches Ok(d1) && B::decodes_as(d1, v.1) && (B::decode_outcome(d1) matches Ok(d2) && C::decodes_as(d2, v.2) && (C::decode_outcome(d2) matches Ok(d3) && D::decodes_as(d3, v.3) && (D::decode_outcome(d3) matches Ok(d4) && E::decodes_as(d4, v.4) && (E::decode_outcome(d4) matches Ok(d5) && F::decodes_as(d5, v.5) && (F::decode_outcome(d5) matches Ok(d6) && G::decodes_as(d6, v.6)))))))),
{
}

/// A 8-tuple is its fields' encodings in index order, with no prefix.
/// Decoding reads field 0 at the starting state and each later field where
/// the one before it ended; the first failing field's error is the result.
pub proof fn lemma_tuple8_wire<A: Decode + Encode, B: Decode + Encode, C: Decode + Encode, D: Decode + Encode, E: Decode + Encode, F: Decode + Encode, G: Decode + Encode, H: Decode + Encode>(v: (A, B, C, D, E, F, G, H), d: DecoderView)
    ensures
        v.encoding() == v.0.encoding() + v.1.encoding() + v.2.encoding() + v.3.encoding() + v.4.encoding() + v.5.encoding() + v.6.encoding() + v.7.encoding(),
        <(A, B, C, D, E, F, G, H) as Decode>::decode_outcome(d) == match A::decode_outcome(d) {
            Ok(d1) => match B::decode_outcome(d1) {
            Ok(d2) => match C::decode_outcome(d2) {
            Ok(d3) => match D::decode_outcome(d3) {
            Ok(d4) => match E::decode_outcome(d4) {
            Ok(d5) => match F::decode_outcome(d5) {
            Ok(d6) => match G::decode_outcome(d6) {
            Ok(d7) => H::decode_outcome(d7),
            Err(e) => Err(e),
        },
            Err(e) => Err(e),
        },
            Err(e) => Err(e),
        },
            Err(e) => Err(e),
        },
            Err(e) => Err(e),
        },
            Err(e) => Err(e),
        },
            Err(e) => Err(e),
        },
        <(A, B, C, D, E, F, G, H) as Decode>::decodes_as(d, v) <==> (A::decodes_as(d, v.0) && (A::decode_outcome(d) matches Ok(d1) && B::decodes_as(d1, v.1) && (B::decode_outcome(d1) matches Ok(d2) && C::decodes_as(d2, v.2) && (C::decode_outcome(d2) matches Ok(d3) && D::decodes_as(d3, v.3) && (D::decode_outcome(d3) matches Ok(d4) && E::decodes_as(d4, v.4) && (E::decode_outcome(d4) matches Ok(d5) && F::decodes_as(d5, v.5) && (F::decode_outcome(d5) matches Ok(d6) && G::decodes_as(d6, v.6) && (G::decode_outcome(d6) matches Ok(d7) && H::decodes_as(d7, v.7))))))))),
{
}

} // verus!
