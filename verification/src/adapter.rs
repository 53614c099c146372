//! Adapter pattern for foreign types.
//!
//! Use [`Adapter`] when you want to encode/decode a type from another crate
//! but cannot implement [`Encode`] / [`Decode`] for it directly (the orphan
//! rule prevents that). An `Adapter` declares an intermediate representation
//! (`Repr`) that zerec already knows how to handle, and two conversion
//! functions.

use crate::codec::{Decode, Encode, RoundTrip};
use crate::decoder::{BufDecoder, DecoderView};
use crate::encoder::BufEncoder;
use crate::error::DecodeError;
use vstd::prelude::*;

verus! {

/// A bridge between a foreign type `T` and zerec's codec.
pub trait Adapter<T> {
    /// The intermediate type that implements [`Encode`] + [`Decode`].
    type Repr: Encode + Decode;

    /// The representation that [`Adapter::to_repr`] gives for `val`.
    /// Unknown unless the implementation states it.
    open spec fn repr_of(val: T) -> Self::Repr {
        arbitrary()
    }

    /// The value that [`Adapter::from_repr`] rebuilds from `repr`.
    /// Unknown unless the implementation states it.
    open spec fn value_of(repr: Self::Repr) -> T {
        arbitrary()
    }

    /// Converts a reference to `T` into its wire representation.
    fn to_repr(val: &T) -> (r: Self::Repr)
        ensures
            r == Self::repr_of(*val),
    ;

    /// Reconstructs `T` from the decoded representation.
    fn from_repr(repr: Self::Repr) -> (v: T)
        ensures
            v == Self::value_of(repr),
    ;

    /// Encodes `val` through this adapter: the encoding of its representation.
    fn encode_via(val: &T, enc: &mut BufEncoder)
        requires
            Self::repr_of(*val).encodable(),
        ensures
            final(enc)@ == old(enc)@ + Self::repr_of(*val).encoding(),
    {
        let r = Self::to_repr(val);
        r.encode(enc);
    }

    /// Decodes a `T` through this adapter: decodes the representation, then
    /// rebuilds the value from it.
    fn decode_via(dec: &mut BufDecoder<'_>) -> (r: Result<T, DecodeError>)
        requires
            Self::Repr::decodable(),
        ensures
            match Self::Repr::decode_outcome(old(dec)@) {
                Ok(d) => r matches Ok(v) && final(dec)@ == d && (exists|x: Self::Repr|
                    #[trigger] Self::Repr::decodes_as(old(dec)@, x) && v == Self::value_of(x)),
                Err(e) => r matches Err(e2) && e2 == e,
            },
            final(dec)@.buf == old(dec)@.buf,
            final(dec)@.limit == old(dec)@.limit,
    {
        let ghost d0 = dec@;
        match Self::Repr::decode(dec) {
            Ok(x) => {
                assert(Self::Repr::decodes_as(d0, x));
                Ok(Self::from_repr(x))
            },
            Err(e) => Err(e),
        }
    }
}

/// Decoding through an adapter, from where the adapter encoded `val`, gives
/// reads back `val`'s representation, from which `from_repr` rebuilds the
/// value, and moves past exactly that encoding.
pub proof fn lemma_adapter_roundtrip<T, A: Adapter<T>>(val: T, d: DecoderView)
    where
        A::Repr: RoundTrip,
    requires
        A::repr_of(val).encodable(),
        A::repr_of(val).fits(d.depth, d.limit),
        d.holds_at_cursor(A::repr_of(val).encoding()),
    ensures
        A::Repr::decode_outcome(d) == Ok::<DecoderView, DecodeError>(
            d.advance(A::repr_of(val).encoding().len() as int),
        ),
        A::Repr::decodes_as(d, A::repr_of(val)),
{
    A::Repr::lemma_roundtrip(A::repr_of(val), d);
}

} // verus!
