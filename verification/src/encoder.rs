//! Write-side of the ZRC wire format.

use crate::wire::{le_u16, le_u32, le_u64};
use vstd::prelude::*;

verus! {

/// A write-only byte buffer used during encoding.
///
/// All [`crate::Encode`] implementations write through this type.
/// It wraps a `Vec<u8>` and exposes only the primitives the wire format needs:
/// fixed-width little-endian integers and raw byte slices.
///
/// Encoding is always infallible: there are no error paths here.
pub struct BufEncoder {
    buf: Vec<u8>,
}

impl View for BufEncoder {
    type V = Seq<u8>;

    /// The bytes written so far.
    closed spec fn view(&self) -> Seq<u8> {
        self.buf@
    }
}

impl BufEncoder {
    /// Creates an empty encoder.
    pub fn new() -> (enc: Self)
        ensures
            enc@ == Seq::<u8>::empty(),
    {
        BufEncoder { buf: Vec::new() }
    }

    /// Creates an empty encoder with preallocated capacity.
    ///
    /// Use this when the encoded size is roughly known in advance to
    /// avoid repeated reallocations on the hot path.
    pub fn with_capacity(cap: usize) -> (enc: Self)
        ensures
            enc@ == Seq::<u8>::empty(),
    {
        BufEncoder { buf: Vec::with_capacity(cap) }
    }

    /// Appends one byte.
    pub fn write_u8(&mut self, value: u8)
        ensures
            final(self)@ == old(self)@.push(value),
    {
        self.buf.push(value);
    }

    /// Appends two bytes, little-endian.
    pub fn write_u16(&mut self, value: u16)
        ensures
            final(self)@ == old(self)@ + le_u16(value),
    {
        self.buf.push(value as u8);
        self.buf.push((value >> 8u16) as u8);
        assert(self.buf@ =~= old(self)@ + le_u16(value));
    }

    /// Appends four bytes, little-endian.
    pub fn write_u32(&mut self, value: u32)
        ensures
            final(self)@ == old(self)@ + le_u32(value),
    {
        self.buf.push(value as u8);
        self.buf.push((value >> 8u32) as u8);
        self.buf.push((value >> 16u32) as u8);
        self.buf.push((value >> 24u32) as u8);
        assert(self.buf@ =~= old(self)@ + le_u32(value));
    }

    /// Appends eight bytes, little-endian.
    pub fn write_u64(&mut self, value: u64)
        ensures
            final(self)@ == old(self)@ + le_u64(value),
    {
        self.buf.push(value as u8);
        self.buf.push((value >> 8u64) as u8);
        self.buf.push((value >> 16u64) as u8);
        self.buf.push((value >> 24u64) as u8);
        self.buf.push((value >> 32u64) as u8);
        self.buf.push((value >> 40u64) as u8);
        self.buf.push((value >> 48u64) as u8);
        self.buf.push((value >> 56u64) as u8);
        assert(self.buf@ =~= old(self)@ + le_u64(value));
    }

    /// Appends a raw byte slice without any length prefix.
    ///
    /// The caller must write the length separately when the decoder
    /// needs to know it (e.g. `Vec<u8>`, `String`).
    pub fn write_bytes(&mut self, bytes: &[u8])
        ensures
            final(self)@ == old(self)@ + bytes@,
    {
        let mut i: usize = 0;
        while i < bytes.len()
            invariant
                i <= bytes@.len(),
                self.buf@ == old(self)@ + bytes@.subrange(0, i as int),
            decreases bytes@.len() - i,
        {
            self.buf.push(bytes[i]);
            i = i + 1;
            assert(self.buf@ =~= old(self)@ + bytes@.subrange(0, i as int));
        }
        assert(bytes@.subrange(0, i as int) =~= bytes@);
    }

    /// Consumes the encoder and returns the underlying buffer.
    pub fn finish(self) -> (bytes: Vec<u8>)
        ensures
            bytes@ == self@,
    {
        self.buf
    }

    /// Number of bytes written so far.
    pub fn len(&self) -> (n: usize)
        ensures
            n == self@.len(),
    {
        self.buf.len()
    }

    /// Returns `true` if nothing has been written yet.
    pub fn is_empty(&self) -> (b: bool)
        ensures
            b <==> self@.len() == 0,
    {
        self.buf.len() == 0
    }
}

impl Default for BufEncoder {
    fn default() -> (enc: Self)
        ensures
            enc@ == Seq::<u8>::empty(),
    {
        Self::new()
    }
}

} // verus!
