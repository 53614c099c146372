//! Read-side of the ZRC wire format.

use crate::error::DecodeError;
use crate::wire::{u16_of, u32_of, u64_of};
use vstd::prelude::*;

verus! {

/// Maximum nesting depth for collection types during decode.
///
/// Prevents stack overflow from adversarially crafted deeply nested
/// structures. 64 levels is far deeper than any real-world data.
pub const MAX_DECODE_DEPTH: u32 = 64;

/// Default maximum element/byte count allowed in a single collection or string.
///
/// This limit exists to prevent adversarial inputs from triggering large
/// allocations before any data is actually validated. Can be overridden
/// per-decoder with [`BufDecoder::with_collection_limit`].
pub const DEFAULT_COLLECTION_LIMIT: u32 = 64_000_000;

/// The state of a [`BufDecoder`]: the source bytes, the cursor, the current
/// nesting depth and the collection limit.
pub struct DecoderView {
    pub buf: Seq<u8>,
    pub pos: int,
    pub depth: u32,
    pub limit: u32,
}

impl DecoderView {
    /// A decoder at the start of `buf`, at depth 0, with the default limit.
    pub open spec fn fresh(buf: Seq<u8>) -> DecoderView {
        DecoderView { buf, pos: 0, depth: 0, limit: DEFAULT_COLLECTION_LIMIT }
    }

    /// The states a decoder is always in: the cursor within the buffer and
    /// the depth within the nesting limit.
    pub open spec fn valid(self) -> bool {
        &&& 0 <= self.pos <= self.buf.len()
        &&& self.depth <= MAX_DECODE_DEPTH
    }

    /// Number of bytes not yet consumed.
    pub open spec fn remaining(self) -> int {
        if self.pos <= self.buf.len() {
            self.buf.len() - self.pos
        } else {
            0
        }
    }

    /// The same decoder with the cursor moved forward by `n` bytes.
    pub open spec fn advance(self, n: int) -> DecoderView {
        DecoderView { buf: self.buf, pos: self.pos + n, depth: self.depth, limit: self.limit }
    }

    /// The same decoder at nesting depth `depth`.
    pub open spec fn at_depth(self, depth: u32) -> DecoderView {
        DecoderView { buf: self.buf, pos: self.pos, depth, limit: self.limit }
    }

    /// Whether `bytes` stand in the buffer right at the cursor.
    pub open spec fn holds_at_cursor(self, bytes: Seq<u8>) -> bool {
        &&& 0 <= self.pos
        &&& self.pos + bytes.len() <= self.buf.len()
        &&& self.buf.subrange(self.pos, self.pos + bytes.len()) == bytes
    }

    /// Reading exactly `n` bytes: the bytes and the decoder after them, or
    /// `UnexpectedEof` when fewer than `n` bytes remain.
    pub open spec fn read_bytes(self, n: int) -> Result<(Seq<u8>, DecoderView), DecodeError> {
        if 0 <= self.pos && self.pos + n <= self.buf.len() {
            Ok((self.buf.subrange(self.pos, self.pos + n), self.advance(n)))
        } else {
            Err(DecodeError::UnexpectedEof { needed: n as usize, remaining: self.remaining() as usize })
        }
    }

    /// Reading one byte.
    pub open spec fn read_u8(self) -> Result<(u8, DecoderView), DecodeError> {
        match self.read_bytes(1) {
            Ok((b, d)) => Ok((b[0], d)),
            Err(e) => Err(e),
        }
    }

    /// Reading a little-endian `u16`.
    pub open spec fn read_u16(self) -> Result<(u16, DecoderView), DecodeError> {
        match self.read_bytes(2) {
            Ok((b, d)) => Ok((u16_of(b), d)),
            Err(e) => Err(e),
        }
    }

    /// Reading a little-endian `u32`.
    pub open spec fn read_u32(self) -> Result<(u32, DecoderView), DecodeError> {
        match self.read_bytes(4) {
            Ok((b, d)) => Ok((u32_of(b), d)),
            Err(e) => Err(e),
        }
    }

    /// Reading a little-endian `u64`.
    pub open spec fn read_u64(self) -> Result<(u64, DecoderView), DecodeError> {
        match self.read_bytes(8) {
            Ok((b, d)) => Ok((u64_of(b), d)),
            Err(e) => Err(e),
        }
    }

    /// Entering one more level of nesting, or `NestingTooDeep` at the limit.
    pub open spec fn enter(self) -> Result<DecoderView, DecodeError> {
        if self.depth >= MAX_DECODE_DEPTH {
            Err(DecodeError::NestingTooDeep)
        } else {
            Ok(self.at_depth((self.depth + 1) as u32))
        }
    }

    /// Leaving one level of nesting.
    pub open spec fn leave(self) -> DecoderView {
        if self.depth > 0 {
            self.at_depth((self.depth - 1) as u32)
        } else {
            self
        }
    }
}

impl DecoderView {
    /// Reading as many bytes as stand at the cursor gives exactly those bytes.
    pub proof fn lemma_read_held(self, bytes: Seq<u8>)
        requires
            self.holds_at_cursor(bytes),
        ensures
            self.read_bytes(bytes.len() as int) == Ok::<(Seq<u8>, DecoderView), DecodeError>(
                (bytes, self.advance(bytes.len() as int)),
            ),
    {
    }

    /// When `a + b` stands at the cursor, `a` stands there and `b` right after it.
    pub proof fn lemma_held_split(self, a: Seq<u8>, b: Seq<u8>)
        requires
            self.holds_at_cursor(a + b),
        ensures
            self.holds_at_cursor(a),
            self.advance(a.len() as int).holds_at_cursor(b),
    {
        let whole = self.buf.subrange(self.pos, self.pos + a.len() + b.len());
        assert(whole == a + b);
        assert(self.buf.subrange(self.pos, self.pos + a.len()) =~= whole.subrange(0, a.len() as int));
        assert((a + b).subrange(0, a.len() as int) =~= a);
        assert(self.buf.subrange(self.pos + a.len(), self.pos + a.len() + b.len()) =~= whole.subrange(
            a.len() as int,
            (a.len() + b.len()) as int,
        ));
        assert((a + b).subrange(a.len() as int, (a.len() + b.len()) as int) =~= b);
    }
}

/// Reading `a` bytes and then `b` more reads the same bytes, and ends in the
/// same state, as reading `a + b` bytes at once.
pub proof fn lemma_read_split(d: DecoderView, a: int, b: int)
    requires
        d.valid(),
        0 <= a,
        0 <= b,
        a + b <= d.remaining(),
    ensures
        d.read_bytes(a) is Ok,
        d.read_bytes(a)->Ok_0.1.read_bytes(b) is Ok,
        d.read_bytes(a)->Ok_0.0 + d.read_bytes(a)->Ok_0.1.read_bytes(b)->Ok_0.0 == d.read_bytes(
            a + b,
        )->Ok_0.0,
        d.read_bytes(a)->Ok_0.1.read_bytes(b)->Ok_0.1 == d.read_bytes(a + b)->Ok_0.1,
{
    assert(d.buf.subrange(d.pos, d.pos + a) + d.buf.subrange(d.pos + a, d.pos + a + b)
        =~= d.buf.subrange(d.pos, d.pos + a + b));
}

/// Entering `n` nesting levels one after another.
pub open spec fn enter_n(d: DecoderView, n: nat) -> Result<DecoderView, DecodeError>
    decreases n,
{
    if n == 0 {
        Ok(d)
    } else {
        match enter_n(d, (n - 1) as nat) {
            Ok(d1) => d1.enter(),
            Err(e) => Err(e),
        }
    }
}

/// Leaving `n` nesting levels one after another.
pub open spec fn leave_n(d: DecoderView, n: nat) -> DecoderView
    decreases n,
{
    if n == 0 {
        d
    } else {
        leave_n(d, (n - 1) as nat).leave()
    }
}

/// Entering `n` levels succeeds exactly when the depth stays within
/// [`MAX_DECODE_DEPTH`], and then reaches `depth + n`; otherwise it fails
/// with `NestingTooDeep`. Leaving the `n` levels again restores the decoder.
pub proof fn lemma_enter_n(d: DecoderView, n: nat)
    requires
        d.depth <= MAX_DECODE_DEPTH,
    ensures
        enter_n(d, n) is Ok <==> d.depth + n <= MAX_DECODE_DEPTH,
        enter_n(d, n) is Ok ==> enter_n(d, n)->Ok_0 == d.at_depth((d.depth + n) as u32),
        enter_n(d, n) is Ok ==> leave_n(enter_n(d, n)->Ok_0, n) == d,
        enter_n(d, n) is Err ==> enter_n(d, n) == Err::<DecoderView, DecodeError>(
            DecodeError::NestingTooDeep,
        ),
    decreases n,
{
    if n > 0 {
        lemma_enter_n(d, (n - 1) as nat);
        if enter_n(d, n) is Ok {
            lemma_leave_n_at_depth(d, n);
        }
    }
}

/// Leaving `n` levels from `n` levels above `d` gives `d` back.
proof fn lemma_leave_n_at_depth(d: DecoderView, n: nat)
    requires
        d.depth + n <= MAX_DECODE_DEPTH,
    ensures
        leave_n(d.at_depth((d.depth + n) as u32), n) == d,
    decreases n,
{
    if n > 0 {
        let top = d.at_depth((d.depth + n) as u32);
        lemma_leave_n_at_depth(d.at_depth((d.depth + 1) as u32), (n - 1) as nat);
        lemma_leave_n_shift(top, (n - 1) as nat);
    }
}

/// Leaving `n + 1` levels is leaving one level and then `n` more.
proof fn lemma_leave_n_shift(d: DecoderView, n: nat)
    ensures
        leave_n(d, n + 1) == leave_n(d.leave(), n),
    decreases n,
{
    assert(leave_n(d, n + 1) == leave_n(d, n).leave());
    if n > 0 {
        lemma_leave_n_shift(d, (n - 1) as nat);
        assert(leave_n(d.leave(), n) == leave_n(d.leave(), (n - 1) as nat).leave());
    }
}

/// Leaving a nesting level undoes entering it.
pub proof fn lemma_leave_undoes_enter(d: DecoderView)
    requires
        d.enter() is Ok,
    ensures
        d.enter()->Ok_0.leave() == d,
{
}

/// A read-only cursor over a borrowed byte slice used during decoding.
///
/// `BufDecoder` advances an internal position as bytes are consumed.
/// Every read is bounds-checked; on underflow it returns
/// [`DecodeError::UnexpectedEof`] rather than panicking.
///
/// The lifetime `'buf` ties the decoder to the source buffer, which
/// enables zero-copy reads via [`crate::ZeroBuf`].
pub struct BufDecoder<'buf> {
    buf: &'buf [u8],
    pos: usize,
    depth: u32,
    collection_limit: u32,
}

impl<'buf> View for BufDecoder<'buf> {
    type V = DecoderView;

    closed spec fn view(&self) -> DecoderView {
        DecoderView {
            buf: self.buf@,
            pos: self.pos as int,
            depth: self.depth,
            limit: self.collection_limit,
        }
    }
}

impl<'buf> BufDecoder<'buf> {
    #[verifier::type_invariant]
    spec fn inv(self) -> bool {
        &&& self.pos <= self.buf@.len()
        &&& self.depth <= MAX_DECODE_DEPTH
    }

    /// Creates a decoder starting at byte 0 of `buf`.
    ///
    /// The collection limit defaults to [`DEFAULT_COLLECTION_LIMIT`].
    pub fn new(buf: &'buf [u8]) -> (dec: Self)
        ensures
            dec@ == DecoderView::fresh(buf@),
    {
        BufDecoder { buf, pos: 0, depth: 0, collection_limit: DEFAULT_COLLECTION_LIMIT }
    }

    /// Sets a custom collection limit and returns the decoder.
    ///
    /// The limit applies to `Vec`, `String`, and any other variable-length
    /// type decoded through this decoder instance.
    pub fn with_collection_limit(self, limit: u32) -> (dec: Self)
        ensures
            dec@ == (DecoderView { limit, ..self@ }),
    {
        proof {
            use_type_invariant(&self);
        }
        let mut dec = self;
        dec.collection_limit = limit;
        dec
    }

    /// Returns the active collection limit for this decoder.
    pub fn collection_limit(&self) -> (limit: u32)
        ensures
            limit == self@.limit,
    {
        self.collection_limit
    }

    /// Number of bytes consumed so far, never more than the buffer holds.
    pub fn position(&self) -> (pos: usize)
        ensures
            pos == self@.pos,
            self@.valid(),
    {
        proof {
            use_type_invariant(self);
        }
        self.pos
    }

    /// Number of bytes not yet consumed: together with [`Self::position`]
    /// the whole buffer.
    pub fn remaining(&self) -> (n: usize)
        ensures
            n == self@.remaining(),
            n == self@.buf.len() - self@.pos,
            self@.valid(),
    {
        proof {
            use_type_invariant(self);
        }
        self.buf.len() - self.pos
    }

    /// Reads exactly `n` bytes and advances the cursor.
    ///
    /// Returns a slice into the original buffer: no allocation.
    /// Fails with [`DecodeError::UnexpectedEof`] if fewer than `n`
    /// bytes remain, and then leaves the decoder as it was.
    pub fn read_bytes(&mut self, n: usize) -> (r: Result<&'buf [u8], DecodeError>)
        ensures
            match old(self)@.read_bytes(n as int) {
                Ok((bytes, d)) => r matches Ok(s) && s@ == bytes && final(self)@ == d,
                Err(e) => r == Err::<&'buf [u8], DecodeError>(e) && final(self)@ == old(self)@,
            },
    {
        proof {
            use_type_invariant(&*self);
        }
        let remaining = self.buf.len() - self.pos;
        if n > remaining {
            return Err(DecodeError::UnexpectedEof { needed: n, remaining });
        }
        let end = self.pos + n;
        let slice = &self.buf[self.pos..end];
        self.pos = end;
        Ok(slice)
    }

    /// Reads one byte.
    pub fn read_u8(&mut self) -> (r: Result<u8, DecodeError>)
        ensures
            match old(self)@.read_u8() {
                Ok((v, d)) => r == Ok::<u8, DecodeError>(v) && final(self)@ == d,
                Err(e) => r == Err::<u8, DecodeError>(e) && final(self)@ == old(self)@,
            },
    {
        match self.read_bytes(1) {
            Ok(b) => Ok(b[0]),
            Err(e) => Err(e),
        }
    }

    /// Reads two bytes as a little-endian `u16`.
    pub fn read_u16(&mut self) -> (r: Result<u16, DecodeError>)
        ensures
            match old(self)@.read_u16() {
                Ok((v, d)) => r == Ok::<u16, DecodeError>(v) && final(self)@ == d,
                Err(e) => r == Err::<u16, DecodeError>(e) && final(self)@ == old(self)@,
            },
    {
        match self.read_bytes(2) {
            Ok(b) => Ok((b[0] as u16) | ((b[1] as u16) << 8u16)),
            Err(e) => Err(e),
        }
    }

    /// Reads four bytes as a little-endian `u32`.
    pub fn read_u32(&mut self) -> (r: Result<u32, DecodeError>)
        ensures
            match old(self)@.read_u32() {
                Ok((v, d)) => r == Ok::<u32, DecodeError>(v) && final(self)@ == d,
                Err(e) => r == Err::<u32, DecodeError>(e) && final(self)@ == old(self)@,
            },
    {
        match self.read_bytes(4) {
            Ok(b) => Ok((b[0] as u32) | ((b[1] as u32) << 8u32) | ((b[2] as u32) << 16u32) | ((
            b[3] as u32) << 24u32)),
            Err(e) => Err(e),
        }
    }

    /// Reads eight bytes as a little-endian `u64`.
    pub fn read_u64(&mut self) -> (r: Result<u64, DecodeError>)
        ensures
            match old(self)@.read_u64() {
                Ok((v, d)) => r == Ok::<u64, DecodeError>(v) && final(self)@ == d,
                Err(e) => r == Err::<u64, DecodeError>(e) && final(self)@ == old(self)@,
            },
    {
        match self.read_bytes(8) {
            Ok(b) => Ok((b[0] as u64) | ((b[1] as u64) << 8u64) | ((b[2] as u64) << 16u64) | ((
            b[3] as u64) << 24u64) | ((b[4] as u64) << 32u64) | ((b[5] as u64) << 40u64) | ((
            b[6] as u64) << 48u64) | ((b[7] as u64) << 56u64)),
            Err(e) => Err(e),
        }
    }

    /// Increments the nesting depth counter.
    ///
    /// Call this at the start of any decode that dynamically decodes a
    /// variable number of inner values (e.g. `Vec<T>`). Pair with
    /// [`Self::leave`] on the success path.
    ///
    /// Returns [`DecodeError::NestingTooDeep`] if the limit is reached, and
    /// then leaves the decoder as it was.
    pub fn enter(&mut self) -> (r: Result<(), DecodeError>)
        ensures
            match old(self)@.enter() {
                Ok(d) => r is Ok && final(self)@ == d,
                Err(e) => r == Err::<(), DecodeError>(e) && final(self)@ == old(self)@,
            },
    {
        proof {
            use_type_invariant(&*self);
        }
        if self.depth >= MAX_DECODE_DEPTH {
            return Err(DecodeError::NestingTooDeep);
        }
        self.depth = self.depth + 1;
        Ok(())
    }

    /// Decrements the nesting depth counter. Pair with [`Self::enter`].
    pub fn leave(&mut self)
        requires
            old(self)@.depth > 0,
        ensures
            final(self)@ == old(self)@.leave(),
    {
        proof {
            use_type_invariant(&*self);
        }
        self.depth = self.depth - 1;
    }
}

} // verus!
