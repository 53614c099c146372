//! The little-endian integer layout of the ZRC wire format, as specifications.
//!
//! Every multi-byte integer on the wire is stored least significant byte
//! first. These functions say which bytes a value becomes and which value
//! a run of bytes stands for; the lemmas show that the two are inverse.

use vstd::prelude::*;

verus! {

/// The two bytes of `v`, least significant first.
pub open spec fn le_u16(v: u16) -> Seq<u8> {
    seq![v as u8, (v >> 8u16) as u8]
}

/// The four bytes of `v`, least significant first.
pub open spec fn le_u32(v: u32) -> Seq<u8> {
    seq![v as u8, (v >> 8u32) as u8, (v >> 16u32) as u8, (v >> 24u32) as u8]
}

/// The eight bytes of `v`, least significant first.
pub open spec fn le_u64(v: u64) -> Seq<u8> {
    seq![
        v as u8,
        (v >> 8u64) as u8,
        (v >> 16u64) as u8,
        (v >> 24u64) as u8,
        (v >> 32u64) as u8,
        (v >> 40u64) as u8,
        (v >> 48u64) as u8,
        (v >> 56u64) as u8,
    ]
}

/// The `u16` that two little-endian bytes stand for.
pub open spec fn u16_from_le(b0: u8, b1: u8) -> u16 {
    (b0 as u16) | ((b1 as u16) << 8u16)
}

/// The `u32` that four little-endian bytes stand for.
pub open spec fn u32_from_le(b0: u8, b1: u8, b2: u8, b3: u8) -> u32 {
    (b0 as u32) | ((b1 as u32) << 8u32) | ((b2 as u32) << 16u32) | ((b3 as u32) << 24u32)
}

/// The `u64` that eight little-endian bytes stand for.
pub open spec fn u64_from_le(b0: u8, b1: u8, b2: u8, b3: u8, b4: u8, b5: u8, b6: u8, b7: u8) -> u64 {
    (b0 as u64) | ((b1 as u64) << 8u64) | ((b2 as u64) << 16u64) | ((b3 as u64) << 24u64)
        | ((b4 as u64) << 32u64) | ((b5 as u64) << 40u64) | ((b6 as u64) << 48u64) | ((b7
        as u64) << 56u64)
}

/// The `u16` stored at the front of `s`.
pub open spec fn u16_of(s: Seq<u8>) -> u16 {
    u16_from_le(s[0], s[1])
}

/// The `u32` stored at the front of `s`.
pub open spec fn u32_of(s: Seq<u8>) -> u32 {
    u32_from_le(s[0], s[1], s[2], s[3])
}

/// The `u64` stored at the front of `s`.
pub open spec fn u64_of(s: Seq<u8>) -> u64 {
    u64_from_le(s[0], s[1], s[2], s[3], s[4], s[5], s[6], s[7])
}

/// Reading back the little-endian bytes of a `u16` gives the value.
pub proof fn lemma_u16_roundtrip(v: u16)
    ensures
        u16_of(le_u16(v)) == v,
{
    assert(((v as u8) as u16) | ((((v >> 8u16) as u8) as u16) << 8u16) == v) by (bit_vector);
}

/// Reading back the little-endian bytes of a `u32` gives the value.
pub proof fn lemma_u32_roundtrip(v: u32)
    ensures
        u32_of(le_u32(v)) == v,
{
    assert(((v as u8) as u32) | ((((v >> 8u32) as u8) as u32) << 8u32) | ((((v >> 16u32) as u8)
        as u32) << 16u32) | ((((v >> 24u32) as u8) as u32) << 24u32) == v) by (bit_vector);
}

/// Reading back the little-endian bytes of a `u64` gives the value.
pub proof fn lemma_u64_roundtrip(v: u64)
    ensures
        u64_of(le_u64(v)) == v,
{
    assert(((v as u8) as u64) | ((((v >> 8u64) as u8) as u64) << 8u64) | ((((v >> 16u64) as u8)
        as u64) << 16u64) | ((((v >> 24u64) as u8) as u64) << 24u64) | ((((v >> 32u64) as u8)
        as u64) << 32u64) | ((((v >> 40u64) as u8) as u64) << 40u64) | ((((v >> 48u64) as u8)
        as u64) << 48u64) | ((((v >> 56u64) as u8) as u64) << 56u64) == v) by (bit_vector);
}

/// The number that a run of bytes stands for when read least significant
/// byte first: `s[0] + 256 * s[1] + 256^2 * s[2] + ...`.
pub open spec fn le_value(s: Seq<u8>) -> int
    decreases s.len(),
{
    if s.len() == 0 {
        0
    } else {
        s[0] + 256 * le_value(s.drop_first())
    }
}

/// The two bytes of a `u16` are its value, least significant first; and
/// any two bytes read as a `u16` stand for the value they spell that way.
pub proof fn lemma_u16_le_value(v: u16, s: Seq<u8>)
    ensures
        le_u16(v).len() == 2,
        le_value(le_u16(v)) == v,
        s.len() == 2 ==> u16_of(s) == le_value(s),
{
    reveal_with_fuel(le_value, 3);
    let b0 = v as u8;
    let b1 = (v >> 8u16) as u8;
    assert(v == b0 as u16 + 256u16 * (b1 as u16)) by (bit_vector)
        requires
            b0 == v as u8,
            b1 == (v >> 8u16) as u8,
    ;
    assert(le_u16(v).drop_first() =~= seq![b1]);
    assert(seq![b1].drop_first() =~= Seq::<u8>::empty());
    if s.len() == 2 {
        let c0 = s[0];
        let c1 = s[1];
        assert(u16_from_le(c0, c1) == c0 as u16 + 256u16 * (c1 as u16)) by (bit_vector);
        assert(s.drop_first() =~= seq![c1]);
    }
}

/// The four bytes of a `u32` are its value, least significant first; and
/// any four bytes read as a `u32` stand for the value they spell that way.
pub proof fn lemma_u32_le_value(v: u32, s: Seq<u8>)
    ensures
        le_u32(v).len() == 4,
        le_value(le_u32(v)) == v,
        s.len() == 4 ==> u32_of(s) == le_value(s),
{
    reveal_with_fuel(le_value, 5);
    let b0 = v as u8;
    let b1 = (v >> 8u32) as u8;
    let b2 = (v >> 16u32) as u8;
    let b3 = (v >> 24u32) as u8;
    assert(v == b0 as u32 + 256u32 * (b1 as u32 + 256u32 * (b2 as u32 + 256u32 * (b3 as u32))))
        by (bit_vector)
        requires
            b0 == v as u8,
            b1 == (v >> 8u32) as u8,
            b2 == (v >> 16u32) as u8,
            b3 == (v >> 24u32) as u8,
    ;
    let e = le_u32(v);
    assert(e.drop_first() =~= seq![b1, b2, b3]);
    assert(seq![b1, b2, b3].drop_first() =~= seq![b2, b3]);
    assert(seq![b2, b3].drop_first() =~= seq![b3]);
    assert(seq![b3].drop_first() =~= Seq::<u8>::empty());
    if s.len() == 4 {
        let c0 = s[0];
        let c1 = s[1];
        let c2 = s[2];
        let c3 = s[3];
        assert(u32_from_le(c0, c1, c2, c3) == c0 as u32 + 256u32 * (c1 as u32 + 256u32 * (c2
            as u32 + 256u32 * (c3 as u32)))) by (bit_vector);
        assert(s.drop_first() =~= seq![c1, c2, c3]);
        assert(seq![c1, c2, c3].drop_first() =~= seq![c2, c3]);
        assert(seq![c2, c3].drop_first() =~= seq![c3]);
        assert(seq![c3].drop_first() =~= Seq::<u8>::empty());
    }
}

/// The eight bytes of a `u64` are its value, least significant first; and
/// any eight bytes read as a `u64` stand for the value they spell that way.
pub proof fn lemma_u64_le_value(v: u64, s: Seq<u8>)
    ensures
        le_u64(v).len() == 8,
        le_value(le_u64(v)) == v,
        s.len() == 8 ==> u64_of(s) == le_value(s),
{
    reveal_with_fuel(le_value, 9);
    let b0 = v as u8;
    let b1 = (v >> 8u64) as u8;
    let b2 = (v >> 16u64) as u8;
    let b3 = (v >> 24u64) as u8;
    let b4 = (v >> 32u64) as u8;
    let b5 = (v >> 40u64) as u8;
    let b6 = (v >> 48u64) as u8;
    let b7 = (v >> 56u64) as u8;
    assert(v == b0 as u64 + 256u64 * (b1 as u64 + 256u64 * (b2 as u64 + 256u64 * (b3 as u64
        + 256u64 * (b4 as u64 + 256u64 * (b5 as u64 + 256u64 * (b6 as u64 + 256u64 * (b7
        as u64)))))))) by (bit_vector)
        requires
            b0 == v as u8,
            b1 == (v >> 8u64) as u8,
            b2 == (v >> 16u64) as u8,
            b3 == (v >> 24u64) as u8,
            b4 == (v >> 32u64) as u8,
            b5 == (v >> 40u64) as u8,
            b6 == (v >> 48u64) as u8,
            b7 == (v >> 56u64) as u8,
    ;
    let e = le_u64(v);
    assert(e.drop_first() =~= seq![b1, b2, b3, b4, b5, b6, b7]);
    assert(seq![b1, b2, b3, b4, b5, b6, b7].drop_first() =~= seq![b2, b3, b4, b5, b6, b7]);
    assert(seq![b2, b3, b4, b5, b6, b7].drop_first() =~= seq![b3, b4, b5, b6, b7]);
    assert(seq![b3, b4, b5, b6, b7].drop_first() =~= seq![b4, b5, b6, b7]);
    assert(seq![b4, b5, b6, b7].drop_first() =~= seq![b5, b6, b7]);
    assert(seq![b5, b6, b7].drop_first() =~= seq![b6, b7]);
    assert(seq![b6, b7].drop_first() =~= seq![b7]);
    assert(seq![b7].drop_first() =~= Seq::<u8>::empty());
    if s.len() == 8 {
        let c0 = s[0];
        let c1 = s[1];
        let c2 = s[2];
        let c3 = s[3];
        let c4 = s[4];
        let c5 = s[5];
        let c6 = s[6];
        let c7 = s[7];
        assert(u64_from_le(c0, c1, c2, c3, c4, c5, c6, c7) == c0 as u64 + 256u64 * (c1 as u64
            + 256u64 * (c2 as u64 + 256u64 * (c3 as u64 + 256u64 * (c4 as u64 + 256u64 * (c5
            as u64 + 256u64 * (c6 as u64 + 256u64 * (c7 as u64)))))))) by (bit_vector);
        assert(s.drop_first() =~= seq![c1, c2, c3, c4, c5, c6, c7]);
        assert(seq![c1, c2, c3, c4, c5, c6, c7].drop_first() =~= seq![c2, c3, c4, c5, c6, c7]);
        assert(seq![c2, c3, c4, c5, c6, c7].drop_first() =~= seq![c3, c4, c5, c6, c7]);
        assert(seq![c3, c4, c5, c6, c7].drop_first() =~= seq![c4, c5, c6, c7]);
        assert(seq![c4, c5, c6, c7].drop_first() =~= seq![c5, c6, c7]);
        assert(seq![c5, c6, c7].drop_first() =~= seq![c6, c7]);
        assert(seq![c6, c7].drop_first() =~= seq![c7]);
        assert(seq![c7].drop_first() =~= Seq::<u8>::empty());
    }
}

} // verus!
