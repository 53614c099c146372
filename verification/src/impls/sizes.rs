//! The wire size of each kind of value.
//!
//! | Type                  | Wire size                           |
//! |-----------------------|-------------------------------------|
//! | `u8` / `i8`           | 1 byte                              |
//! | `u16` / `i16`         | 2 bytes                             |
//! | `u32` / `i32`         | 4 bytes                             |
//! | `u64` / `i64`         | 8 bytes                             |
//! | `bool`                | 1 byte (`0x00` / `0x01`)            |
//! | `char`                | 4 bytes (Unicode scalar as `u32`)   |
//! | `[T; N]`              | `N * size_of(T)`, no length prefix  |
//! | `Vec<T>`              | `u32` element count + elements      |
//! | `String` / `&str`     | `u32` byte length + UTF-8 bytes     |
//! | `Option<T>`           | 1 tag byte + optional payload       |

use crate::codec::{Encode, encode_seq, lemma_encode_seq_len};
use vstd::prelude::*;
use vstd::utf8::encode_utf8;

verus! {

/// The fixed-width types take the number of bytes in the table.
pub proof fn lemma_fixed_sizes(
    a: u8,
    b: i8,
    c: u16,
    d: i16,
    e: u32,
    f: i32,
    g: u64,
    h: i64,
    x: bool,
    y: char,
)
    ensures
        a.encoding().len() == 1,
        b.encoding().len() == 1,
        c.encoding().len() == 2,
        d.encoding().len() == 2,
        e.encoding().len() == 4,
        f.encoding().len() == 4,
        g.encoding().len() == 8,
        h.encoding().len() == 8,
        x.encoding().len() == 1,
        y.encoding().len() == 4,
{
}

/// A vector takes a four-byte count and then its elements; a string a
/// four-byte byte length and then its UTF-8 bytes; an option one tag byte
/// and then, for `Some`, the payload.
pub proof fn lemma_prefixed_sizes<T: Encode>(v: Vec<T>, s: String, o: Option<T>)
    ensures
        v.encoding().len() == 4 + encode_seq(v@).len(),
        s.encoding().len() == 4 + encode_utf8(s@).len(),
        o.encoding().len() == 1 + match o {
            Some(x) => x.encoding().len(),
            None => 0,
        },
{
}

/// An array of `N` items that each take `k` bytes takes `N * k` bytes.
pub proof fn lemma_array_size<T: Encode, const N: usize>(a: [T; N], k: nat)
    requires
        forall|i: int| 0 <= i < N ==> (#[trigger] a@[i].encoding()).len() == k,
    ensures
        a.encoding().len() == N * k,
{
    lemma_encode_seq_len(a@, k);
}

} // verus!
