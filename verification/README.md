# zerec

A minimal binary codec: tag-free, little-endian, tightly packed. Types are
the schema; nothing but the values goes on the wire.

The library under `src/` is written in Verus. Each `Encode` implementation
states the bytes it writes (`encoding`), each `Decode` implementation states
what decoding leads to from a decoder state (`decode_outcome`) and which value
it yields (`decodes_as`), and `RoundTrip` proves for every provided type that
decoding reads back the value that was encoded, consuming exactly its bytes.

Layout:

- `src/wire.rs` – little-endian integer layout, as specifications.
- `src/encoder.rs`, `src/decoder.rs` – the write buffer and the read cursor
  (with the nesting-depth and collection limits).
- `src/codec.rs` – the `Encode`, `Decode` and `RoundTrip` traits,
  `to_bytes`, `from_bytes`, and the read-back law.
- `src/impls/` – integers, `bool`, `char`, arrays, tuples, `Vec`, `Option`,
  `String` / `str`, and the wire-size table.
- `src/zero_copy.rs` – borrowing `&[u8]` and `&str` from the source buffer.
- `src/adapter.rs` – routing foreign types through a representation.
- `src/layout.rs` – the field decisions of `#[derive(Encode, Decode)]`.
- `app/` – the derive code generator (`syn`/`quote`), float and `glam`
  codecs, and a printable copy of `DecodeError`.
