//! Tests of the library's promises on concrete values: read-back, the
//! limits and their errors, the decoder's cursor, the encoder's buffer and
//! the layout decisions of derived impls.

use zerec::codec::{from_bytes, to_bytes};
use zerec::decoder::{BufDecoder, DEFAULT_COLLECTION_LIMIT, MAX_DECODE_DEPTH};
use zerec::encoder::BufEncoder;
use zerec::layout::{variant_index, AttrKey, FieldAttrs, FieldPlan, FieldPosition};
use zerec::{Decode, DecodeError, ZeroBuf};

// ── read-back consumes exactly the encoding ──────────────────────────────

#[test]
fn decode_stops_after_encoding() {
    let v: Vec<u32> = vec![7, 8, 9];
    let mut bytes = to_bytes(&v);
    let n = bytes.len();
    bytes.extend_from_slice(&[0xAA, 0xBB]);
    let mut dec = BufDecoder::new(&bytes);
    assert_eq!(Vec::<u32>::decode(&mut dec).unwrap(), v);
    assert_eq!(dec.position(), n);
    assert_eq!(dec.remaining(), 2);
}

#[test]
fn from_bytes_ignores_trailing_bytes() {
    assert_eq!(from_bytes::<u16>(&[0x01, 0x00, 0x09, 0x09]).unwrap(), 1);
}

#[test]
fn roundtrip_signed_edges() {
    for v in [i16::MIN, -1, 0, i16::MAX] {
        assert_eq!(from_bytes::<i16>(&to_bytes(&v)).unwrap(), v);
    }
    for v in [i64::MIN, -1, 0, i64::MAX] {
        assert_eq!(from_bytes::<i64>(&to_bytes(&v)).unwrap(), v);
    }
    assert_eq!(to_bytes(&-1i16), [0xFF, 0xFF]);
    assert_eq!(to_bytes(&-2i32), [0xFE, 0xFF, 0xFF, 0xFF]);
}

#[test]
fn roundtrip_tuple_of_eight() {
    let v = (1u8, -2i8, 3u16, -4i16, 5u32, -6i32, 7u64, -8i64);
    let bytes = to_bytes(&v);
    assert_eq!(bytes.len(), 1 + 1 + 2 + 2 + 4 + 4 + 8 + 8);
    assert_eq!(from_bytes::<(u8, i8, u16, i16, u32, i32, u64, i64)>(&bytes).unwrap(), v);
}

#[test]
fn roundtrip_single_tuple_and_nested_option() {
    let v = (Some(Some(9u8)),);
    assert_eq!(to_bytes(&v), [1, 1, 9]);
    assert_eq!(from_bytes::<(Option<Option<u8>>,)>(&to_bytes(&v)).unwrap(), v);
}

#[test]
fn roundtrip_array_of_strings() {
    let v = [String::from("a"), String::from("βγ")];
    assert_eq!(from_bytes::<[String; 2]>(&to_bytes(&v)).unwrap(), v);
}

// ── wire sizes ───────────────────────────────────────────────────────────

#[test]
fn wire_sizes() {
    assert_eq!(to_bytes(&0u8).len(), 1);
    assert_eq!(to_bytes(&0i8).len(), 1);
    assert_eq!(to_bytes(&0u16).len(), 2);
    assert_eq!(to_bytes(&0u32).len(), 4);
    assert_eq!(to_bytes(&0u64).len(), 8);
    assert_eq!(to_bytes(&'x').len(), 4);
    assert_eq!(to_bytes(&[0u16; 5]).len(), 10);
    assert_eq!(to_bytes(&String::from("dünya")).len(), 4 + 6);
    assert_eq!(to_bytes(&None::<u64>).len(), 1);
    assert_eq!(to_bytes(&Some(0u64)).len(), 9);
    assert_eq!(to_bytes(&0x0102030405060708u64), [8, 7, 6, 5, 4, 3, 2, 1]);
    assert_eq!(to_bytes(&0x0102u16), [2, 1]);
    assert_eq!(to_bytes(&'€'), [0xAC, 0x20, 0, 0]);
}

#[test]
fn str_and_string_share_layout() {
    let s = "hello";
    assert_eq!(to_bytes(&s), to_bytes(&String::from(s)));
    assert_eq!(to_bytes(&s), [5, 0, 0, 0, b'h', b'e', b'l', b'l', b'o']);
}

// ── errors ───────────────────────────────────────────────────────────────

#[test]
fn eof_reports_needed_and_remaining() {
    let result = from_bytes::<u64>(&[1, 2, 3]);
    assert_eq!(result, Err(DecodeError::UnexpectedEof { needed: 8, remaining: 3 }));
}

#[test]
fn failed_read_leaves_cursor() {
    let bytes = [1u8, 2, 3];
    let mut dec = BufDecoder::new(&bytes);
    assert_eq!(dec.read_bytes(5), Err(DecodeError::UnexpectedEof { needed: 5, remaining: 3 }));
    assert_eq!(dec.position(), 0);
    assert_eq!(dec.read_u8(), Ok(1));
    assert_eq!(dec.read_bytes(2), Ok(&[2u8, 3][..]));
    assert_eq!(dec.remaining(), 0);
}

#[test]
fn invalid_char_reported() {
    let result = from_bytes::<char>(&0xD800u32.to_le_bytes());
    assert_eq!(result, Err(DecodeError::InvalidChar(0xD800)));
    let result = from_bytes::<char>(&0x110000u32.to_le_bytes());
    assert_eq!(result, Err(DecodeError::InvalidChar(0x110000)));
}

#[test]
fn option_tag_must_be_zero_or_one() {
    assert_eq!(from_bytes::<Option<u8>>(&[2, 7]), Err(DecodeError::InvalidBool(2)));
    assert_eq!(from_bytes::<Option<u8>>(&[1]), Err(DecodeError::UnexpectedEof { needed: 1, remaining: 0 }));
}

#[test]
fn vec_over_collection_limit() {
    let bytes = to_bytes(&vec![1u8, 2, 3]);
    let mut dec = BufDecoder::new(&bytes).with_collection_limit(2);
    assert_eq!(dec.collection_limit(), 2);
    assert_eq!(Vec::<u8>::decode(&mut dec), Err(DecodeError::CollectionTooLarge { len: 3, limit: 2 }));

    let mut dec = BufDecoder::new(&bytes).with_collection_limit(3);
    assert_eq!(Vec::<u8>::decode(&mut dec).unwrap(), vec![1, 2, 3]);
}

#[test]
fn default_collection_limit() {
    let dec = BufDecoder::new(&[]);
    assert_eq!(dec.collection_limit(), DEFAULT_COLLECTION_LIMIT);
    let bytes = (DEFAULT_COLLECTION_LIMIT + 1).to_le_bytes();
    assert_eq!(
        from_bytes::<Vec<u8>>(&bytes),
        Err(DecodeError::CollectionTooLarge { len: DEFAULT_COLLECTION_LIMIT + 1, limit: DEFAULT_COLLECTION_LIMIT })
    );
}

#[test]
fn string_over_limit() {
    let bytes = (DEFAULT_COLLECTION_LIMIT + 1).to_le_bytes();
    assert_eq!(
        from_bytes::<String>(&bytes),
        Err(DecodeError::CollectionTooLarge { len: DEFAULT_COLLECTION_LIMIT + 1, limit: DEFAULT_COLLECTION_LIMIT })
    );
}

#[test]
fn string_obeys_decoder_limit() {
    let bytes = [3u8, 0, 0, 0, b'a', b'b', b'c'];
    let mut dec = BufDecoder::new(&bytes).with_collection_limit(2);
    assert_eq!(String::decode(&mut dec), Err(DecodeError::CollectionTooLarge { len: 3, limit: 2 }));
    let mut dec = BufDecoder::new(&bytes).with_collection_limit(3);
    assert_eq!(String::decode(&mut dec).unwrap(), "abc");
    assert_eq!(dec.position(), 7);
}

#[test]
fn borrowed_reads_obey_decoder_limit() {
    let bytes = [3u8, 0, 0, 0, b'a', b'b', b'c'];
    let mut dec = BufDecoder::new(&bytes).with_collection_limit(2);
    let r: Result<&str, DecodeError> = ZeroBuf::decode_borrowed(&mut dec);
    assert_eq!(r, Err(DecodeError::CollectionTooLarge { len: 3, limit: 2 }));
    let mut dec = BufDecoder::new(&bytes).with_collection_limit(2);
    let r: Result<&[u8], DecodeError> = ZeroBuf::decode_borrowed(&mut dec);
    assert_eq!(r, Err(DecodeError::CollectionTooLarge { len: 3, limit: 2 }));
}

#[test]
fn position_and_remaining_cover_buffer() {
    let bytes = [1u8, 2, 3, 4, 5];
    let mut dec = BufDecoder::new(&bytes);
    assert_eq!(dec.position() + dec.remaining(), 5);
    let a = dec.read_bytes(2).unwrap().to_vec();
    let b = dec.read_bytes(3).unwrap().to_vec();
    assert_eq!(dec.position() + dec.remaining(), 5);
    let mut whole = BufDecoder::new(&bytes);
    assert_eq!([a, b].concat(), whole.read_bytes(5).unwrap());
    assert_eq!(dec.position(), whole.position());
}

#[test]
fn vec_nesting_too_deep() {
    let bytes = to_bytes(&vec![1u8]);
    let mut dec = BufDecoder::new(&bytes);
    for _ in 0..MAX_DECODE_DEPTH {
        dec.enter().unwrap();
    }
    assert_eq!(Vec::<u8>::decode(&mut dec), Err(DecodeError::NestingTooDeep));
    dec.leave();
    assert_eq!(Vec::<u8>::decode(&mut dec).unwrap(), vec![1]);
}

#[test]
fn nested_vec_within_depth_and_element_errors() {
    // A vector holding one empty vector, read with one level to spare.
    let bytes = to_bytes(&vec![Vec::<u8>::new()]);
    let mut dec = BufDecoder::new(&bytes);
    for _ in 0..MAX_DECODE_DEPTH - 2 {
        dec.enter().unwrap();
    }
    assert_eq!(Vec::<Vec<u8>>::decode(&mut dec).unwrap(), vec![Vec::<u8>::new()]);

    // An element that fails to decode fails the whole vector.
    let mut bytes = 2u32.to_le_bytes().to_vec();
    bytes.extend_from_slice(&[1, 5]);
    assert_eq!(from_bytes::<Vec<bool>>(&bytes), Err(DecodeError::InvalidBool(5)));
}

#[test]
fn array_element_error() {
    assert_eq!(from_bytes::<[bool; 3]>(&[0, 1, 9]), Err(DecodeError::InvalidBool(9)));
    assert_eq!(from_bytes::<[bool; 3]>(&[0, 1]), Err(DecodeError::UnexpectedEof { needed: 1, remaining: 0 }));
    assert_eq!(from_bytes::<[bool; 3]>(&[0, 1, 1]).unwrap(), [false, true, true]);
}

#[test]
fn zerobuf_str_rejects_invalid_utf8() {
    let mut bytes = 1u32.to_le_bytes().to_vec();
    bytes.push(0xC3);
    let mut dec = BufDecoder::new(&bytes);
    let r: Result<&str, DecodeError> = ZeroBuf::decode_borrowed(&mut dec);
    assert_eq!(r, Err(DecodeError::InvalidUtf8));
}

#[test]
fn zerobuf_bytes_short_input() {
    let mut bytes = 4u32.to_le_bytes().to_vec();
    bytes.extend_from_slice(&[1, 2]);
    let mut dec = BufDecoder::new(&bytes);
    let r: Result<&[u8], DecodeError> = ZeroBuf::decode_borrowed(&mut dec);
    assert_eq!(r, Err(DecodeError::UnexpectedEof { needed: 4, remaining: 2 }));
}

// ── decoder depth ────────────────────────────────────────────────────────

#[test]
fn leave_undoes_enter() {
    let mut dec = BufDecoder::new(&[]);
    for _ in 0..10 {
        dec.enter().unwrap();
        dec.leave();
    }
    for _ in 0..MAX_DECODE_DEPTH {
        dec.enter().unwrap();
    }
    assert_eq!(dec.enter(), Err(DecodeError::NestingTooDeep));
}

#[test]
fn decoder_reads_little_endian() {
    let bytes = [0x01, 0x02, 0x03, 0x04, 0x05, 0x06, 0x07, 0x08, 0x09, 0x0A, 0x0B, 0x0C, 0x0D, 0x0E, 0x0F];
    let mut dec = BufDecoder::new(&bytes);
    assert_eq!(dec.read_u8(), Ok(0x01));
    assert_eq!(dec.read_u16(), Ok(0x0302));
    assert_eq!(dec.read_u32(), Ok(0x07060504));
    assert_eq!(dec.read_u64(), Ok(0x0F0E0D0C0B0A0908));
    assert_eq!(dec.position(), 15);
    assert_eq!(dec.read_u8(), Err(DecodeError::UnexpectedEof { needed: 1, remaining: 0 }));
}

// ── encoder ──────────────────────────────────────────────────────────────

#[test]
fn encoder_appends_in_order() {
    let mut enc = BufEncoder::with_capacity(16);
    assert!(enc.is_empty());
    enc.write_u8(0xAB);
    enc.write_u16(0x0102);
    enc.write_u32(42);
    enc.write_u64(1);
    enc.write_bytes(b"hi");
    assert_eq!(enc.len(), 1 + 2 + 4 + 8 + 2);
    assert!(!enc.is_empty());
    let bytes = enc.finish();
    assert_eq!(&bytes[..3], &[0xAB, 0x02, 0x01]);
    assert_eq!(&bytes[3..7], &42u32.to_le_bytes());
    assert_eq!(&bytes[7..15], &1u64.to_le_bytes());
    assert_eq!(&bytes[15..], b"hi");
}

#[test]
fn encoder_default_is_empty() {
    let enc = BufEncoder::default();
    assert_eq!(enc.len(), 0);
    assert_eq!(BufEncoder::new().finish(), Vec::<u8>::new());
}

// ── derived layout ───────────────────────────────────────────────────────

#[test]
fn attribute_keys() {
    assert_eq!(AttrKey::from_name("skip"), Some(AttrKey::Skip));
    assert_eq!(AttrKey::from_name("via"), Some(AttrKey::Via));
    assert_eq!(AttrKey::from_name("map_enc"), Some(AttrKey::MapEnc));
    assert_eq!(AttrKey::from_name("map_dec"), Some(AttrKey::MapDec));
    assert_eq!(AttrKey::from_name("Skip"), None);
    assert_eq!(AttrKey::from_name("rename"), None);
    assert!(!AttrKey::Skip.takes_value());
    assert!(AttrKey::Via.takes_value());
}

#[test]
fn field_plans() {
    let all = [
        FieldPosition::StructNamed,
        FieldPosition::StructUnnamed,
        FieldPosition::VariantNamed,
        FieldPosition::VariantUnnamed,
    ];
    let mut a = FieldAttrs::new();
    for pos in all {
        assert_eq!(a.encode_plan(pos), FieldPlan::Plain);
        assert_eq!(a.decode_plan(pos), FieldPlan::Plain);
    }
    a.apply(AttrKey::Via, Some(String::from("VelocityAdapter")));
    for pos in all {
        assert_eq!(a.encode_plan(pos), FieldPlan::Via(String::from("VelocityAdapter")));
        assert_eq!(a.decode_plan(pos), FieldPlan::Via(String::from("VelocityAdapter")));
    }
    a.apply(AttrKey::MapEnc, Some(String::from("|v: &u8| *v")));
    a.apply(AttrKey::MapDec, Some(String::from("|dec| u8::decode(dec)")));
    for pos in all {
        assert_eq!(a.encode_plan(pos), FieldPlan::Closure(String::from("|v: &u8| *v")));
        assert_eq!(a.decode_plan(pos), FieldPlan::Closure(String::from("|dec| u8::decode(dec)")));
    }
    a.apply(AttrKey::Skip, None);
    assert!(a.skip);
    for pos in all {
        assert_eq!(a.encode_plan(pos), FieldPlan::Skip);
        assert_eq!(a.decode_plan(pos), FieldPlan::Skip);
    }

    let d = FieldAttrs::default();
    assert!(!d.skip && d.via.is_none() && d.map_enc.is_none() && d.map_dec.is_none());
}

#[test]
fn variant_indices() {
    assert_eq!(variant_index(0), 0);
    assert_eq!(variant_index(3), 3);
}
