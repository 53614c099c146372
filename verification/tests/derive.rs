//! Tests for the layout that `#[derive(Encode, Decode)]` gives structs and
//! enums. Each impl below is written out as the derive writes it: fields in
//! declaration order, enum variants as a `u32` index followed by their
//! fields, skipped fields left off the wire and filled with their default.

use zerec::codec::{from_bytes, to_bytes};
use zerec::decoder::BufDecoder;
use zerec::encoder::BufEncoder;
use zerec::{Adapter, Decode, DecodeError, Encode};

// A float is written as its IEEE 754 bit pattern.
fn put_f32(v: f32, enc: &mut BufEncoder) {
    enc.write_u32(v.to_bits());
}

fn get_f32(dec: &mut BufDecoder<'_>) -> Result<f32, DecodeError> {
    dec.read_u32().map(f32::from_bits)
}

// ── basic struct ──────────────────────────────────────────────────────────

#[derive(Debug, PartialEq)]
struct Point {
    x: f32,
    y: f32,
}

impl Encode for Point {
    fn encode(&self, enc: &mut BufEncoder) {
        put_f32(self.x, enc);
        put_f32(self.y, enc);
    }
}

impl Decode for Point {
    fn decode(dec: &mut BufDecoder<'_>) -> Result<Self, DecodeError> {
        Ok(Point { x: get_f32(dec)?, y: get_f32(dec)? })
    }
}

#[test]
fn derive_basic_struct() {
    let p = Point { x: 1.0, y: -2.5 };
    assert_eq!(from_bytes::<Point>(&to_bytes(&p)).unwrap(), p);
}

#[test]
fn derive_struct_wire_size() {
    let p = Point { x: 0.0, y: 0.0 };
    assert_eq!(to_bytes(&p).len(), 8); // 2 x f32
}

// ── nested struct ─────────────────────────────────────────────────────────

#[derive(Debug, PartialEq)]
struct Bullet {
    origin: Point,
    damage: u32,
    active: bool,
}

impl Encode for Bullet {
    fn encode(&self, enc: &mut BufEncoder) {
        self.origin.encode(enc);
        self.damage.encode(enc);
        self.active.encode(enc);
    }
}

impl Decode for Bullet {
    fn decode(dec: &mut BufDecoder<'_>) -> Result<Self, DecodeError> {
        Ok(Bullet {
            origin: Decode::decode(dec)?,
            damage: Decode::decode(dec)?,
            active: Decode::decode(dec)?,
        })
    }
}

#[test]
fn derive_nested_struct() {
    let b = Bullet { origin: Point { x: 1.0, y: 2.0 }, damage: 42, active: true };
    assert_eq!(from_bytes::<Bullet>(&to_bytes(&b)).unwrap(), b);
}

// ── tuple struct ──────────────────────────────────────────────────────────

#[derive(Debug, PartialEq)]
struct Rgb(u8, u8, u8);

impl Encode for Rgb {
    fn encode(&self, enc: &mut BufEncoder) {
        self.0.encode(enc);
        self.1.encode(enc);
        self.2.encode(enc);
    }
}

impl Decode for Rgb {
    fn decode(dec: &mut BufDecoder<'_>) -> Result<Self, DecodeError> {
        Ok(Rgb(Decode::decode(dec)?, Decode::decode(dec)?, Decode::decode(dec)?))
    }
}

#[test]
fn derive_tuple_struct() {
    let c = Rgb(255, 128, 0);
    assert_eq!(from_bytes::<Rgb>(&to_bytes(&c)).unwrap(), c);
}

// ── unit struct ───────────────────────────────────────────────────────────

#[derive(Debug, PartialEq)]
struct Marker;

impl Encode for Marker {
    fn encode(&self, _enc: &mut BufEncoder) {}
}

impl Decode for Marker {
    fn decode(_dec: &mut BufDecoder<'_>) -> Result<Self, DecodeError> {
        Ok(Marker)
    }
}

#[test]
fn derive_unit_struct() {
    let m = Marker;
    let bytes = to_bytes(&m);
    assert_eq!(bytes.len(), 0);
    from_bytes::<Marker>(&bytes).unwrap();
}

// ── enum ─────────────────────────────────────────────────────────────────

#[derive(Debug, PartialEq)]
enum Direction {
    North,
    South,
    East,
    West,
}

impl Encode for Direction {
    fn encode(&self, enc: &mut BufEncoder) {
        match self {
            Direction::North => enc.write_u32(0),
            Direction::South => enc.write_u32(1),
            Direction::East => enc.write_u32(2),
            Direction::West => enc.write_u32(3),
        }
    }
}

impl Decode for Direction {
    fn decode(dec: &mut BufDecoder<'_>) -> Result<Self, DecodeError> {
        let v = dec.read_u32()?;
        Ok(match v {
            0 => Direction::North,
            1 => Direction::South,
            2 => Direction::East,
            3 => Direction::West,
            _ => return Err(DecodeError::UnknownVariant(v)),
        })
    }
}

#[test]
fn derive_unit_enum() {
    for v in [Direction::North, Direction::South, Direction::East, Direction::West] {
        let bytes = to_bytes(&v);
        assert_eq!(bytes.len(), 4); // u32 variant index
        assert_eq!(from_bytes::<Direction>(&bytes).unwrap(), v);
    }
}

#[derive(Debug, PartialEq)]
enum Message {
    Ping,
    Move { x: f32, y: f32 },
    Attack(u32),
}

impl Encode for Message {
    fn encode(&self, enc: &mut BufEncoder) {
        match self {
            Message::Ping => enc.write_u32(0),
            Message::Move { x, y } => {
                enc.write_u32(1);
                put_f32(*x, enc);
                put_f32(*y, enc);
            }
            Message::Attack(f0) => {
                enc.write_u32(2);
                f0.encode(enc);
            }
        }
    }
}

impl Decode for Message {
    fn decode(dec: &mut BufDecoder<'_>) -> Result<Self, DecodeError> {
        let v = dec.read_u32()?;
        Ok(match v {
            0 => Message::Ping,
            1 => Message::Move { x: get_f32(dec)?, y: get_f32(dec)? },
            2 => Message::Attack(Decode::decode(dec)?),
            _ => return Err(DecodeError::UnknownVariant(v)),
        })
    }
}

#[test]
fn derive_enum_variants() {
    let cases = [Message::Ping, Message::Move { x: 1.0, y: 2.0 }, Message::Attack(999)];
    for msg in cases {
        assert_eq!(from_bytes::<Message>(&to_bytes(&msg)).unwrap(), msg);
    }
}

#[test]
fn derive_enum_unknown_variant() {
    // variant index 99 does not exist
    let bytes = to_bytes(&99u32);
    let result = from_bytes::<Direction>(&bytes);
    assert!(matches!(result, Err(DecodeError::UnknownVariant(99))));
}

// ── skipped field ────────────────────────────────────────────────────────

#[derive(Debug, PartialEq)]
struct WithSkip {
    written: u32,
    transient: u64,
}

impl Encode for WithSkip {
    fn encode(&self, enc: &mut BufEncoder) {
        self.written.encode(enc);
    }
}

impl Decode for WithSkip {
    fn decode(dec: &mut BufDecoder<'_>) -> Result<Self, DecodeError> {
        Ok(WithSkip { written: Decode::decode(dec)?, transient: Default::default() })
    }
}

#[test]
fn derive_skip() {
    let v = WithSkip { written: 7, transient: 999 };
    let bytes = to_bytes(&v);
    assert_eq!(bytes.len(), 4); // only `written` on the wire
    let back = from_bytes::<WithSkip>(&bytes).unwrap();
    assert_eq!(back.written, 7);
    assert_eq!(back.transient, 0); // Default::default()
}

// ── field routed through an adapter ──────────────────────────────────────

// A foreign type we cannot impl Encode/Decode on directly.
struct Velocity {
    dx: f32,
    dy: f32,
}

struct VelocityAdapter;

impl Adapter<Velocity> for VelocityAdapter {
    // The two floats, as their bit patterns.
    type Repr = (u32, u32);

    fn to_repr(v: &Velocity) -> Self::Repr {
        (v.dx.to_bits(), v.dy.to_bits())
    }

    fn from_repr(r: Self::Repr) -> Velocity {
        Velocity { dx: f32::from_bits(r.0), dy: f32::from_bits(r.1) }
    }
}

struct Projectile {
    vel: Velocity,
    damage: u32,
}

impl Encode for Projectile {
    fn encode(&self, enc: &mut BufEncoder) {
        <VelocityAdapter as Adapter<_>>::encode_via(&self.vel, enc);
        self.damage.encode(enc);
    }
}

impl Decode for Projectile {
    fn decode(dec: &mut BufDecoder<'_>) -> Result<Self, DecodeError> {
        Ok(Projectile {
            vel: <VelocityAdapter as Adapter<_>>::decode_via(dec)?,
            damage: Decode::decode(dec)?,
        })
    }
}

#[test]
fn derive_via_adapter() {
    let p = Projectile { vel: Velocity { dx: 10.0, dy: -3.0 }, damage: 5 };
    let bytes = to_bytes(&p);
    assert_eq!(bytes.len(), 12); // 2 x f32 + u32
    let back = from_bytes::<Projectile>(&bytes).unwrap();
    assert_eq!(back.vel.dx, 10.0);
    assert_eq!(back.vel.dy, -3.0);
    assert_eq!(back.damage, 5);
}

// ── field written and read through closures ──────────────────────────────

#[derive(Debug, PartialEq)]
struct Packed {
    position: [f32; 3],
    hp: u32,
}

impl Encode for Packed {
    fn encode(&self, enc: &mut BufEncoder) {
        {
            let f = |v: &[f32; 3]| v.map(f32::to_bits);
            f(&self.position).encode(enc);
        }
        self.hp.encode(enc);
    }
}

impl Decode for Packed {
    fn decode(dec: &mut BufDecoder<'_>) -> Result<Self, DecodeError> {
        Ok(Packed {
            position: {
                let f = |dec: &mut BufDecoder<'_>| -> Result<[f32; 3], DecodeError> {
                    let a: [u32; 3] = Decode::decode(dec)?;
                    Ok(a.map(f32::from_bits))
                };
                f(dec)?
            },
            hp: Decode::decode(dec)?,
        })
    }
}

#[test]
fn derive_map_enc_dec() {
    let v = Packed { position: [1.0, 2.0, 3.0], hp: 100 };
    assert_eq!(from_bytes::<Packed>(&to_bytes(&v)).unwrap(), v);
}

// ── generics ─────────────────────────────────────────────────────────────

#[derive(Debug, PartialEq)]
struct Wrapper<T> {
    value: T,
    tag: u8,
}

impl<T: Encode> Encode for Wrapper<T> {
    fn encode(&self, enc: &mut BufEncoder) {
        self.value.encode(enc);
        self.tag.encode(enc);
    }
}

impl<T: Decode> Decode for Wrapper<T> {
    fn decode(dec: &mut BufDecoder<'_>) -> Result<Self, DecodeError> {
        Ok(Wrapper { value: Decode::decode(dec)?, tag: Decode::decode(dec)? })
    }
}

#[test]
fn derive_generic_struct() {
    let w = Wrapper { value: 42u32, tag: 1 };
    assert_eq!(from_bytes::<Wrapper<u32>>(&to_bytes(&w)).unwrap(), w);
}
