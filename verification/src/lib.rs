//! # zerec
//!
//! Minimal zero-copy binary codec.
//!
//! - **No schema files.** Types are the schema.
//! - **No runtime reflection.** Everything is resolved at compile time.
//! - **No type tags on the wire.** You know what you are decoding into.
//! - **Little-endian, tightly packed.** No padding, no alignment waste.
//!
//! Every `Encode` implementation here states the bytes it writes, every
//! `Decode` implementation states how it reads them, and [`RoundTrip`]
//! proves that reading back what was written gives the same value having
//! consumed exactly the written bytes.

pub mod error;
pub mod wire;
pub mod encoder;
pub mod decoder;
pub mod codec;
pub mod impls;
pub mod zero_copy;
pub mod adapter;
pub mod layout;

pub use adapter::Adapter;
pub use codec::{Decode, Encode, RoundTrip};
pub use error::DecodeError;
pub use zero_copy::ZeroBuf;
