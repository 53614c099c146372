//! `Encode` and `Decode` for the standard types.

pub mod primitives;
pub mod sequences;
pub mod option;
pub mod string;
pub mod tuples;
pub mod sizes;
pub mod wire_laws;
