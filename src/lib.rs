//! Decoder for a little-endian, length-prefixed tag-tree binary format.
pub mod bytes;
pub mod decode;
pub mod grammar;
pub mod laws;
pub mod model;
pub mod text;
