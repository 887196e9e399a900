//! A verified binary codec for a drawable polygon shape.
//!
//! A shape (vertex count, fill and stroke colors, stroke width, and an
//! ordered vertex list) is serialised as a fixed 20-byte header followed by
//! eight bytes per vertex, every multi-byte field big-endian. Decoding
//! validates the header length, the node data length and the node count
//! bound, and reports each failure as a structured error.

pub mod codec;
pub mod endian;
pub mod shape;
