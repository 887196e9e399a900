//! The shape codec: the byte layout as specification functions, the
//! executable `to_binary` and `from_binary` proved against them, and the
//! laws of the format (round trip, length, rejection of malformed input).
//!
//! Layout, all multi-byte fields big-endian:
//!
//! | offset | size            | field                              |
//! |--------|-----------------|------------------------------------|
//! | 0      | 8               | node count (unsigned 64-bit)       |
//! | 8      | 4               | fill color, one byte per channel   |
//! | 12     | 4               | stroke color, one byte per channel |
//! | 16     | 4               | stroke width (32-bit float bits)   |
//! | 20     | 8 per vertex    | x bits then y bits, 4 bytes each   |

use crate::endian::{
    lemma_u32_be_round_trip, lemma_u64_be_round_trip, push_u32_be, push_u64_be, read_u32_be,
    read_u64_be, spec_u32_from_be_bytes, spec_u32_to_be_bytes, spec_u64_from_be_bytes,
    spec_u64_to_be_bytes,
};
use crate::shape::{Color, Point, Shape, ShapeModel};
use vstd::prelude::*;

verus! {

/// The most vertices a stored shape may declare; `from_binary` rejects a
/// buffer that declares more, however long it is.
pub const MAX_NODE_COUNT: u64 = 10000;

/// Why a byte buffer failed to decode as a shape.
#[derive(Clone, Copy, PartialEq, Eq, Structural, Debug)]
pub enum DecodeError {
    /// The buffer is shorter than the fixed header.
    TruncatedHeader,
    /// The buffer holds `actual` bytes of node data where the declared count
    /// demands `expected`.
    NodeDataLengthMismatch { expected: u128, actual: u128 },
    /// The declared node count exceeds [`MAX_NODE_COUNT`].
    NodeCountOutOfRange,
}

impl DecodeError {
    /// A short human-readable rendering for status display.
    pub fn message(&self) -> (r: &str)
        ensures
            self is TruncatedHeader ==> r@ == "buffer is shorter than the 20-byte header"@,
            self is NodeDataLengthMismatch ==> r@
                == "node data length does not match the declared node count"@,
            self is NodeCountOutOfRange ==> r@ == "declared node count is too large"@,
    {
        match self {
            DecodeError::TruncatedHeader => "buffer is shorter than the 20-byte header",
            DecodeError::NodeDataLengthMismatch { .. } => "node data length does not match the declared node count",
            DecodeError::NodeCountOutOfRange => "declared node count is too large",
        }
    }
}

/// The four channel bytes of a color, in stored order.
pub open spec fn spec_color_to_bytes(c: Color) -> Seq<u8> {
    seq![c.r, c.g, c.b, c.a]
}

/// The color read from four channel bytes.
pub open spec fn spec_color_from_bytes(s: Seq<u8>) -> Color
    recommends
        s.len() == 4,
{
    Color { r: s[0], g: s[1], b: s[2], a: s[3] }
}

/// The eight bytes of one vertex: x bits then y bits, each big-endian.
pub open spec fn spec_point_to_bytes(p: Point) -> Seq<u8> {
    spec_u32_to_be_bytes(p.x_bits) + spec_u32_to_be_bytes(p.y_bits)
}

/// The vertex read from eight bytes.
pub open spec fn spec_point_from_bytes(s: Seq<u8>) -> Point
    recommends
        s.len() == 8,
{
    Point {
        x_bits: spec_u32_from_be_bytes(s.subrange(0, 4)),
        y_bits: spec_u32_from_be_bytes(s.subrange(4, 8)),
    }
}

/// The concatenated byte images of a vertex sequence, in order.
pub open spec fn spec_nodes_to_bytes(ns: Seq<Point>) -> Seq<u8>
    decreases ns.len(),
{
    if ns.len() == 0 {
        Seq::empty()
    } else {
        spec_point_to_bytes(ns[0]) + spec_nodes_to_bytes(ns.drop_first())
    }
}

/// The vertices read from a byte sequence in eight-byte chunks.
pub open spec fn spec_nodes_from_bytes(s: Seq<u8>) -> Seq<Point>
    decreases s.len(),
{
    if s.len() < 8 {
        Seq::empty()
    } else {
        seq![spec_point_from_bytes(s.subrange(0, 8))] + spec_nodes_from_bytes(s.skip(8))
    }
}

/// The full byte image of a shape: the 20-byte header, then the vertex data.
pub open spec fn spec_encode(m: ShapeModel) -> Seq<u8> {
    spec_u64_to_be_bytes(m.node_count) + spec_color_to_bytes(m.fill_color) + spec_color_to_bytes(
        m.stroke_color,
    ) + spec_u32_to_be_bytes(m.stroke_width_bits) + spec_nodes_to_bytes(m.nodes)
}

/// What decoding a byte buffer yields: the shape model, or the first
/// validation failure. The checks run in order: the buffer must reach the
/// header size, the node data must hold exactly eight bytes per declared
/// vertex, and the declared count must not exceed [`MAX_NODE_COUNT`].
pub open spec fn spec_decode(s: Seq<u8>) -> Result<ShapeModel, DecodeError> {
    if s.len() < 20 {
        Err(DecodeError::TruncatedHeader)
    } else {
        let node_count = spec_u64_from_be_bytes(s.subrange(0, 8));
        if s.len() - 20 != 8 * node_count {
            Err(
                DecodeError::NodeDataLengthMismatch {
                    expected: (8 * node_count) as u128,
                    actual: (s.len() - 20) as u128,
                },
            )
        } else if node_count > MAX_NODE_COUNT {
            Err(DecodeError::NodeCountOutOfRange)
        } else {
            Ok(
                ShapeModel {
                    node_count,
                    fill_color: spec_color_from_bytes(s.subrange(8, 12)),
                    stroke_color: spec_color_from_bytes(s.subrange(12, 16)),
                    stroke_width_bits: spec_u32_from_be_bytes(s.subrange(16, 20)),
                    nodes: spec_nodes_from_bytes(s.skip(20)),
                },
            )
        }
    }
}

/// A vertex sequence's byte image holds eight bytes per vertex.
pub proof fn lemma_nodes_to_bytes_len(ns: Seq<Point>)
    ensures
        spec_nodes_to_bytes(ns).len() == 8 * ns.len(),
    decreases ns.len(),
{
    if ns.len() > 0 {
        lemma_nodes_to_bytes_len(ns.drop_first());
    }
}

/// Reading back a vertex sequence's byte image yields the sequence.
pub proof fn lemma_nodes_bytes_round_trip(ns: Seq<Point>)
    ensures
        spec_nodes_from_bytes(spec_nodes_to_bytes(ns)) == ns,
    decreases ns.len(),
{
    lemma_nodes_to_bytes_len(ns);
    let b = spec_nodes_to_bytes(ns);
    if ns.len() == 0 {
        assert(spec_nodes_from_bytes(b) =~= ns);
    } else {
        let p = ns[0];
        let rest = ns.drop_first();
        lemma_nodes_to_bytes_len(rest);
        lemma_u32_be_round_trip(p.x_bits);
        lemma_u32_be_round_trip(p.y_bits);
        assert(b.subrange(0, 8) =~= spec_point_to_bytes(p));
        assert(b.subrange(0, 8).subrange(0, 4) =~= spec_u32_to_be_bytes(p.x_bits));
        assert(b.subrange(0, 8).subrange(4, 8) =~= spec_u32_to_be_bytes(p.y_bits));
        assert(spec_point_from_bytes(b.subrange(0, 8)) == p);
        assert(b.skip(8) =~= spec_nodes_to_bytes(rest));
        lemma_nodes_bytes_round_trip(rest);
        assert(spec_nodes_from_bytes(b) =~= ns);
    }
}

/// Round trip: decoding the encoding of any well-formed shape whose vertex
/// count is within [`MAX_NODE_COUNT`] yields the shape back, exactly.
pub proof fn lemma_encode_decode_round_trip(m: ShapeModel)
    requires
        m.wf(),
        m.node_count <= MAX_NODE_COUNT,
    ensures
        spec_decode(spec_encode(m)) == Ok::<ShapeModel, DecodeError>(m),
{
    let s = spec_encode(m);
    lemma_u64_be_round_trip(m.node_count);
    lemma_u32_be_round_trip(m.stroke_width_bits);
    lemma_nodes_to_bytes_len(m.nodes);
    assert(s.len() == 20 + 8 * m.nodes.len());
    assert(s.subrange(0, 8) =~= spec_u64_to_be_bytes(m.node_count));
    assert(s.subrange(8, 12) =~= spec_color_to_bytes(m.fill_color));
    assert(s.subrange(12, 16) =~= spec_color_to_bytes(m.stroke_color));
    assert(s.subrange(16, 20) =~= spec_u32_to_be_bytes(m.stroke_width_bits));
    assert(s.skip(20) =~= spec_nodes_to_bytes(m.nodes));
    lemma_nodes_bytes_round_trip(m.nodes);
    assert(spec_color_from_bytes(spec_color_to_bytes(m.fill_color)) == m.fill_color);
    assert(spec_color_from_bytes(spec_color_to_bytes(m.stroke_color)) == m.stroke_color);
    let decoded = spec_decode(s);
    assert(decoded matches Ok(d) && d =~= m);
}

/// Any buffer shorter than the 20-byte header is rejected as truncated.
pub proof fn lemma_short_buffer_rejected(s: Seq<u8>)
    requires
        s.len() < 20,
    ensures
        spec_decode(s) == Err::<ShapeModel, DecodeError>(DecodeError::TruncatedHeader),
{
}

/// A buffer whose node data length disagrees with its declared vertex count
/// is rejected, reporting the expected and actual node data sizes.
pub proof fn lemma_length_mismatch_rejected(s: Seq<u8>)
    requires
        s.len() >= 20,
        s.len() - 20 != 8 * spec_u64_from_be_bytes(s.subrange(0, 8)),
    ensures
        spec_decode(s) == Err::<ShapeModel, DecodeError>(
            DecodeError::NodeDataLengthMismatch {
                expected: (8 * spec_u64_from_be_bytes(s.subrange(0, 8))) as u128,
                actual: (s.len() - 20) as u128,
            },
        ),
{
}

/// A shape with no vertices encodes to exactly the 20-byte header, and that
/// header decodes back to the same shape.
pub proof fn lemma_zero_node_round_trip(m: ShapeModel)
    requires
        m.wf(),
        m.node_count == 0,
    ensures
        spec_encode(m).len() == 20,
        spec_decode(spec_encode(m)) == Ok::<ShapeModel, DecodeError>(m),
{
    lemma_nodes_to_bytes_len(m.nodes);
    lemma_encode_decode_round_trip(m);
}

impl Shape {
    /// Serialises the shape into its binary image: `spec_encode` of the
    /// model, `20 + 8 * node_count` bytes in all.
    pub fn to_binary(&self) -> (out: Vec<u8>)
        requires
            self.wf(),
        ensures
            out@ == spec_encode(self@),
            out@.len() == 20 + 8 * (self.node_count as int),
    {
        let mut out: Vec<u8> = Vec::new();
        push_u64_be(&mut out, self.node_count);
        out.push(self.fill_color.r);
        out.push(self.fill_color.g);
        out.push(self.fill_color.b);
        out.push(self.fill_color.a);
        out.push(self.stroke_color.r);
        out.push(self.stroke_color.g);
        out.push(self.stroke_color.b);
        out.push(self.stroke_color.a);
        push_u32_be(&mut out, self.stroke_width_bits);
        let ghost header = spec_u64_to_be_bytes(self.node_count) + spec_color_to_bytes(
            self.fill_color,
        ) + spec_color_to_bytes(self.stroke_color) + spec_u32_to_be_bytes(self.stroke_width_bits);
        proof {
            assert(out@ =~= header);
            assert(self.nodes@.skip(0) =~= self.nodes@);
        }
        let n = self.nodes.len();
        let mut i: usize = 0;
        while i < n
            invariant
                i <= n,
                n == self.nodes@.len(),
                out@ + spec_nodes_to_bytes(self.nodes@.skip(i as int)) == header
                    + spec_nodes_to_bytes(self.nodes@),
            decreases n - i,
        {
            let p = self.nodes[i];
            let ghost before = out@;
            let ghost rest = self.nodes@.skip(i as int);
            push_u32_be(&mut out, p.x_bits);
            push_u32_be(&mut out, p.y_bits);
            proof {
                assert(rest.len() > 0);
                assert(rest[0] == self.nodes@[i as int]);
                assert(rest.drop_first() =~= self.nodes@.skip(i as int + 1));
                assert(spec_nodes_to_bytes(rest) == spec_point_to_bytes(p) + spec_nodes_to_bytes(
                    self.nodes@.skip(i as int + 1),
                ));
                assert(out@ =~= before + spec_point_to_bytes(p));
                assert(out@ + spec_nodes_to_bytes(self.nodes@.skip(i as int + 1)) =~= before
                    + spec_nodes_to_bytes(rest));
            }
            i = i + 1;
        }
        proof {
            assert(self.nodes@.skip(n as int) =~= Seq::<Point>::empty());
            assert(out@ + Seq::<u8>::empty() =~= out@);
            lemma_nodes_to_bytes_len(self.nodes@);
            assert(out@ =~= spec_encode(self@));
        }
        out
    }

    /// Reconstructs a shape from its binary image, validating the header
    /// length, the node data length and the node count bound, in that order.
    /// Returns exactly what `spec_decode` of the buffer says: the shape on
    /// success, the first failed validation otherwise.
    pub fn from_binary(bytes: &Vec<u8>) -> (r: Result<Shape, DecodeError>)
        ensures
            (match spec_decode(bytes@) {
                Ok(m) => r matches Ok(s) && s@ == m && s.wf(),
                Err(e) => r matches Err(a) && a == e,
            }),
    {
        let len = bytes.len();
        if len < 20 {
            return Err(DecodeError::TruncatedHeader);
        }
        let node_count = read_u64_be(bytes, 0);
        let data_len = len - 20;
        let expected: u128 = (node_count as u128) * 8;
        if (data_len as u128) != expected {
            return Err(DecodeError::NodeDataLengthMismatch { expected, actual: data_len as u128 });
        }
        if node_count > MAX_NODE_COUNT {
            return Err(DecodeError::NodeCountOutOfRange);
        }
        let fill_color = Color { r: bytes[8], g: bytes[9], b: bytes[10], a: bytes[11] };
        let stroke_color = Color { r: bytes[12], g: bytes[13], b: bytes[14], a: bytes[15] };
        let stroke_width_bits = read_u32_be(bytes, 16);
        proof {
            assert(spec_color_from_bytes(bytes@.subrange(8, 12)) == fill_color);
            assert(spec_color_from_bytes(bytes@.subrange(12, 16)) == stroke_color);
        }
        let ghost tail = bytes@.skip(20);
        let n = node_count as usize;
        let mut nodes: Vec<Point> = Vec::new();
        let mut i: usize = 0;
        proof {
            assert(tail.skip(0) =~= tail);
        }
        while i < n
            invariant
                i <= n,
                n == node_count,
                node_count <= MAX_NODE_COUNT,
                bytes@.len() == 20 + 8 * (node_count as int),
                tail == bytes@.skip(20),
                nodes@.len() == i,
                nodes@ + spec_nodes_from_bytes(tail.skip(8 * i as int)) == spec_nodes_from_bytes(
                    tail,
                ),
            decreases n - i,
        {
            let off = 20 + 8 * i;
            let x_bits = read_u32_be(bytes, off);
            let y_bits = read_u32_be(bytes, off + 4);
            let p = Point { x_bits, y_bits };
            proof {
                let rest = tail.skip(8 * i as int);
                assert(rest.len() == 8 * ((n - i) as int));
                assert(rest.subrange(0, 8).subrange(0, 4) =~= bytes@.subrange(
                    off as int,
                    off as int + 4,
                ));
                assert(rest.subrange(0, 8).subrange(4, 8) =~= bytes@.subrange(
                    off as int + 4,
                    off as int + 8,
                ));
                assert(spec_point_from_bytes(rest.subrange(0, 8)) == p);
                assert(rest.skip(8) =~= tail.skip(8 * (i as int + 1)));
                assert(spec_nodes_from_bytes(rest) == seq![p] + spec_nodes_from_bytes(
                    tail.skip(8 * (i as int + 1)),
                ));
                assert(nodes@.push(p) + spec_nodes_from_bytes(tail.skip(8 * (i as int + 1)))
                    =~= nodes@ + spec_nodes_from_bytes(rest));
            }
            nodes.push(p);
            i = i + 1;
        }
        proof {
            assert(tail.skip(8 * n as int) =~= Seq::<u8>::empty());
            assert(nodes@ + Seq::<Point>::empty() =~= nodes@);
        }
        let s = Shape { node_count, fill_color, stroke_color, stroke_width_bits, nodes };
        proof {
            let m = spec_decode(bytes@)->Ok_0;
            assert(s@ =~= m);
        }
        Ok(s)
    }
}

} // verus!
