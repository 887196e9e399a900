//! The in-memory polygon model that the codec persists: colors, vertices,
//! the shape aggregate and its mathematical view.

use vstd::prelude::*;

verus! {

/// An RGBA color, one byte per channel. The codec treats it as an opaque
/// four-byte quantity; how straight and premultiplied alpha relate is the
/// canvas layer's business.
#[derive(Clone, Copy, PartialEq, Eq, Structural, Debug)]
pub struct Color {
    pub r: u8,
    pub g: u8,
    pub b: u8,
    pub a: u8,
}

/// A polygon vertex. Each coordinate is a 32-bit IEEE-754 float in canvas
/// space, carried here as its raw bit pattern: the codec never computes with
/// coordinates, it only moves their bytes, so the bits are the whole story.
#[derive(Clone, Copy, PartialEq, Eq, Structural, Debug)]
pub struct Point {
    pub x_bits: u32,
    pub y_bits: u32,
}

/// The persisted aggregate: vertex count, fill and stroke colors, stroke
/// width (as float bits), and the ordered vertex list. Insertion order is
/// significant: it defines the polygon winding for the renderer.
#[derive(Clone, PartialEq, Eq, Debug)]
pub struct Shape {
    pub node_count: u64,
    pub fill_color: Color,
    pub stroke_color: Color,
    pub stroke_width_bits: u32,
    pub nodes: Vec<Point>,
}

/// The mathematical model of a [`Shape`]: the same fields with the vertex
/// list as a sequence.
#[verifier::ext_equal]
pub struct ShapeModel {
    pub node_count: u64,
    pub fill_color: Color,
    pub stroke_color: Color,
    pub stroke_width_bits: u32,
    pub nodes: Seq<Point>,
}

impl ShapeModel {
    /// A shape is well formed when its declared vertex count matches its
    /// vertex list.
    pub open spec fn wf(self) -> bool {
        self.node_count == self.nodes.len()
    }
}

impl View for Shape {
    type V = ShapeModel;

    open spec fn view(&self) -> ShapeModel {
        ShapeModel {
            node_count: self.node_count,
            fill_color: self.fill_color,
            stroke_color: self.stroke_color,
            stroke_width_bits: self.stroke_width_bits,
            nodes: self.nodes@,
        }
    }
}

impl Shape {
    /// A shape is well formed when its model is.
    pub open spec fn wf(&self) -> bool {
        self@.wf()
    }

    /// Appends a vertex and keeps the declared count in step with the list.
    pub fn add_node(&mut self, p: Point)
        requires
            old(self).wf(),
        ensures
            final(self).wf(),
            final(self).nodes@ == old(self).nodes@.push(p),
            final(self).node_count == old(self).node_count + 1,
            final(self).fill_color == old(self).fill_color,
            final(self).stroke_color == old(self).stroke_color,
            final(self).stroke_width_bits == old(self).stroke_width_bits,
    {
        self.nodes.push(p);
        self.node_count = self.nodes.len() as u64;
    }

    /// Removes and returns the last vertex, if any, keeping the declared
    /// count in step with the list; an empty shape is left unchanged.
    pub fn remove_node(&mut self) -> (r: Option<Point>)
        requires
            old(self).wf(),
        ensures
            final(self).wf(),
            final(self).fill_color == old(self).fill_color,
            final(self).stroke_color == old(self).stroke_color,
            final(self).stroke_width_bits == old(self).stroke_width_bits,
            old(self).nodes@.len() == 0 ==> r is None && final(self).nodes@ == old(self).nodes@,
            old(self).nodes@.len() > 0 ==> r == Some(old(self).nodes@.last())
                && final(self).nodes@ == old(self).nodes@.drop_last(),
    {
        let r = self.nodes.pop();
        self.node_count = self.nodes.len() as u64;
        r
    }
}

impl Default for Shape {
    /// The starting shape the editor offers: a gray triangle of three preset
    /// vertices at (100, 100), (100, 200) and (50, 150), dark gray fill,
    /// lighter gray stroke of width 1. The coordinate and width constants are
    /// the IEEE-754 bit patterns of those float values.
    fn default() -> (s: Shape)
        ensures
            s.wf(),
            s.node_count == 3,
            s.fill_color == (Color { r: 50, g: 50, b: 50, a: 255 }),
            s.stroke_color == (Color { r: 100, g: 100, b: 100, a: 255 }),
            s.stroke_width_bits == 0x3f800000u32,
            s.nodes@ == seq![
                Point { x_bits: 0x42c80000, y_bits: 0x42c80000 },
                Point { x_bits: 0x42c80000, y_bits: 0x43480000 },
                Point { x_bits: 0x42480000, y_bits: 0x43160000 },
            ],
    {
        let nodes: Vec<Point> = vec![
            Point { x_bits: 0x42c80000, y_bits: 0x42c80000 },
            Point { x_bits: 0x42c80000, y_bits: 0x43480000 },
            Point { x_bits: 0x42480000, y_bits: 0x43160000 },
        ];
        proof {
            assert(nodes@ =~= seq![
                Point { x_bits: 0x42c80000, y_bits: 0x42c80000 },
                Point { x_bits: 0x42c80000, y_bits: 0x43480000 },
                Point { x_bits: 0x42480000, y_bits: 0x43160000 },
            ]);
        }
        Shape {
            node_count: 3,
            fill_color: Color { r: 50, g: 50, b: 50, a: 255 },
            stroke_color: Color { r: 100, g: 100, b: 100, a: 255 },
            stroke_width_bits: 0x3f800000,
            nodes,
        }
    }
}

} // verus!
