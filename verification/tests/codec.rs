use shape_codec::codec::{DecodeError, MAX_NODE_COUNT};
use shape_codec::shape::{Color, Point, Shape};

fn point(x: f32, y: f32) -> Point {
    Point {
        x_bits: x.to_bits(),
        y_bits: y.to_bits(),
    }
}

fn sample_shape(nodes: Vec<Point>) -> Shape {
    Shape {
        node_count: nodes.len() as u64,
        fill_color: Color {
            r: 50,
            g: 50,
            b: 50,
            a: 255,
        },
        stroke_color: Color {
            r: 100,
            g: 100,
            b: 100,
            a: 255,
        },
        stroke_width_bits: 1.0f32.to_bits(),
        nodes,
    }
}

#[test]
fn concrete_end_to_end_example() {
    let shape = sample_shape(vec![point(100.0, 100.0)]);
    let bytes = shape.to_binary();
    let expected: Vec<u8> = vec![
        0x00, 0x00, 0x00, 0x00, 0x00, 0x00, 0x00, 0x01, // node_count = 1
        0x32, 0x32, 0x32, 0xff, // fill color (50, 50, 50, 255)
        0x64, 0x64, 0x64, 0xff, // stroke color (100, 100, 100, 255)
        0x3f, 0x80, 0x00, 0x00, // stroke width 1.0
        0x42, 0xc8, 0x00, 0x00, // x = 100.0
        0x42, 0xc8, 0x00, 0x00, // y = 100.0
    ];
    assert_eq!(bytes, expected);
    let decoded = Shape::from_binary(&bytes).unwrap();
    assert_eq!(decoded, shape);
}

#[test]
fn round_trip_default_shape() {
    let shape = Shape::default();
    let bytes = shape.to_binary();
    let decoded = Shape::from_binary(&bytes).unwrap();
    assert_eq!(decoded, shape);
}

#[test]
fn round_trip_many_nodes() {
    let mut nodes = Vec::new();
    for i in 0..257 {
        nodes.push(point(i as f32 * 1.5, -3.25 * i as f32));
    }
    let shape = sample_shape(nodes);
    let bytes = shape.to_binary();
    assert_eq!(bytes.len(), 20 + 8 * 257);
    let decoded = Shape::from_binary(&bytes).unwrap();
    assert_eq!(decoded, shape);
}

#[test]
fn round_trip_keeps_node_order() {
    let shape = sample_shape(vec![point(1.0, 2.0), point(3.0, 4.0), point(5.0, 6.0)]);
    let decoded = Shape::from_binary(&shape.to_binary()).unwrap();
    let xs: Vec<f32> = decoded.nodes.iter().map(|p| f32::from_bits(p.x_bits)).collect();
    assert_eq!(xs, vec![1.0, 3.0, 5.0]);
}

#[test]
fn round_trip_unusual_float_bits() {
    // The codec moves float bits verbatim: negative, infinite and NaN
    // patterns all survive a round trip bit-for-bit.
    let mut shape = sample_shape(vec![Point {
        x_bits: (-0.0f32).to_bits(),
        y_bits: f32::NAN.to_bits(),
    }]);
    shape.stroke_width_bits = f32::NEG_INFINITY.to_bits();
    let decoded = Shape::from_binary(&shape.to_binary()).unwrap();
    assert_eq!(decoded, shape);
}

#[test]
fn encoded_length_follows_node_count() {
    for n in [0usize, 1, 2, 7] {
        let shape = sample_shape(vec![point(0.0, 0.0); n]);
        assert_eq!(shape.to_binary().len(), 20 + 8 * n);
    }
}

#[test]
fn zero_node_shape() {
    let shape = sample_shape(Vec::new());
    let bytes = shape.to_binary();
    assert_eq!(bytes.len(), 20);
    let decoded = Shape::from_binary(&bytes).unwrap();
    assert_eq!(decoded.node_count, 0);
    assert!(decoded.nodes.is_empty());
    assert_eq!(decoded, shape);
}

#[test]
fn truncated_empty_buffer_rejected() {
    let bytes: Vec<u8> = Vec::new();
    assert_eq!(
        Shape::from_binary(&bytes),
        Err(DecodeError::TruncatedHeader)
    );
}

#[test]
fn truncated_ten_byte_buffer_rejected() {
    let bytes = vec![0u8; 10];
    assert_eq!(
        Shape::from_binary(&bytes),
        Err(DecodeError::TruncatedHeader)
    );
}

#[test]
fn truncated_nineteen_byte_buffer_rejected() {
    let bytes = vec![0u8; 19];
    assert_eq!(
        Shape::from_binary(&bytes),
        Err(DecodeError::TruncatedHeader)
    );
}

#[test]
fn node_data_length_mismatch_rejected() {
    // Header declares two nodes (16 bytes of node data) but only one node
    // (8 bytes) follows.
    let mut bytes = vec![0u8; 28];
    bytes[7] = 2;
    assert_eq!(
        Shape::from_binary(&bytes),
        Err(DecodeError::NodeDataLengthMismatch {
            expected: 16,
            actual: 8,
        })
    );
}

#[test]
fn node_data_length_mismatch_when_too_long() {
    // Header declares zero nodes but four stray bytes follow.
    let bytes = vec![0u8; 24];
    assert_eq!(
        Shape::from_binary(&bytes),
        Err(DecodeError::NodeDataLengthMismatch {
            expected: 0,
            actual: 4,
        })
    );
}

#[test]
fn node_count_out_of_range_rejected() {
    // A buffer whose length matches its declared count, but the count
    // exceeds the supported maximum.
    let n = (MAX_NODE_COUNT + 1) as usize;
    let mut bytes = vec![0u8; 20 + 8 * n];
    let count_bytes = (n as u64).to_be_bytes();
    bytes[..8].copy_from_slice(&count_bytes);
    assert_eq!(
        Shape::from_binary(&bytes),
        Err(DecodeError::NodeCountOutOfRange)
    );
}

#[test]
fn largest_accepted_node_count_round_trips() {
    let n = MAX_NODE_COUNT as usize;
    let shape = sample_shape(vec![point(8.0, -8.0); n]);
    let bytes = shape.to_binary();
    assert_eq!(bytes.len(), 20 + 8 * n);
    let decoded = Shape::from_binary(&bytes).unwrap();
    assert_eq!(decoded, shape);
}

#[test]
fn error_messages_name_the_failure() {
    assert_eq!(
        DecodeError::TruncatedHeader.message(),
        "buffer is shorter than the 20-byte header"
    );
    assert_eq!(
        DecodeError::NodeDataLengthMismatch {
            expected: 16,
            actual: 8,
        }
        .message(),
        "node data length does not match the declared node count"
    );
    assert_eq!(
        DecodeError::NodeCountOutOfRange.message(),
        "declared node count is too large"
    );
}

#[test]
fn default_shape_matches_editor_preset() {
    let shape = Shape::default();
    assert_eq!(shape.node_count, 3);
    assert_eq!(shape.nodes.len(), 3);
    assert_eq!(shape.nodes[0], point(100.0, 100.0));
    assert_eq!(shape.nodes[1], point(100.0, 200.0));
    assert_eq!(shape.nodes[2], point(50.0, 150.0));
    assert_eq!(
        shape.fill_color,
        Color {
            r: 50,
            g: 50,
            b: 50,
            a: 255,
        }
    );
    assert_eq!(
        shape.stroke_color,
        Color {
            r: 100,
            g: 100,
            b: 100,
            a: 255,
        }
    );
    assert_eq!(f32::from_bits(shape.stroke_width_bits), 1.0);
}

#[test]
fn add_node_extends_and_counts() {
    let mut shape = sample_shape(vec![point(1.0, 1.0)]);
    shape.add_node(point(2.0, 2.0));
    assert_eq!(shape.node_count, 2);
    assert_eq!(shape.nodes.len(), 2);
    assert_eq!(shape.nodes[1], point(2.0, 2.0));
}

#[test]
fn remove_node_pops_and_counts() {
    let mut shape = sample_shape(vec![point(1.0, 1.0), point(2.0, 2.0)]);
    assert_eq!(shape.remove_node(), Some(point(2.0, 2.0)));
    assert_eq!(shape.node_count, 1);
    assert_eq!(shape.remove_node(), Some(point(1.0, 1.0)));
    assert_eq!(shape.node_count, 0);
    assert_eq!(shape.remove_node(), None);
    assert_eq!(shape.node_count, 0);
}
