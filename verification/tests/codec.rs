use tagtree::basetag::{
    Color, FlowHorizontal, FlowVertical, StyleBase, StyleType, Tag, TableSizeMethod,
};
use tagtree::codec::{
    decode_style_base_from, decode_style_type_from, decode_tag, decode_tag_from,
    encode_style_base, encode_style_type, encode_tag, DecodeError, DecodeErrorKind, WireField,
};

fn color(r: u8, g: u8, b: u8, a: u8) -> Color {
    Color { r, g, b, a }
}

fn base(width: f32, height: f32, border_radius: f32, stroke_width: f32, fill: Color, outline: Color) -> StyleBase {
    StyleBase {
        width: width.to_bits(),
        height: height.to_bits(),
        border_radius: border_radius.to_bits(),
        stroke_width: stroke_width.to_bits(),
        fill_color: fill,
        outline_color: outline,
    }
}

fn table_leaf() -> Tag {
    Tag {
        style_type: StyleType::Table {
            size_method: TableSizeMethod::Auto,
            columns: 3,
            rows: 2,
        },
        style_base: base(
            200.0,
            20.0,
            15.0,
            2.0,
            color(255, 0, 255, 127),
            color(20, 200, 50, 200),
        ),
        children: vec![],
    }
}

fn flex_with_table_child() -> Tag {
    Tag {
        style_type: StyleType::Flex,
        style_base: base(
            10.0,
            10.0,
            0.0,
            1.0,
            color(255, 255, 255, 255),
            color(0, 0, 0, 255),
        ),
        children: vec![table_leaf()],
    }
}

fn inline_tag(children: Vec<Tag>) -> Tag {
    Tag {
        style_type: StyleType::Inline {
            flow_horizontal: FlowHorizontal::RightToLeft,
            flow_vertical: FlowVertical::TopToBottom,
        },
        style_base: base(1.5, -2.25, 0.0, 0.5, color(1, 2, 3, 4), color(5, 6, 7, 8)),
        children,
    }
}

#[test]
fn round_trip_leaf() {
    let t = table_leaf();
    let bytes = encode_tag(&t);
    let back = decode_tag(&bytes).expect("valid encoding must decode");
    assert_eq!(back, t);
    assert!(back.deep_eq(&t));
}

#[test]
fn round_trip_nested() {
    let t = Tag {
        style_type: StyleType::Newline,
        style_base: base(0.0, 0.0, 0.0, 0.0, color(0, 0, 0, 0), color(0, 0, 0, 0)),
        children: vec![flex_with_table_child(), inline_tag(vec![table_leaf()])],
    };
    let bytes = encode_tag(&t);
    let back = decode_tag(&bytes).expect("valid encoding must decode");
    assert_eq!(back, t);
    assert!(back.deep_eq(&t));
}

#[test]
fn encoding_is_deterministic() {
    let t = flex_with_table_child();
    let a = encode_tag(&t);
    let b = encode_tag(&t);
    assert_eq!(a, b);
}

#[test]
fn flex_leaf_with_table_child_is_84_bytes() {
    let bytes = encode_tag(&flex_with_table_child());
    assert_eq!(bytes.len(), 84);
}

#[test]
fn single_table_node_is_48_bytes() {
    let bytes = encode_tag(&table_leaf());
    assert_eq!(bytes.len(), 48);
}

#[test]
fn bare_table_style_type_is_16_bytes() {
    let st = StyleType::Table {
        size_method: TableSizeMethod::Auto,
        columns: 3,
        rows: 2,
    };
    let bytes = encode_style_type(&st);
    assert_eq!(bytes.len(), 16);
    assert_eq!(
        bytes,
        vec![2, 0, 0, 0, 0, 0, 0, 0, 3, 0, 0, 0, 2, 0, 0, 0]
    );
}

#[test]
fn style_type_layout_is_little_endian_in_declaration_order() {
    assert_eq!(encode_style_type(&StyleType::Flex), vec![0, 0, 0, 0]);
    assert_eq!(encode_style_type(&StyleType::Newline), vec![3, 0, 0, 0]);
    let inline = StyleType::Inline {
        flow_horizontal: FlowHorizontal::RightToLeft,
        flow_vertical: FlowVertical::BottomToTop,
    };
    assert_eq!(
        encode_style_type(&inline),
        vec![1, 0, 0, 0, 1, 0, 0, 0, 1, 0, 0, 0]
    );
    let table = StyleType::Table {
        size_method: TableSizeMethod::Fixed,
        columns: 0x0102_0304,
        rows: 5,
    };
    assert_eq!(
        encode_style_type(&table),
        vec![2, 0, 0, 0, 1, 0, 0, 0, 4, 3, 2, 1, 5, 0, 0, 0]
    );
}

#[test]
fn style_base_layout_is_dims_then_colors() {
    let sb = base(1.0, 2.0, 0.0, -1.0, color(9, 8, 7, 6), color(1, 2, 3, 4));
    let bytes = encode_style_base(&sb);
    assert_eq!(bytes.len(), 24);
    // 1.0f32, 2.0f32, 0.0f32, -1.0f32, little-endian IEEE-754, then R,G,B,A.
    assert_eq!(
        bytes,
        vec![
            0, 0, 128, 63, 0, 0, 0, 64, 0, 0, 0, 0, 0, 0, 128, 191, 9, 8, 7, 6, 1, 2, 3, 4
        ]
    );
}

#[test]
fn truncation_always_fails() {
    let bytes = encode_tag(&flex_with_table_child());
    assert_eq!(bytes.len(), 84);
    for k in 0..bytes.len() {
        let prefix = &bytes[..k];
        assert!(
            decode_tag(prefix).is_err(),
            "a {}-byte strict prefix must not decode",
            k
        );
        assert!(decode_tag_from(prefix, 0).is_err());
    }
}

#[test]
fn empty_children_encode_as_zero_prefix() {
    let t = table_leaf();
    let bytes = encode_tag(&t);
    assert_eq!(&bytes[40..48], &[0u8; 8]);
    let back = decode_tag(&bytes).expect("valid encoding must decode");
    assert!(back.children.is_empty());
}

#[test]
fn empty_input_reports_truncated_style_type() {
    let e = decode_tag(&[]).unwrap_err();
    assert_eq!(
        e,
        DecodeError {
            offset: 0,
            field: WireField::StyleTypeTag,
            kind: DecodeErrorKind::Truncated,
        }
    );
}

#[test]
fn unknown_style_type_discriminant_is_not_truncation() {
    let e = decode_tag(&[9, 0, 0, 0]).unwrap_err();
    assert_eq!(
        e,
        DecodeError {
            offset: 0,
            field: WireField::StyleTypeTag,
            kind: DecodeErrorKind::InvalidDiscriminant,
        }
    );
}

#[test]
fn out_of_range_flow_discriminant_is_reported_at_its_offset() {
    let e = decode_tag(&[1, 0, 0, 0, 7, 0, 0, 0]).unwrap_err();
    assert_eq!(
        e,
        DecodeError {
            offset: 4,
            field: WireField::FlowHorizontalTag,
            kind: DecodeErrorKind::InvalidDiscriminant,
        }
    );
}

#[test]
fn trailing_bytes_are_an_error() {
    let mut bytes = encode_tag(&table_leaf());
    bytes.push(0);
    let e = decode_tag(&bytes).unwrap_err();
    assert_eq!(
        e,
        DecodeError {
            offset: 48,
            field: WireField::EndOfInput,
            kind: DecodeErrorKind::TrailingData,
        }
    );
}

#[test]
fn decode_from_reports_position_after_value() {
    let bytes = encode_tag(&table_leaf());
    let (tag, end) = decode_tag_from(&bytes, 0).expect("valid encoding must decode");
    assert_eq!(end, 48);
    assert_eq!(tag, table_leaf());
}

#[test]
fn style_type_decodes_back() {
    for st in [
        StyleType::Flex,
        StyleType::Newline,
        StyleType::Inline {
            flow_horizontal: FlowHorizontal::LeftToRight,
            flow_vertical: FlowVertical::BottomToTop,
        },
        StyleType::Table {
            size_method: TableSizeMethod::Fixed,
            columns: 7,
            rows: 9,
        },
    ] {
        let bytes = encode_style_type(&st);
        let (back, end) = decode_style_type_from(&bytes, 0).expect("must decode");
        assert_eq!(back, st);
        assert_eq!(end, bytes.len());
    }
}

#[test]
fn style_base_decodes_back() {
    let sb = base(
        3.25,
        -0.5,
        12.0,
        0.125,
        color(10, 20, 30, 40),
        color(50, 60, 70, 80),
    );
    let bytes = encode_style_base(&sb);
    let (back, end) = decode_style_base_from(&bytes, 0).expect("must decode");
    assert_eq!(back, sb);
    assert_eq!(end, 24);
}

#[test]
fn truncated_style_base_names_the_missing_field() {
    let sb = base(1.0, 2.0, 3.0, 4.0, color(0, 0, 0, 0), color(0, 0, 0, 0));
    let bytes = encode_style_base(&sb);
    let e = decode_style_base_from(&bytes[..10], 0).unwrap_err();
    assert_eq!(
        e,
        DecodeError {
            offset: 8,
            field: WireField::BorderRadius,
            kind: DecodeErrorKind::Truncated,
        }
    );
}

#[test]
fn huge_child_count_fails_instead_of_allocating() {
    let mut bytes = encode_tag(&table_leaf());
    // Overwrite the child-count prefix with an implausibly large count.
    for b in &mut bytes[40..48] {
        *b = 0xff;
    }
    assert!(decode_tag(&bytes).is_err());
}
