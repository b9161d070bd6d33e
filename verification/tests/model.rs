use tagtree::basetag::{
    Color, FlowHorizontal, FlowVertical, StyleBase, StyleType, Tag, TableSizeMethod,
};

fn plain_base() -> StyleBase {
    StyleBase {
        width: 10.0f32.to_bits(),
        height: 10.0f32.to_bits(),
        border_radius: 0.0f32.to_bits(),
        stroke_width: 1.0f32.to_bits(),
        fill_color: Color { r: 255, g: 255, b: 255, a: 255 },
        outline_color: Color { r: 0, g: 0, b: 0, a: 255 },
    }
}

fn leaf(style_type: StyleType) -> Tag {
    Tag { style_type, style_base: plain_base(), children: vec![] }
}

#[test]
fn equality_is_structural_and_deep() {
    let a = Tag {
        style_type: StyleType::Flex,
        style_base: plain_base(),
        children: vec![leaf(StyleType::Newline), leaf(StyleType::Flex)],
    };
    let b = Tag {
        style_type: StyleType::Flex,
        style_base: plain_base(),
        children: vec![leaf(StyleType::Newline), leaf(StyleType::Flex)],
    };
    assert!(a.deep_eq(&b));
    assert_eq!(a, b);
}

#[test]
fn equality_is_order_sensitive_on_children() {
    let a = Tag {
        style_type: StyleType::Flex,
        style_base: plain_base(),
        children: vec![leaf(StyleType::Newline), leaf(StyleType::Flex)],
    };
    let b = Tag {
        style_type: StyleType::Flex,
        style_base: plain_base(),
        children: vec![leaf(StyleType::Flex), leaf(StyleType::Newline)],
    };
    assert!(!a.deep_eq(&b));
    assert_ne!(a, b);
}

#[test]
fn equality_sees_a_deep_difference() {
    let inner_a = Tag {
        style_type: StyleType::Table { size_method: TableSizeMethod::Auto, columns: 3, rows: 2 },
        style_base: plain_base(),
        children: vec![],
    };
    let inner_b = Tag {
        style_type: StyleType::Table { size_method: TableSizeMethod::Auto, columns: 3, rows: 3 },
        style_base: plain_base(),
        children: vec![],
    };
    let wrap = |inner: Tag| Tag {
        style_type: StyleType::Inline {
            flow_horizontal: FlowHorizontal::LeftToRight,
            flow_vertical: FlowVertical::TopToBottom,
        },
        style_base: plain_base(),
        children: vec![inner],
    };
    let a = wrap(inner_a);
    let b = wrap(inner_b);
    assert!(!a.deep_eq(&b));
    assert_ne!(a, b);
}

#[test]
fn equality_sees_a_style_base_difference() {
    let mut other = plain_base();
    other.stroke_width = 2.0f32.to_bits();
    let a = leaf(StyleType::Flex);
    let b = Tag { style_type: StyleType::Flex, style_base: other, children: vec![] };
    assert!(!a.deep_eq(&b));
    assert_ne!(a, b);
}

#[test]
fn children_count_differences_are_seen() {
    let a = Tag {
        style_type: StyleType::Flex,
        style_base: plain_base(),
        children: vec![leaf(StyleType::Flex)],
    };
    let b = Tag { style_type: StyleType::Flex, style_base: plain_base(), children: vec![] };
    assert!(!a.deep_eq(&b));
    assert_ne!(a, b);
}
