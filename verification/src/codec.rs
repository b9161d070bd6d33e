//! The binary wire codec for the tag tree.
//!
//! The byte layout is fully determined by the shape of the value: each enum
//! is a 4-byte little-endian discriminant in declaration order, followed by
//! that variant's fields in declaration order; `StyleBase` is its four
//! dimension fields (4 bytes each) then its two colours (one byte per
//! channel, R, G, B, A); a children list is an 8-byte little-endian length
//! prefix followed by each child's encoding in order; a `Tag` is its style
//! type, then its style base, then its children. Decoding reconstructs the
//! exact value and fails — reporting the byte offset, the expected field,
//! and whether the input was truncated or carried an out-of-range
//! discriminant — on any malformed input.

use vstd::prelude::*;
use vstd::bytes::{
    spec_u32_to_le_bytes, spec_u32_from_le_bytes, spec_u64_to_le_bytes, spec_u64_from_le_bytes,
    u32_to_le_bytes, u64_to_le_bytes, u32_from_le_bytes, u64_from_le_bytes,
};
use vstd::slice::{slice_subrange, slice_index_get};
use crate::basetag::{
    Color, Tag, TagModel, StyleType, StyleBase, TableSizeMethod, FlowHorizontal, FlowVertical,
    views_of, lemma_views_of, wf_model,
};

verus! {

// ---------------------------------------------------------------------------
// The encoding, as spec functions over the model
// ---------------------------------------------------------------------------

/// Wire code of a horizontal flow direction, in declaration order.
pub open spec fn spec_flow_horizontal_code(f: FlowHorizontal) -> u32 {
    match f {
        FlowHorizontal::LeftToRight => 0,
        FlowHorizontal::RightToLeft => 1,
    }
}

/// Wire code of a vertical flow direction, in declaration order.
pub open spec fn spec_flow_vertical_code(f: FlowVertical) -> u32 {
    match f {
        FlowVertical::TopToBottom => 0,
        FlowVertical::BottomToTop => 1,
    }
}

/// Wire code of a table sizing policy, in declaration order.
pub open spec fn spec_size_method_code(m: TableSizeMethod) -> u32 {
    match m {
        TableSizeMethod::Auto => 0,
        TableSizeMethod::Fixed => 1,
    }
}

/// A colour encodes as its four channel bytes in R, G, B, A order.
pub open spec fn spec_encode_color(c: Color) -> Seq<u8> {
    seq![c.r, c.g, c.b, c.a]
}

/// A `StyleType` encodes as a 4-byte discriminant, then the variant's
/// fields in declaration order; unit variants carry no fields.
pub open spec fn spec_encode_style_type(st: StyleType) -> Seq<u8> {
    match st {
        StyleType::Flex => spec_u32_to_le_bytes(0),
        StyleType::Inline { flow_horizontal, flow_vertical } => spec_u32_to_le_bytes(1)
            + spec_u32_to_le_bytes(spec_flow_horizontal_code(flow_horizontal))
            + spec_u32_to_le_bytes(spec_flow_vertical_code(flow_vertical)),
        StyleType::Table { size_method, columns, rows } => spec_u32_to_le_bytes(2)
            + spec_u32_to_le_bytes(spec_size_method_code(size_method))
            + spec_u32_to_le_bytes(columns) + spec_u32_to_le_bytes(rows),
        StyleType::Newline => spec_u32_to_le_bytes(3),
    }
}

/// A `StyleBase` encodes as its four dimension fields, 4 bytes each in
/// declared order, then its two colour fields.
pub open spec fn spec_encode_style_base(sb: StyleBase) -> Seq<u8> {
    spec_u32_to_le_bytes(sb.width) + spec_u32_to_le_bytes(sb.height)
        + spec_u32_to_le_bytes(sb.border_radius) + spec_u32_to_le_bytes(sb.stroke_width)
        + spec_encode_color(sb.fill_color) + spec_encode_color(sb.outline_color)
}

/// A `Tag` encodes as its style type, its style base, then an 8-byte child
/// count followed by the concatenated encodings of its children in order.
pub open spec fn spec_encode_tag(t: TagModel) -> Seq<u8>
    decreases t,
{
    spec_encode_style_type(t.style_type) + spec_encode_style_base(t.style_base)
        + spec_u64_to_le_bytes(t.children.len() as u64) + spec_encode_children(t.children)
}

/// The concatenated encodings of a sequence of tags, in order.
pub open spec fn spec_encode_children(ts: Seq<TagModel>) -> Seq<u8>
    decreases ts,
{
    if ts.len() == 0 {
        Seq::empty()
    } else {
        spec_encode_tag(ts[0]) + spec_encode_children(ts.subrange(1, ts.len() as int))
    }
}

/// Appending one tag to a prefix of a children list extends the encoding by
/// exactly that tag's encoding.
pub proof fn lemma_encode_children_take_succ(ts: Seq<TagModel>, i: int)
    requires
        0 <= i < ts.len(),
    ensures
        spec_encode_children(ts.take(i + 1)) == spec_encode_children(ts.take(i))
            + spec_encode_tag(ts[i]),
    decreases i,
{
    let a = ts.take(i + 1);
    if i == 0 {
        assert(a =~= seq![ts[0]]);
        assert(a.subrange(1, 1) =~= Seq::<TagModel>::empty());
        assert(ts.take(0) =~= Seq::<TagModel>::empty());
        assert(spec_encode_children(a) == spec_encode_tag(ts[0])
            + spec_encode_children(a.subrange(1, 1)));
        assert(spec_encode_children(a) =~= spec_encode_children(ts.take(0))
            + spec_encode_tag(ts[0]));
    } else {
        let tail = ts.subrange(1, ts.len() as int);
        lemma_encode_children_take_succ(tail, i - 1);
        let b = ts.take(i);
        assert(a.subrange(1, a.len() as int) =~= tail.take(i));
        assert(b.subrange(1, b.len() as int) =~= tail.take(i - 1));
        assert(a[0] == ts[0]);
        assert(b[0] == ts[0]);
        assert(spec_encode_children(a) == spec_encode_tag(ts[0])
            + spec_encode_children(tail.take(i)));
        assert(spec_encode_children(b) == spec_encode_tag(ts[0])
            + spec_encode_children(tail.take(i - 1)));
        assert(tail[i - 1] == ts[i]);
        assert(spec_encode_children(tail.take(i)) == spec_encode_children(tail.take(i - 1))
            + spec_encode_tag(ts[i]));
        assert(spec_encode_children(a) =~= spec_encode_children(b) + spec_encode_tag(ts[i]));
    }
}

// ---------------------------------------------------------------------------
// The decoding, as spec functions over byte sequences
// ---------------------------------------------------------------------------

/// The wire field a decoder was reading when it failed.
#[derive(Clone, Copy, PartialEq, Eq, Structural, Debug)]
pub enum WireField {
    StyleTypeTag,
    FlowHorizontalTag,
    FlowVerticalTag,
    SizeMethodTag,
    Columns,
    Rows,
    Width,
    Height,
    BorderRadius,
    StrokeWidth,
    FillColor,
    OutlineColor,
    ChildCount,
    EndOfInput,
}

/// How decoding failed: the input ended inside the expected field, a
/// discriminant was out of range, or bytes were left after a complete value.
#[derive(Clone, Copy, PartialEq, Eq, Structural, Debug)]
pub enum DecodeErrorKind {
    Truncated,
    InvalidDiscriminant,
    TrailingData,
}

/// A decode failure: the byte offset at which it arose, the field expected
/// there, and the kind of failure.
#[derive(Clone, Copy, PartialEq, Eq, Structural, Debug)]
pub struct DecodeError {
    pub offset: usize,
    pub field: WireField,
    pub kind: DecodeErrorKind,
}

/// Outcome of a decoder: the decoded value with the position just after it,
/// or the failure with its offset, expected field, and kind.
pub enum Decoded<T> {
    Parsed(T, int),
    Fail(int, WireField, DecodeErrorKind),
}

/// The 4-byte little-endian unsigned value at `i`, if it lies within `s`.
pub open spec fn spec_read_u32(s: Seq<u8>, i: int) -> Option<u32> {
    if 0 <= i && i + 4 <= s.len() {
        Option::Some(spec_u32_from_le_bytes(s.subrange(i, i + 4)))
    } else {
        Option::None
    }
}

/// The 8-byte little-endian unsigned value at `i`, if it lies within `s`.
pub open spec fn spec_read_u64(s: Seq<u8>, i: int) -> Option<u64> {
    if 0 <= i && i + 8 <= s.len() {
        Option::Some(spec_u64_from_le_bytes(s.subrange(i, i + 8)))
    } else {
        Option::None
    }
}

/// The colour whose four channel bytes sit at `i`, if they lie within `s`.
pub open spec fn spec_read_color(s: Seq<u8>, i: int) -> Option<Color> {
    if 0 <= i && i + 4 <= s.len() {
        Option::Some(Color { r: s[i], g: s[i + 1], b: s[i + 2], a: s[i + 3] })
    } else {
        Option::None
    }
}

/// Decodes a `StyleType` at `i`: the discriminant, then the variant's
/// fields. An unrecognized discriminant is reported as such, never as
/// truncation.
pub open spec fn spec_decode_style_type(s: Seq<u8>, i: int) -> Decoded<StyleType> {
    match spec_read_u32(s, i) {
        Option::None => Decoded::Fail(i, WireField::StyleTypeTag, DecodeErrorKind::Truncated),
        Option::Some(d) => if d == 0 {
            Decoded::Parsed(StyleType::Flex, i + 4)
        } else if d == 1 {
            match spec_read_u32(s, i + 4) {
                Option::None => Decoded::Fail(
                    i + 4,
                    WireField::FlowHorizontalTag,
                    DecodeErrorKind::Truncated,
                ),
                Option::Some(h) => if 2 <= h {
                    Decoded::Fail(
                        i + 4,
                        WireField::FlowHorizontalTag,
                        DecodeErrorKind::InvalidDiscriminant,
                    )
                } else {
                    match spec_read_u32(s, i + 8) {
                        Option::None => Decoded::Fail(
                            i + 8,
                            WireField::FlowVerticalTag,
                            DecodeErrorKind::Truncated,
                        ),
                        Option::Some(v) => if 2 <= v {
                            Decoded::Fail(
                                i + 8,
                                WireField::FlowVerticalTag,
                                DecodeErrorKind::InvalidDiscriminant,
                            )
                        } else {
                            Decoded::Parsed(
                                StyleType::Inline {
                                    flow_horizontal: if h == 0 {
                                        FlowHorizontal::LeftToRight
                                    } else {
                                        FlowHorizontal::RightToLeft
                                    },
                                    flow_vertical: if v == 0 {
                                        FlowVertical::TopToBottom
                                    } else {
                                        FlowVertical::BottomToTop
                                    },
                                },
                                i + 12,
                            )
                        },
                    }
                },
            }
        } else if d == 2 {
            match spec_read_u32(s, i + 4) {
                Option::None => Decoded::Fail(
                    i + 4,
                    WireField::SizeMethodTag,
                    DecodeErrorKind::Truncated,
                ),
                Option::Some(m) => if 2 <= m {
                    Decoded::Fail(
                        i + 4,
                        WireField::SizeMethodTag,
                        DecodeErrorKind::InvalidDiscriminant,
                    )
                } else {
                    match spec_read_u32(s, i + 8) {
                        Option::None => Decoded::Fail(
                            i + 8,
                            WireField::Columns,
                            DecodeErrorKind::Truncated,
                        ),
                        Option::Some(columns) => match spec_read_u32(s, i + 12) {
                            Option::None => Decoded::Fail(
                                i + 12,
                                WireField::Rows,
                                DecodeErrorKind::Truncated,
                            ),
                            Option::Some(rows) => Decoded::Parsed(
                                StyleType::Table {
                                    size_method: if m == 0 {
                                        TableSizeMethod::Auto
                                    } else {
                                        TableSizeMethod::Fixed
                                    },
                                    columns,
                                    rows,
                                },
                                i + 16,
                            ),
                        },
                    }
                },
            }
        } else if d == 3 {
            Decoded::Parsed(StyleType::Newline, i + 4)
        } else {
            Decoded::Fail(i, WireField::StyleTypeTag, DecodeErrorKind::InvalidDiscriminant)
        },
    }
}

/// Decodes a `StyleBase` at `i`: four dimensions, then two colours.
pub open spec fn spec_decode_style_base(s: Seq<u8>, i: int) -> Decoded<StyleBase> {
    match spec_read_u32(s, i) {
        Option::None => Decoded::Fail(i, WireField::Width, DecodeErrorKind::Truncated),
        Option::Some(width) => match spec_read_u32(s, i + 4) {
            Option::None => Decoded::Fail(i + 4, WireField::Height, DecodeErrorKind::Truncated),
            Option::Some(height) => match spec_read_u32(s, i + 8) {
                Option::None => Decoded::Fail(
                    i + 8,
                    WireField::BorderRadius,
                    DecodeErrorKind::Truncated,
                ),
                Option::Some(border_radius) => match spec_read_u32(s, i + 12) {
                    Option::None => Decoded::Fail(
                        i + 12,
                        WireField::StrokeWidth,
                        DecodeErrorKind::Truncated,
                    ),
                    Option::Some(stroke_width) => match spec_read_color(s, i + 16) {
                        Option::None => Decoded::Fail(
                            i + 16,
                            WireField::FillColor,
                            DecodeErrorKind::Truncated,
                        ),
                        Option::Some(fill_color) => match spec_read_color(s, i + 20) {
                            Option::None => Decoded::Fail(
                                i + 20,
                                WireField::OutlineColor,
                                DecodeErrorKind::Truncated,
                            ),
                            Option::Some(outline_color) => Decoded::Parsed(
                                StyleBase {
                                    width,
                                    height,
                                    border_radius,
                                    stroke_width,
                                    fill_color,
                                    outline_color,
                                },
                                i + 24,
                            ),
                        },
                    },
                },
            },
        },
    }
}

/// Decodes a `Tag` at `i`: style type, style base, child count, children.
pub open spec fn spec_decode_tag(s: Seq<u8>, i: int) -> Decoded<TagModel>
    decreases s.len() - i, 0int,
{
    match spec_decode_style_type(s, i) {
        Decoded::Fail(o, f, k) => Decoded::Fail(o, f, k),
        Decoded::Parsed(style_type, j) => match spec_decode_style_base(s, j) {
            Decoded::Fail(o, f, k) => Decoded::Fail(o, f, k),
            Decoded::Parsed(style_base, j2) => match spec_read_u64(s, j2) {
                Option::None => Decoded::Fail(j2, WireField::ChildCount, DecodeErrorKind::Truncated),
                Option::Some(n) => match spec_decode_children(s, j2 + 8, n as int) {
                    Decoded::Fail(o, f, k) => Decoded::Fail(o, f, k),
                    Decoded::Parsed(children, m) => Decoded::Parsed(
                        TagModel { style_type, style_base, children },
                        m,
                    ),
                },
            },
        },
    }
}

/// Decodes `n` consecutive tags starting at `i`.
pub open spec fn spec_decode_children(s: Seq<u8>, i: int, n: int) -> Decoded<Seq<TagModel>>
    decreases s.len() - i, n + 1,
{
    if n <= 0 {
        Decoded::Parsed(Seq::empty(), i)
    } else if i < 0 || s.len() < i {
        Decoded::Fail(i, WireField::StyleTypeTag, DecodeErrorKind::Truncated)
    } else {
        match spec_decode_tag(s, i) {
            Decoded::Fail(o, f, k) => Decoded::Fail(o, f, k),
            Decoded::Parsed(t, j) => if i <= j && j <= s.len() {
                match spec_decode_children(s, j, n - 1) {
                    Decoded::Fail(o, f, k) => Decoded::Fail(o, f, k),
                    Decoded::Parsed(rest, m) => Decoded::Parsed(seq![t] + rest, m),
                }
            } else {
                arbitrary()
            },
        }
    }
}

/// A successful decode lands strictly past its header and inside the input;
/// a successful children decode yields exactly `n` values and moves forward.
pub proof fn lemma_decode_tag_bounds(s: Seq<u8>, i: int)
    ensures
        spec_decode_tag(s, i) matches Decoded::Parsed(t, j) ==> 0 <= i && i + 36 <= j <= s.len(),
    decreases s.len() - i, 0int,
{
    if let Decoded::Parsed(t, j) = spec_decode_tag(s, i) {
        if let Decoded::Parsed(st, a) = spec_decode_style_type(s, i) {
            if let Decoded::Parsed(sb, b) = spec_decode_style_base(s, a) {
                if let Option::Some(n) = spec_read_u64(s, b) {
                    lemma_decode_children_bounds(s, b + 8, n as int);
                }
            }
        }
    }
}

/// Companion bound for `spec_decode_children`.
pub proof fn lemma_decode_children_bounds(s: Seq<u8>, i: int, n: int)
    ensures
        spec_decode_children(s, i, n) matches Decoded::Parsed(cs, m) ==> {
            &&& i <= m
            &&& cs.len() == if n <= 0 { 0int } else { n }
            &&& (i <= s.len() ==> m <= s.len())
        },
    decreases s.len() - i, n + 1,
{
    if n <= 0 {
    } else if i < 0 || s.len() < i {
    } else {
        if let Decoded::Parsed(t, j) = spec_decode_tag(s, i) {
            lemma_decode_tag_bounds(s, i);
            lemma_decode_children_bounds(s, j, n - 1);
        }
    }
}

// ---------------------------------------------------------------------------
// The encoder
// ---------------------------------------------------------------------------

/// Appends the 4-byte little-endian encoding of `x`.
fn push_u32_le(out: &mut Vec<u8>, x: u32)
    ensures
        final(out)@ == old(out)@ + spec_u32_to_le_bytes(x),
{
    let mut b = u32_to_le_bytes(x);
    out.append(&mut b);
}

/// Appends the 8-byte little-endian encoding of `x`.
fn push_u64_le(out: &mut Vec<u8>, x: u64)
    ensures
        final(out)@ == old(out)@ + spec_u64_to_le_bytes(x),
{
    let mut b = u64_to_le_bytes(x);
    out.append(&mut b);
}

/// Appends the four channel bytes of a colour.
fn push_color(out: &mut Vec<u8>, c: Color)
    ensures
        final(out)@ == old(out)@ + spec_encode_color(c),
{
    out.push(c.r);
    out.push(c.g);
    out.push(c.b);
    out.push(c.a);
    proof {
        assert(out@ =~= old(out)@ + spec_encode_color(c));
    }
}

/// Encodes a bare `StyleType` value.
pub fn encode_style_type(st: &StyleType) -> (out: Vec<u8>)
    ensures
        out@ == spec_encode_style_type(*st),
{
    let mut out: Vec<u8> = Vec::new();
    match st {
        StyleType::Flex => {
            push_u32_le(&mut out, 0);
        },
        StyleType::Inline { flow_horizontal, flow_vertical } => {
            push_u32_le(&mut out, 1);
            push_u32_le(&mut out, match flow_horizontal {
                FlowHorizontal::LeftToRight => 0,
                FlowHorizontal::RightToLeft => 1,
            });
            push_u32_le(&mut out, match flow_vertical {
                FlowVertical::TopToBottom => 0,
                FlowVertical::BottomToTop => 1,
            });
        },
        StyleType::Table { size_method, columns, rows } => {
            push_u32_le(&mut out, 2);
            push_u32_le(&mut out, match size_method {
                TableSizeMethod::Auto => 0,
                TableSizeMethod::Fixed => 1,
            });
            push_u32_le(&mut out, *columns);
            push_u32_le(&mut out, *rows);
        },
        StyleType::Newline => {
            push_u32_le(&mut out, 3);
        },
    }
    proof {
        assert(out@ =~= spec_encode_style_type(*st));
    }
    out
}

/// Encodes a bare `StyleBase` value.
pub fn encode_style_base(sb: &StyleBase) -> (out: Vec<u8>)
    ensures
        out@ == spec_encode_style_base(*sb),
{
    let mut out: Vec<u8> = Vec::new();
    push_u32_le(&mut out, sb.width);
    push_u32_le(&mut out, sb.height);
    push_u32_le(&mut out, sb.border_radius);
    push_u32_le(&mut out, sb.stroke_width);
    push_color(&mut out, sb.fill_color);
    push_color(&mut out, sb.outline_color);
    proof {
        assert(out@ =~= spec_encode_style_base(*sb));
    }
    out
}

/// Encodes a whole tag tree. Encoding a well-formed in-memory value never
/// fails, and the result is determined by the value alone.
#[verifier::loop_isolation(false)]
pub fn encode_tag(t: &Tag) -> (out: Vec<u8>)
    ensures
        out@ == spec_encode_tag(t@),
        wf_model(t@),
    decreases t,
{
    let mut out = encode_style_type(&t.style_type);
    let mut sb = encode_style_base(&t.style_base);
    out.append(&mut sb);
    let n = t.children.len();
    push_u64_le(&mut out, n as u64);
    proof {
        lemma_views_of(t.children@);
    }
    let ghost header = out@;
    let mut i: usize = 0;
    while i < n
        invariant
            0 <= i <= n,
            n == t.children@.len(),
            out@ == header + spec_encode_children(t@.children.take(i as int)),
            forall|j: int| 0 <= j < i ==> wf_model(#[trigger] t@.children[j]),
        decreases n - i,
    {
        proof {
            vstd::std_specs::vec::axiom_vec_index_decreases(t.children, i as int);
            assert(t@.children[i as int] == t.children@[i as int]@);
        }
        let mut c = encode_tag(&t.children[i]);
        out.append(&mut c);
        proof {
            lemma_encode_children_take_succ(t@.children, i as int);
        }
        i += 1;
    }
    proof {
        assert(t@.children.take(n as int) =~= t@.children);
        assert(out@ =~= spec_encode_tag(t@));
        assert(wf_model(t@));
    }
    out
}

// ---------------------------------------------------------------------------
// The decoder
// ---------------------------------------------------------------------------

/// Reads the 4-byte little-endian value at `pos`, if it lies within the input.
fn read_u32_at(bytes: &[u8], pos: usize) -> (r: Option<u32>)
    ensures
        r == spec_read_u32(bytes@, pos as int),
        bytes@.len() <= usize::MAX,
{
    if bytes.len() >= 4 && pos <= bytes.len() - 4 {
        let sub = slice_subrange(bytes, pos, pos + 4);
        Some(u32_from_le_bytes(sub))
    } else {
        None
    }
}

/// Reads the 8-byte little-endian value at `pos`, if it lies within the input.
fn read_u64_at(bytes: &[u8], pos: usize) -> (r: Option<u64>)
    ensures
        r == spec_read_u64(bytes@, pos as int),
        bytes@.len() <= usize::MAX,
{
    if bytes.len() >= 8 && pos <= bytes.len() - 8 {
        let sub = slice_subrange(bytes, pos, pos + 8);
        Some(u64_from_le_bytes(sub))
    } else {
        None
    }
}

/// Reads the four colour channel bytes at `pos`, if they lie within the input.
fn read_color_at(bytes: &[u8], pos: usize) -> (r: Option<Color>)
    ensures
        r == spec_read_color(bytes@, pos as int),
        bytes@.len() <= usize::MAX,
{
    if bytes.len() >= 4 && pos <= bytes.len() - 4 {
        Some(
            Color {
                r: *slice_index_get(bytes, pos),
                g: *slice_index_get(bytes, pos + 1),
                b: *slice_index_get(bytes, pos + 2),
                a: *slice_index_get(bytes, pos + 3),
            },
        )
    } else {
        None
    }
}

/// Decodes a `StyleType` at `pos`, returning the value and the position
/// just after it, or the failure `spec_decode_style_type` describes.
pub fn decode_style_type_from(bytes: &[u8], pos: usize) -> (r: Result<
    (StyleType, usize),
    DecodeError,
>)
    ensures
        (match spec_decode_style_type(bytes@, pos as int) {
            Decoded::Parsed(st, j) => r matches Ok(p) && p.0 == st && p.1 as int == j,
            Decoded::Fail(o, f, k) => r matches Err(e) && e.offset as int == o && e.field == f
                && e.kind == k,
        }),
{
    match read_u32_at(bytes, pos) {
        None => Err(
            DecodeError {
                offset: pos,
                field: WireField::StyleTypeTag,
                kind: DecodeErrorKind::Truncated,
            },
        ),
        Some(d) => {
            if d == 0 {
                Ok((StyleType::Flex, pos + 4))
            } else if d == 1 {
                let o1 = pos + 4;
                match read_u32_at(bytes, o1) {
                    None => Err(
                        DecodeError {
                            offset: o1,
                            field: WireField::FlowHorizontalTag,
                            kind: DecodeErrorKind::Truncated,
                        },
                    ),
                    Some(h) => {
                        if 2 <= h {
                            Err(
                                DecodeError {
                                    offset: o1,
                                    field: WireField::FlowHorizontalTag,
                                    kind: DecodeErrorKind::InvalidDiscriminant,
                                },
                            )
                        } else {
                            let o2 = o1 + 4;
                            match read_u32_at(bytes, o2) {
                                None => Err(
                                    DecodeError {
                                        offset: o2,
                                        field: WireField::FlowVerticalTag,
                                        kind: DecodeErrorKind::Truncated,
                                    },
                                ),
                                Some(v) => {
                                    if 2 <= v {
                                        Err(
                                            DecodeError {
                                                offset: o2,
                                                field: WireField::FlowVerticalTag,
                                                kind: DecodeErrorKind::InvalidDiscriminant,
                                            },
                                        )
                                    } else {
                                        Ok(
                                            (
                                                StyleType::Inline {
                                                    flow_horizontal: if h == 0 {
                                                        FlowHorizontal::LeftToRight
                                                    } else {
                                                        FlowHorizontal::RightToLeft
                                                    },
                                                    flow_vertical: if v == 0 {
                                                        FlowVertical::TopToBottom
                                                    } else {
                                                        FlowVertical::BottomToTop
                                                    },
                                                },
                                                o2 + 4,
                                            ),
                                        )
                                    }
                                },
                            }
                        }
                    },
                }
            } else if d == 2 {
                let o1 = pos + 4;
                match read_u32_at(bytes, o1) {
                    None => Err(
                        DecodeError {
                            offset: o1,
                            field: WireField::SizeMethodTag,
                            kind: DecodeErrorKind::Truncated,
                        },
                    ),
                    Some(m) => {
                        if 2 <= m {
                            Err(
                                DecodeError {
                                    offset: o1,
                                    field: WireField::SizeMethodTag,
                                    kind: DecodeErrorKind::InvalidDiscriminant,
                                },
                            )
                        } else {
                            let o2 = o1 + 4;
                            match read_u32_at(bytes, o2) {
                                None => Err(
                                    DecodeError {
                                        offset: o2,
                                        field: WireField::Columns,
                                        kind: DecodeErrorKind::Truncated,
                                    },
                                ),
                                Some(columns) => {
                                    let o3 = o2 + 4;
                                    match read_u32_at(bytes, o3) {
                                        None => Err(
                                            DecodeError {
                                                offset: o3,
                                                field: WireField::Rows,
                                                kind: DecodeErrorKind::Truncated,
                                            },
                                        ),
                                        Some(rows) => Ok(
                                            (
                                                StyleType::Table {
                                                    size_method: if m == 0 {
                                                        TableSizeMethod::Auto
                                                    } else {
                                                        TableSizeMethod::Fixed
                                                    },
                                                    columns,
                                                    rows,
                                                },
                                                o3 + 4,
                                            ),
                                        ),
                                    }
                                },
                            }
                        }
                    },
                }
            } else if d == 3 {
                Ok((StyleType::Newline, pos + 4))
            } else {
                Err(
                    DecodeError {
                        offset: pos,
                        field: WireField::StyleTypeTag,
                        kind: DecodeErrorKind::InvalidDiscriminant,
                    },
                )
            }
        },
    }
}

/// Decodes a `StyleBase` at `pos`, returning the value and the position
/// just after it, or the failure `spec_decode_style_base` describes.
pub fn decode_style_base_from(bytes: &[u8], pos: usize) -> (r: Result<
    (StyleBase, usize),
    DecodeError,
>)
    ensures
        (match spec_decode_style_base(bytes@, pos as int) {
            Decoded::Parsed(sb, j) => r matches Ok(p) && p.0 == sb && p.1 as int == j,
            Decoded::Fail(o, f, k) => r matches Err(e) && e.offset as int == o && e.field == f
                && e.kind == k,
        }),
{
    let width = match read_u32_at(bytes, pos) {
        None => {
            return Err(
                DecodeError {
                    offset: pos,
                    field: WireField::Width,
                    kind: DecodeErrorKind::Truncated,
                },
            );
        },
        Some(x) => x,
    };
    let o1 = pos + 4;
    let height = match read_u32_at(bytes, o1) {
        None => {
            return Err(
                DecodeError {
                    offset: o1,
                    field: WireField::Height,
                    kind: DecodeErrorKind::Truncated,
                },
            );
        },
        Some(x) => x,
    };
    let o2 = o1 + 4;
    let border_radius = match read_u32_at(bytes, o2) {
        None => {
            return Err(
                DecodeError {
                    offset: o2,
                    field: WireField::BorderRadius,
                    kind: DecodeErrorKind::Truncated,
                },
            );
        },
        Some(x) => x,
    };
    let o3 = o2 + 4;
    let stroke_width = match read_u32_at(bytes, o3) {
        None => {
            return Err(
                DecodeError {
                    offset: o3,
                    field: WireField::StrokeWidth,
                    kind: DecodeErrorKind::Truncated,
                },
            );
        },
        Some(x) => x,
    };
    let o4 = o3 + 4;
    let fill_color = match read_color_at(bytes, o4) {
        None => {
            return Err(
                DecodeError {
                    offset: o4,
                    field: WireField::FillColor,
                    kind: DecodeErrorKind::Truncated,
                },
            );
        },
        Some(c) => c,
    };
    let o5 = o4 + 4;
    let outline_color = match read_color_at(bytes, o5) {
        None => {
            return Err(
                DecodeError {
                    offset: o5,
                    field: WireField::OutlineColor,
                    kind: DecodeErrorKind::Truncated,
                },
            );
        },
        Some(c) => c,
    };
    Ok((StyleBase { width, height, border_radius, stroke_width, fill_color, outline_color }, o5
        + 4))
}

/// Decodes a `Tag` at `pos`, returning the tree and the position just after
/// it, or the failure `spec_decode_tag` describes.
#[verifier::loop_isolation(false)]
pub fn decode_tag_from(bytes: &[u8], pos: usize) -> (r: Result<(Tag, usize), DecodeError>)
    ensures
        (match spec_decode_tag(bytes@, pos as int) {
            Decoded::Parsed(t, j) => r matches Ok(p) && p.0@ == t && p.1 as int == j,
            Decoded::Fail(o, f, k) => r matches Err(e) && e.offset as int == o && e.field == f
                && e.kind == k,
        }),
    decreases bytes@.len() - pos,
{
    let st = match decode_style_type_from(bytes, pos) {
        Err(e) => {
            return Err(e);
        },
        Ok(p) => p,
    };
    let sb = match decode_style_base_from(bytes, st.1) {
        Err(e) => {
            return Err(e);
        },
        Ok(p) => p,
    };
    let cnt = match read_u64_at(bytes, sb.1) {
        None => {
            return Err(
                DecodeError {
                    offset: sb.1,
                    field: WireField::ChildCount,
                    kind: DecodeErrorKind::Truncated,
                },
            );
        },
        Some(n) => n,
    };
    let mut cur: usize = sb.1 + 8;
    let ghost start = cur as int;
    let mut children: Vec<Tag> = Vec::new();
    let mut done: u64 = 0;
    proof {
        assert((pos as int) < start);
        lemma_views_of(children@);
        assert(views_of(children@) =~= Seq::<TagModel>::empty());
        match spec_decode_children(bytes@, start, cnt as int) {
            Decoded::Parsed(rest, m) => {
                assert(views_of(children@) + rest =~= rest);
            },
            Decoded::Fail(o, f, k) => {},
        }
    }
    while done < cnt
        invariant
            done <= cnt,
            children@.len() == done as int,
            (pos as int) < (cur as int),
            cur as int <= bytes@.len(),
            (match spec_decode_children(bytes@, cur as int, cnt as int - done as int) {
                Decoded::Parsed(rest, m) => spec_decode_children(bytes@, start, cnt as int)
                    == Decoded::<Seq<TagModel>>::Parsed(views_of(children@) + rest, m),
                Decoded::Fail(o, f, k) => spec_decode_children(bytes@, start, cnt as int)
                    == Decoded::<Seq<TagModel>>::Fail(o, f, k),
            }),
        decreases cnt - done,
    {
        match decode_tag_from(bytes, cur) {
            Err(e) => {
                return Err(e);
            },
            Ok(p) => {
                proof {
                    lemma_decode_tag_bounds(bytes@, cur as int);
                    let ghost oldch = children@;
                    lemma_views_of(oldch);
                    lemma_views_of(oldch.push(p.0));
                    assert(views_of(oldch.push(p.0)) =~= views_of(oldch) + seq![p.0@]);
                    match spec_decode_children(
                        bytes@,
                        p.1 as int,
                        cnt as int - done as int - 1,
                    ) {
                        Decoded::Parsed(rest, m) => {
                            assert(views_of(oldch) + (seq![p.0@] + rest) =~= (views_of(oldch)
                                + seq![p.0@]) + rest);
                        },
                        Decoded::Fail(o, f, k) => {},
                    }
                }
                children.push(p.0);
                cur = p.1;
            },
        }
        done = done + 1;
    }
    let result = Tag { style_type: st.0, style_base: sb.0, children };
    proof {
        assert(spec_decode_children(bytes@, cur as int, 0) == Decoded::<Seq<TagModel>>::Parsed(
            Seq::empty(),
            cur as int,
        ));
        match spec_decode_children(bytes@, start, cnt as int) {
            Decoded::Parsed(rest, m) => {
                assert(views_of(result.children@) + Seq::<TagModel>::empty() =~= views_of(
                    result.children@,
                ));
            },
            Decoded::Fail(o, f, k) => {},
        }
        assert(result@.children == views_of(result.children@));
    }
    Ok((result, cur))
}

/// Decodes one complete `Tag` from the whole input. Bytes left over after a
/// complete tree are an error, as is any failure `spec_decode_tag` describes.
pub fn decode_tag(bytes: &[u8]) -> (r: Result<Tag, DecodeError>)
    ensures
        (match spec_decode_tag(bytes@, 0) {
            Decoded::Parsed(t, j) => if j == bytes@.len() {
                r matches Ok(tag) && tag@ == t
            } else {
                r matches Err(e) && e.offset as int == j && e.field == WireField::EndOfInput
                    && e.kind == DecodeErrorKind::TrailingData
            },
            Decoded::Fail(o, f, k) => r matches Err(e) && e.offset as int == o && e.field == f
                && e.kind == k,
        }),
{
    match decode_tag_from(bytes, 0) {
        Err(e) => Err(e),
        Ok(p) => {
            if p.1 == bytes.len() {
                Ok(p.0)
            } else {
                Err(
                    DecodeError {
                        offset: p.1,
                        field: WireField::EndOfInput,
                        kind: DecodeErrorKind::TrailingData,
                    },
                )
            }
        },
    }
}

} // verus!
