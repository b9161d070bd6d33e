//! The guarantees of the wire codec, stated and proved over the model:
//! encoding is deterministic, decoding an encoding restores the exact tree,
//! and decoding any strict prefix of an encoding fails.

use vstd::prelude::*;
use vstd::bytes::{
    spec_u32_to_le_bytes, spec_u64_to_le_bytes, lemma_auto_spec_u32_to_from_le_bytes,
    lemma_auto_spec_u64_to_from_le_bytes,
};
use crate::basetag::{StyleType, StyleBase, TagModel, wf_model};
use crate::codec::{
    spec_encode_style_type, spec_encode_style_base, spec_encode_tag, spec_encode_children,
    spec_read_u32, spec_read_u64, spec_read_color, spec_decode_style_type,
    spec_decode_style_base, spec_decode_tag, spec_decode_children, Decoded,
    lemma_decode_tag_bounds, spec_flow_horizontal_code, spec_flow_vertical_code,
    spec_size_method_code,
};

verus! {

/// Taking a window out of a window of `s` is one subrange of `s`.
proof fn lemma_subrange_of_subrange(s: Seq<u8>, i: int, len: int, a: int, b: int)
    requires
        0 <= i,
        i + len <= s.len(),
        0 <= a <= b <= len,
    ensures
        s.subrange(i + a, i + b) == s.subrange(i, i + len).subrange(a, b),
{
    assert(s.subrange(i + a, i + b) =~= s.subrange(i, i + len).subrange(a, b));
}

// ---------------------------------------------------------------------------
// Decoding reads only the bytes of the value: appending input changes nothing
// about an already successful parse.
// ---------------------------------------------------------------------------

proof fn lemma_read_u32_extend(s: Seq<u8>, ext: Seq<u8>, i: int)
    ensures
        spec_read_u32(s, i) matches Some(x) ==> spec_read_u32(s + ext, i) == Some(x),
{
    if let Some(x) = spec_read_u32(s, i) {
        assert((s + ext).subrange(i, i + 4) =~= s.subrange(i, i + 4));
    }
}

proof fn lemma_read_u64_extend(s: Seq<u8>, ext: Seq<u8>, i: int)
    ensures
        spec_read_u64(s, i) matches Some(x) ==> spec_read_u64(s + ext, i) == Some(x),
{
    if let Some(x) = spec_read_u64(s, i) {
        assert((s + ext).subrange(i, i + 8) =~= s.subrange(i, i + 8));
    }
}

proof fn lemma_read_color_extend(s: Seq<u8>, ext: Seq<u8>, i: int)
    ensures
        spec_read_color(s, i) matches Some(c) ==> spec_read_color(s + ext, i) == Some(c),
{
}

proof fn lemma_decode_style_type_extend(s: Seq<u8>, ext: Seq<u8>, i: int)
    ensures
        spec_decode_style_type(s, i) matches Decoded::Parsed(st, j) ==> spec_decode_style_type(
            s + ext,
            i,
        ) == Decoded::<StyleType>::Parsed(st, j),
{
    if let Decoded::Parsed(st, j) = spec_decode_style_type(s, i) {
        lemma_read_u32_extend(s, ext, i);
        lemma_read_u32_extend(s, ext, i + 4);
        lemma_read_u32_extend(s, ext, i + 8);
        lemma_read_u32_extend(s, ext, i + 12);
    }
}

proof fn lemma_decode_style_base_extend(s: Seq<u8>, ext: Seq<u8>, i: int)
    ensures
        spec_decode_style_base(s, i) matches Decoded::Parsed(sb, j) ==> spec_decode_style_base(
            s + ext,
            i,
        ) == Decoded::<StyleBase>::Parsed(sb, j),
{
    if let Decoded::Parsed(sb, j) = spec_decode_style_base(s, i) {
        lemma_read_u32_extend(s, ext, i);
        lemma_read_u32_extend(s, ext, i + 4);
        lemma_read_u32_extend(s, ext, i + 8);
        lemma_read_u32_extend(s, ext, i + 12);
        lemma_read_color_extend(s, ext, i + 16);
        lemma_read_color_extend(s, ext, i + 20);
    }
}

proof fn lemma_decode_tag_extend(s: Seq<u8>, ext: Seq<u8>, i: int)
    ensures
        spec_decode_tag(s, i) matches Decoded::Parsed(t, j) ==> spec_decode_tag(s + ext, i)
            == Decoded::<TagModel>::Parsed(t, j),
    decreases s.len() - i, 0int,
{
    if let Decoded::Parsed(t, j) = spec_decode_tag(s, i) {
        if let Decoded::Parsed(st, a) = spec_decode_style_type(s, i) {
            lemma_decode_style_type_extend(s, ext, i);
            if let Decoded::Parsed(sb, b) = spec_decode_style_base(s, a) {
                lemma_decode_style_base_extend(s, ext, a);
                if let Some(n) = spec_read_u64(s, b) {
                    lemma_read_u64_extend(s, ext, b);
                    lemma_decode_children_extend(s, ext, b + 8, n as int);
                }
            }
        }
    }
}

proof fn lemma_decode_children_extend(s: Seq<u8>, ext: Seq<u8>, i: int, n: int)
    ensures
        spec_decode_children(s, i, n) matches Decoded::Parsed(cs, m) ==> spec_decode_children(
            s + ext,
            i,
            n,
        ) == Decoded::<Seq<TagModel>>::Parsed(cs, m),
    decreases s.len() - i, n + 1,
{
    if n <= 0 {
    } else if i < 0 || s.len() < i {
    } else {
        if let Decoded::Parsed(cs, m) = spec_decode_children(s, i, n) {
            if let Decoded::Parsed(t, j) = spec_decode_tag(s, i) {
                lemma_decode_tag_bounds(s, i);
                lemma_decode_tag_extend(s, ext, i);
                lemma_decode_children_extend(s, ext, j, n - 1);
            }
        }
    }
}

// ---------------------------------------------------------------------------
// Decoding inverts encoding, wherever the encoding sits in the input.
// ---------------------------------------------------------------------------

proof fn lemma_decode_encode_style_type(s: Seq<u8>, st: StyleType, i: int)
    requires
        0 <= i,
        i + spec_encode_style_type(st).len() <= s.len(),
        s.subrange(i, i + spec_encode_style_type(st).len() as int) == spec_encode_style_type(st),
    ensures
        spec_decode_style_type(s, i) == Decoded::<StyleType>::Parsed(
            st,
            i + spec_encode_style_type(st).len() as int,
        ),
{
    lemma_auto_spec_u32_to_from_le_bytes();
    let e = spec_encode_style_type(st);
    match st {
        StyleType::Flex => {
            assert(s.subrange(i, i + 4) == e);
        },
        StyleType::Inline { flow_horizontal, flow_vertical } => {
            let h = spec_flow_horizontal_code(flow_horizontal);
            let v = spec_flow_vertical_code(flow_vertical);
            lemma_subrange_of_subrange(s, i, 12, 0, 4);
            lemma_subrange_of_subrange(s, i, 12, 4, 8);
            lemma_subrange_of_subrange(s, i, 12, 8, 12);
            assert(e.subrange(0, 4) =~= spec_u32_to_le_bytes(1));
            assert(e.subrange(4, 8) =~= spec_u32_to_le_bytes(h));
            assert(e.subrange(8, 12) =~= spec_u32_to_le_bytes(v));
        },
        StyleType::Table { size_method, columns, rows } => {
            let m = spec_size_method_code(size_method);
            lemma_subrange_of_subrange(s, i, 16, 0, 4);
            lemma_subrange_of_subrange(s, i, 16, 4, 8);
            lemma_subrange_of_subrange(s, i, 16, 8, 12);
            lemma_subrange_of_subrange(s, i, 16, 12, 16);
            assert(e.subrange(0, 4) =~= spec_u32_to_le_bytes(2));
            assert(e.subrange(4, 8) =~= spec_u32_to_le_bytes(m));
            assert(e.subrange(8, 12) =~= spec_u32_to_le_bytes(columns));
            assert(e.subrange(12, 16) =~= spec_u32_to_le_bytes(rows));
        },
        StyleType::Newline => {
            assert(s.subrange(i, i + 4) == e);
        },
    }
}

proof fn lemma_decode_encode_style_base(s: Seq<u8>, sb: StyleBase, i: int)
    requires
        0 <= i,
        i + 24 <= s.len(),
        s.subrange(i, i + 24) == spec_encode_style_base(sb),
    ensures
        spec_decode_style_base(s, i) == Decoded::<StyleBase>::Parsed(sb, i + 24),
{
    lemma_auto_spec_u32_to_from_le_bytes();
    let e = spec_encode_style_base(sb);
    lemma_subrange_of_subrange(s, i, 24, 0, 4);
    lemma_subrange_of_subrange(s, i, 24, 4, 8);
    lemma_subrange_of_subrange(s, i, 24, 8, 12);
    lemma_subrange_of_subrange(s, i, 24, 12, 16);
    assert(e.subrange(0, 4) =~= spec_u32_to_le_bytes(sb.width));
    assert(e.subrange(4, 8) =~= spec_u32_to_le_bytes(sb.height));
    assert(e.subrange(8, 12) =~= spec_u32_to_le_bytes(sb.border_radius));
    assert(e.subrange(12, 16) =~= spec_u32_to_le_bytes(sb.stroke_width));
    assert(e[16] == sb.fill_color.r);
    assert(e[17] == sb.fill_color.g);
    assert(e[18] == sb.fill_color.b);
    assert(e[19] == sb.fill_color.a);
    assert(e[20] == sb.outline_color.r);
    assert(e[21] == sb.outline_color.g);
    assert(e[22] == sb.outline_color.b);
    assert(e[23] == sb.outline_color.a);
    assert(s[i + 16] == e[16] && s[i + 17] == e[17] && s[i + 18] == e[18] && s[i + 19] == e[19]);
    assert(s[i + 20] == e[20] && s[i + 21] == e[21] && s[i + 22] == e[22] && s[i + 23] == e[23]);
}

proof fn lemma_decode_encode_tag(s: Seq<u8>, t: TagModel, i: int)
    requires
        wf_model(t),
        0 <= i,
        i + spec_encode_tag(t).len() <= s.len(),
        s.subrange(i, i + spec_encode_tag(t).len() as int) == spec_encode_tag(t),
    ensures
        spec_decode_tag(s, i) == Decoded::<TagModel>::Parsed(
            t,
            i + spec_encode_tag(t).len() as int,
        ),
    decreases t, 1int,
{
    lemma_auto_spec_u32_to_from_le_bytes();
    lemma_auto_spec_u64_to_from_le_bytes();
    let e = spec_encode_tag(t);
    let a = spec_encode_style_type(t.style_type);
    let b = spec_encode_style_base(t.style_base);
    let c = spec_u64_to_le_bytes(t.children.len() as u64);
    let d = spec_encode_children(t.children);
    let al = a.len() as int;
    let bl = b.len() as int;
    let dl = d.len() as int;
    let el = e.len() as int;
    assert(e == a + b + c + d);
    assert(c.len() == 8);
    assert(el == al + bl + 8 + dl);
    lemma_subrange_of_subrange(s, i, el, 0, al);
    assert(e.subrange(0, al) =~= a);
    lemma_decode_encode_style_type(s, t.style_type, i);
    lemma_subrange_of_subrange(s, i, el, al, al + bl);
    assert(e.subrange(al, al + bl) =~= b);
    lemma_decode_encode_style_base(s, t.style_base, i + al);
    lemma_subrange_of_subrange(s, i, el, al + bl, al + bl + 8);
    assert(e.subrange(al + bl, al + bl + 8) =~= c);
    assert(spec_read_u64(s, i + al + bl) == Some(t.children.len() as u64));
    lemma_subrange_of_subrange(s, i, el, al + bl + 8, el);
    assert(e.subrange(al + bl + 8, el) =~= d);
    lemma_decode_encode_children(s, t.children, i + al + bl + 8);
    assert((t.children.len() as u64) as int == t.children.len() as int);
}

proof fn lemma_decode_encode_children(s: Seq<u8>, ts: Seq<TagModel>, i: int)
    requires
        forall|k: int| 0 <= k < ts.len() ==> wf_model(#[trigger] ts[k]),
        0 <= i,
        i + spec_encode_children(ts).len() <= s.len(),
        s.subrange(i, i + spec_encode_children(ts).len() as int) == spec_encode_children(ts),
    ensures
        spec_decode_children(s, i, ts.len() as int) == Decoded::<Seq<TagModel>>::Parsed(
            ts,
            i + spec_encode_children(ts).len() as int,
        ),
    decreases ts, 0int,
{
    let e = spec_encode_children(ts);
    if ts.len() == 0 {
        assert(spec_decode_children(s, i, 0) == Decoded::<Seq<TagModel>>::Parsed(
            Seq::empty(),
            i,
        ));
        assert(ts =~= Seq::<TagModel>::empty());
    } else {
        let tail = ts.subrange(1, ts.len() as int);
        let e0 = spec_encode_tag(ts[0]);
        let er = spec_encode_children(tail);
        let l0 = e0.len() as int;
        let lr = er.len() as int;
        assert(e == e0 + er);
        lemma_subrange_of_subrange(s, i, l0 + lr, 0, l0);
        assert(e.subrange(0, l0) =~= e0);
        lemma_decode_encode_tag(s, ts[0], i);
        lemma_subrange_of_subrange(s, i, l0 + lr, l0, l0 + lr);
        assert(e.subrange(l0, l0 + lr) =~= er);
        lemma_decode_encode_children(s, tail, i + l0);
        assert(seq![ts[0]] + tail =~= ts);
    }
}

// ---------------------------------------------------------------------------
// The laws
// ---------------------------------------------------------------------------

/// Encoding is a function of the tree value alone: equal trees always yield
/// the same byte sequence, so encoding an unchanged value twice yields
/// identical bytes.
pub proof fn lemma_encode_deterministic(a: TagModel, b: TagModel)
    requires
        a == b,
    ensures
        spec_encode_tag(a) == spec_encode_tag(b),
{
}

/// Round trip: decoding the encoding of any well-formed tree succeeds,
/// consumes exactly the encoding, and restores the tree exactly. Every tree
/// held in a `Tag` is well-formed in this sense, since each children list
/// is a `Vec`.
pub proof fn lemma_round_trip(t: TagModel)
    requires
        wf_model(t),
    ensures
        spec_decode_tag(spec_encode_tag(t), 0) == Decoded::<TagModel>::Parsed(
            t,
            spec_encode_tag(t).len() as int,
        ),
{
    let s = spec_encode_tag(t);
    assert(s.subrange(0, s.len() as int) =~= s);
    lemma_decode_encode_tag(s, t, 0);
}

/// Decoding any strict prefix of a valid encoding fails; it never returns a
/// partial value.
pub proof fn lemma_truncation_fails(t: TagModel, k: int)
    requires
        wf_model(t),
        0 <= k < spec_encode_tag(t).len(),
    ensures
        spec_decode_tag(spec_encode_tag(t).take(k), 0) is Fail,
{
    let enc = spec_encode_tag(t);
    let pre = enc.take(k);
    if let Decoded::Parsed(t2, j2) = spec_decode_tag(pre, 0) {
        lemma_decode_tag_bounds(pre, 0);
        lemma_decode_tag_extend(pre, enc.skip(k), 0);
        assert(pre + enc.skip(k) =~= enc);
        lemma_round_trip(t);
        assert(j2 <= k && j2 == enc.len());
        assert(false);
    }
}

/// A tag with no children encodes as its style type, its style base, and an
/// all-zero 8-byte length prefix, with nothing after; by the round-trip law
/// it decodes back to an empty children sequence.
pub proof fn lemma_empty_children_encoding(t: TagModel)
    requires
        t.children.len() == 0,
    ensures
        spec_encode_tag(t) == spec_encode_style_type(t.style_type) + spec_encode_style_base(
            t.style_base,
        ) + spec_u64_to_le_bytes(0),
{
    assert(spec_encode_children(t.children) =~= Seq::<u8>::empty());
    assert(spec_encode_tag(t) =~= spec_encode_style_type(t.style_type) + spec_encode_style_base(
        t.style_base,
    ) + spec_u64_to_le_bytes(0));
}

} // verus!
