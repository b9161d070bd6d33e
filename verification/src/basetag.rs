//! The tag-tree data model: one node (`Tag`) carries a layout-behaviour
//! variant (`StyleType`), base visual attributes (`StyleBase`), and an
//! ordered sequence of child tags.

use vstd::prelude::*;

verus! {

/// A 4-component colour, one byte per channel, in R, G, B, A order.
#[derive(Clone, Copy, PartialEq, Eq, Structural, Debug)]
pub struct Color {
    pub r: u8,
    pub g: u8,
    pub b: u8,
    pub a: u8,
}

/// A dimension of some sort (a width, a height, a border radius, a stroke
/// width). The tree and the codec carry it as the raw 32-bit pattern of an
/// IEEE-754 single-precision number; giving the bits a numeric reading is a
/// renderer concern, and non-finite patterns pass through unvalidated.
pub type Dim = u32;

/// Whether table track sizes are computed from content or fixed.
#[derive(Clone, Copy, PartialEq, Eq, Structural, Debug)]
pub enum TableSizeMethod {
    Auto,
    Fixed,
}

/// Horizontal reading/flow direction of an `Inline` node.
#[derive(Clone, Copy, PartialEq, Eq, Structural, Debug)]
pub enum FlowHorizontal {
    LeftToRight,
    RightToLeft,
}

/// Vertical reading/flow direction of an `Inline` node.
#[derive(Clone, Copy, PartialEq, Eq, Structural, Debug)]
pub enum FlowVertical {
    TopToBottom,
    BottomToTop,
}

/// The closed set of layout-behaviour classes; exactly one is active.
#[derive(Clone, Copy, PartialEq, Eq, Structural, Debug)]
pub enum StyleType {
    Flex,
    Inline { flow_horizontal: FlowHorizontal, flow_vertical: FlowVertical },
    Table { size_method: TableSizeMethod, columns: u32, rows: u32 },
    Newline,
}

/// Style information apparent on any tag, regardless of its `StyleType`.
#[derive(Clone, Copy, PartialEq, Eq, Structural, Debug)]
pub struct StyleBase {
    pub width: Dim,
    pub height: Dim,
    pub border_radius: Dim,
    pub stroke_width: Dim,
    pub fill_color: Color,
    pub outline_color: Color,
}

/// One node of the UI description tree. A tag owns its children outright:
/// the value is a tree, never a graph, so no cycle or shared subtree can be
/// built. Child order is significant.
#[derive(PartialEq, Debug)]
pub struct Tag {
    pub style_type: StyleType,
    pub style_base: StyleBase,
    pub children: Vec<Tag>,
}

/// The mathematical model of a `Tag`: the same shape, with the children as
/// a `Seq`. Contracts and proofs speak of this model.
#[verifier::ext_equal]
pub struct TagModel {
    pub style_type: StyleType,
    pub style_base: StyleBase,
    pub children: Seq<TagModel>,
}

impl View for Tag {
    type V = TagModel;

    open spec fn view(&self) -> TagModel
        decreases self, 1int,
    {
        proof {
            assert(decreases_to!(*self => self.children));
            vstd::std_specs::vec::axiom_vec_decreases_to_view(self.children);
        }
        TagModel {
            style_type: self.style_type,
            style_base: self.style_base,
            children: views_of(self.children@),
        }
    }
}

/// The models of a sequence of tags, kept in order.
pub open spec fn views_of(ts: Seq<Tag>) -> Seq<TagModel>
    decreases ts, 0int,
{
    if ts.len() == 0 {
        Seq::empty()
    } else {
        seq![ts[0]@] + views_of(ts.subrange(1, ts.len() as int))
    }
}

/// `views_of` maps each tag of a sequence to its model, index by index.
pub proof fn lemma_views_of(ts: Seq<Tag>)
    ensures
        views_of(ts).len() == ts.len(),
        forall|i: int| 0 <= i < ts.len() ==> views_of(ts)[i] == ts[i]@,
    decreases ts.len(),
{
    if ts.len() > 0 {
        let tail = ts.subrange(1, ts.len() as int);
        lemma_views_of(tail);
        assert(views_of(ts) == seq![ts[0]@] + views_of(tail));
        assert(views_of(ts).len() == 1 + views_of(tail).len());
        assert forall|i: int| 0 <= i < ts.len() implies views_of(ts)[i] == ts[i]@ by {
            if i > 0 {
                assert(views_of(ts)[i] == views_of(tail)[i - 1]);
                assert(tail[i - 1] == ts[i]);
            }
        }
    } else {
        assert(views_of(ts) == Seq::<TagModel>::empty());
    }
}

/// Every child count in the tree fits the 8-byte length prefix of the wire
/// format. Every tree actually held in a `Tag` satisfies this, since each
/// children list is a `Vec`; the bound matters only for the model.
pub open spec fn wf_model(t: TagModel) -> bool
    decreases t,
{
    &&& t.children.len() <= u64::MAX
    &&& forall|i: int| 0 <= i < t.children.len() ==> wf_model(#[trigger] t.children[i])
}

impl Tag {
    /// Structural equality: deep, order-sensitive on children; two trees are
    /// equal exactly when their models are.
    pub fn deep_eq(&self, other: &Tag) -> (r: bool)
        ensures
            r == (self@ == other@),
        decreases self,
    {
        if !(self.style_type == other.style_type) {
            return false;
        }
        if !(self.style_base == other.style_base) {
            return false;
        }
        if self.children.len() != other.children.len() {
            proof {
                lemma_views_of(self.children@);
                lemma_views_of(other.children@);
            }
            return false;
        }
        let n = self.children.len();
        let mut i: usize = 0;
        while i < n
            invariant
                0 <= i <= n,
                n == self.children@.len(),
                n == other.children@.len(),
                self.style_type == other.style_type,
                self.style_base == other.style_base,
                forall|j: int| 0 <= j < i ==> self.children@[j]@ == other.children@[j]@,
            decreases n - i,
        {
            proof {
                vstd::std_specs::vec::axiom_vec_index_decreases(self.children, i as int);
            }
            if !self.children[i].deep_eq(&other.children[i]) {
                proof {
                    lemma_views_of(self.children@);
                    lemma_views_of(other.children@);
                    assert(self@.children[i as int] != other@.children[i as int]);
                }
                return false;
            }
            i += 1;
        }
        proof {
            lemma_views_of(self.children@);
            lemma_views_of(other.children@);
            assert(self@.children =~= other@.children);
            assert(self@ =~= other@);
        }
        true
    }
}

} // verus!
