//! A text element's subtree, stored in document order.
//!
//! Node `i` owns the nodes `i + 1 .. end`: its descendants follow it directly,
//! so a node's children are found by jumping from one child's `end` to the next.
use vstd::prelude::*;

verus! {

/// The attributes of an element that text layout reads.
pub struct ElementAttrs<T> {
    pub x: Option<Vec<T>>,
    pub y: Option<Vec<T>>,
    pub dx: Option<Vec<T>>,
    pub dy: Option<Vec<T>>,
    pub rotate: Option<Vec<T>>,
    pub text_decoration: Option<String>,
}

pub enum NodeKind<T> {
    Element(ElementAttrs<T>),
    Text(String),
}

pub struct TextNode<T> {
    pub kind: NodeKind<T>,
    /// One past the index of this node's last descendant.
    pub end: usize,
}

/// A text element (at index 0) and all of its descendants, in document order.
pub struct TextTree<T> {
    pub nodes: Vec<TextNode<T>>,
}

/// The number of Unicode code points a node contributes by itself.
pub open spec fn leaf_len<T>(n: TextNode<T>) -> nat {
    match n.kind {
        NodeKind::Text(s) => s@.len(),
        NodeKind::Element(_) => 0,
    }
}

pub open spec fn is_text<T>(n: TextNode<T>) -> bool {
    n.kind is Text
}

/// The code points held by the text leaves among `nodes[lo..hi]`.
pub open spec fn chars_in<T>(nodes: Seq<TextNode<T>>, lo: int, hi: int) -> nat
    decreases hi - lo,
{
    if hi <= lo {
        0
    } else {
        chars_in(nodes, lo, hi - 1) + leaf_len(nodes[hi - 1])
    }
}

/// The code points under node `i`, itself included.
pub open spec fn governed_chars<T>(nodes: Seq<TextNode<T>>, i: int) -> nat {
    chars_in(nodes, i, nodes[i].end as int)
}

/// The code points of the whole text element.
pub open spec fn total_chars<T>(nodes: Seq<TextNode<T>>) -> nat {
    chars_in(nodes, 0, nodes.len() as int)
}

/// Node `i` is node `j` or one of its ancestors.
pub open spec fn is_ancestor_or_self<T>(nodes: Seq<TextNode<T>>, i: int, j: int) -> bool {
    0 <= i <= j < nodes[i].end
}

pub open spec fn nodes_wf<T>(nodes: Seq<TextNode<T>>) -> bool {
    &&& nodes.len() >= 1
    &&& nodes[0].end == nodes.len()
    &&& total_chars(nodes) <= usize::MAX
    &&& forall|i: int| 0 <= i < nodes.len() ==> i < #[trigger] nodes[i].end <= nodes.len()
    &&& forall|i: int| 0 <= i < nodes.len() && is_text(#[trigger] nodes[i]) ==> nodes[i].end == i + 1
    &&& forall|i: int, j: int|
        0 <= i < j < nodes[i].end ==> #[trigger] nodes[j].end <= #[trigger] nodes[i].end
}

impl<T> TextTree<T> {
    /// The subtree extents nest, and the text fits in memory.
    pub open spec fn wf(&self) -> bool {
        nodes_wf(self.nodes@)
    }
}

/// Character counts are additive over adjacent ranges.
pub proof fn lemma_chars_split<T>(nodes: Seq<TextNode<T>>, lo: int, mid: int, hi: int)
    requires
        lo <= mid <= hi,
    ensures
        chars_in(nodes, lo, hi) == chars_in(nodes, lo, mid) + chars_in(nodes, mid, hi),
    decreases hi - mid,
{
    if hi > mid {
        lemma_chars_split(nodes, lo, mid, hi - 1);
    }
}

/// A range inside the element holds no more characters than the whole element.
pub proof fn lemma_chars_within<T>(nodes: Seq<TextNode<T>>, lo: int, hi: int)
    requires
        0 <= lo <= hi <= nodes.len(),
    ensures
        chars_in(nodes, 0, lo) + chars_in(nodes, lo, hi) <= total_chars(nodes),
{
    lemma_chars_split(nodes, 0, lo, hi);
    lemma_chars_split(nodes, 0, hi, nodes.len() as int);
}

/// The number of code points a node contributes by itself.
pub fn node_chars<T>(node: &TextNode<T>) -> (r: usize)
    ensures
        r == leaf_len(*node),
{
    match &node.kind {
        NodeKind::Text(s) => s.as_str().unicode_len(),
        NodeKind::Element(_) => 0,
    }
}

/// Counts the code points in the text leaves under node `i`, itself included.
pub fn count_chars<T>(tree: &TextTree<T>, i: usize) -> (r: usize)
    requires
        tree.wf(),
        i < tree.nodes@.len(),
    ensures
        r == governed_chars(tree.nodes@, i as int),
{
    let ghost nodes = tree.nodes@;
    let end = tree.nodes[i].end;
    let mut total: usize = 0;
    let mut j: usize = i;
    while j < end
        invariant
            tree.wf(),
            nodes == tree.nodes@,
            i < nodes.len(),
            end == nodes[i as int].end,
            i <= j <= end,
            end <= nodes.len(),
            total == chars_in(nodes, i as int, j as int),
        decreases end - j,
    {
        proof {
            lemma_chars_within(nodes, i as int, j + 1);
            lemma_chars_split(nodes, 0, i as int, j + 1);
        }
        total = total + node_chars(&tree.nodes[j]);
        j = j + 1;
    }
    total
}

} // verus!
