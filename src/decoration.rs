//! Underline, overline and line-through of a text run.
//!
//! The root text element may name several kinds, found by substring; a run names
//! at most one, by exact match. For each kind the run wins over the root, and the
//! node that wins supplies the paint of the line.
use vstd::prelude::*;
use crate::strings::{contains_seq, str_contains, str_eq};
use crate::text_tree::{NodeKind, TextNode, TextTree};

verus! {

/// The node whose fill and stroke paint a decoration line.
#[derive(Clone, Copy, Debug, PartialEq, Eq, Structural)]
pub struct TextDecorationStyle {
    pub node: usize,
}

#[derive(Clone, Copy, Debug, PartialEq, Eq, Structural)]
pub struct TextDecoration {
    pub underline: Option<TextDecorationStyle>,
    pub overline: Option<TextDecorationStyle>,
    pub line_through: Option<TextDecorationStyle>,
}

/// The kinds of line one node asks for.
#[derive(Clone, Copy, Debug, PartialEq, Eq, Structural)]
pub struct TextDecoTypes {
    pub has_underline: bool,
    pub has_overline: bool,
    pub has_line_through: bool,
}

/// A node's `text-decoration` attribute, if it declares one.
pub open spec fn decoration_attr<T>(n: TextNode<T>) -> Option<Seq<char>> {
    match n.kind {
        NodeKind::Element(a) => match a.text_decoration {
            Some(s) => Some(s@),
            None => None,
        },
        NodeKind::Text(_) => None,
    }
}

/// The root asks for `kw` when its attribute contains it.
pub open spec fn root_has<T>(n: TextNode<T>, kw: Seq<char>) -> bool {
    match decoration_attr(n) {
        Some(s) => contains_seq(s, kw),
        None => contains_seq(Seq::empty(), kw),
    }
}

/// A run asks for `kw` when its attribute is exactly `kw`.
pub open spec fn run_has<T>(n: TextNode<T>, kw: Seq<char>) -> bool {
    decoration_attr(n) == Some(kw)
}

pub open spec fn pick(in_run: bool, in_root: bool, run: usize, root: usize) -> Option<
    TextDecorationStyle,
> {
    if in_run {
        Some(TextDecorationStyle { node: run })
    } else if in_root {
        Some(TextDecorationStyle { node: root })
    } else {
        None
    }
}

fn attr_of<T>(node: &TextNode<T>) -> (r: Option<&str>)
    ensures
        decoration_attr(*node) == match r {
            Some(s) => Some(s@),
            None => None,
        },
{
    match &node.kind {
        NodeKind::Element(a) => match &a.text_decoration {
            Some(s) => Some(s.as_str()),
            None => None,
        },
        NodeKind::Text(_) => None,
    }
}

/// The kinds the root text element asks for: each keyword found in its attribute.
pub fn conv_text_decoration<T>(node: &TextNode<T>) -> (r: TextDecoTypes)
    ensures
        r.has_underline == root_has(*node, "underline"@),
        r.has_overline == root_has(*node, "overline"@),
        r.has_line_through == root_has(*node, "line-through"@),
{
    let text = match attr_of(node) {
        Some(s) => s,
        None => "",
    };
    proof {
        reveal_strlit("");
        assert(""@ =~= Seq::<char>::empty());
    }
    TextDecoTypes {
        has_underline: str_contains(text, "underline"),
        has_overline: str_contains(text, "overline"),
        has_line_through: str_contains(text, "line-through"),
    }
}

fn attr_is(attr: Option<&str>, kw: &str) -> (r: bool)
    ensures
        r == (match attr {
            Some(s) => Some(s@),
            None => None,
        } == Some(kw@)),
{
    match attr {
        Some(s) => str_eq(s, kw),
        None => false,
    }
}

/// The kind a run asks for: its attribute equals one keyword exactly.
pub fn conv_tspan_decoration<T>(tspan: &TextNode<T>) -> (r: TextDecoTypes)
    ensures
        r.has_underline == run_has(*tspan, "underline"@),
        r.has_overline == run_has(*tspan, "overline"@),
        r.has_line_through == run_has(*tspan, "line-through"@),
{
    let attr = attr_of(tspan);
    TextDecoTypes {
        has_underline: attr_is(attr, "underline"),
        has_overline: attr_is(attr, "overline"),
        has_line_through: attr_is(attr, "line-through"),
    }
}

fn gen_style(in_tspan: bool, in_text: bool, tspan: usize, root: usize) -> (r: Option<
    TextDecorationStyle,
>)
    ensures
        r == pick(in_tspan, in_text, tspan, root),
{
    if in_tspan {
        Some(TextDecorationStyle { node: tspan })
    } else if in_text {
        Some(TextDecorationStyle { node: root })
    } else {
        None
    }
}

/// Resolves the decoration lines of the run at `tspan` under the text element at
/// `root`: per kind, the run's own request, else the root's, else none.
pub fn resolve_decoration<T>(tree: &TextTree<T>, root: usize, tspan: usize) -> (r: TextDecoration)
    requires
        root < tree.nodes@.len(),
        tspan < tree.nodes@.len(),
    ensures
        r.underline == pick(
            run_has(tree.nodes@[tspan as int], "underline"@),
            root_has(tree.nodes@[root as int], "underline"@),
            tspan,
            root,
        ),
        r.overline == pick(
            run_has(tree.nodes@[tspan as int], "overline"@),
            root_has(tree.nodes@[root as int], "overline"@),
            tspan,
            root,
        ),
        r.line_through == pick(
            run_has(tree.nodes@[tspan as int], "line-through"@),
            root_has(tree.nodes@[root as int], "line-through"@),
            tspan,
            root,
        ),
{
    let text_dec = conv_text_decoration(&tree.nodes[root]);
    let tspan_dec = conv_tspan_decoration(&tree.nodes[tspan]);
    TextDecoration {
        underline: gen_style(tspan_dec.has_underline, text_dec.has_underline, tspan, root),
        overline: gen_style(tspan_dec.has_overline, text_dec.has_overline, tspan, root),
        line_through: gen_style(tspan_dec.has_line_through, text_dec.has_line_through, tspan, root),
    }
}

} // verus!
