//! Per-character x / y / dx / dy offsets of a text element.
//!
//! Every element in the subtree may declare a list for each axis. The lists are
//! laid over one global table in document order, starting at the element's first
//! character; later elements overwrite earlier ones only where their list reaches.
use vstd::prelude::*;
use crate::text_tree::{
    chars_in, count_chars, governed_chars, lemma_chars_within, node_chars, total_chars, NodeKind,
    TextNode, TextTree,
};

verus! {

#[derive(Clone, Copy, Debug)]
pub struct CharacterPosition<T> {
    pub x: Option<T>,
    pub y: Option<T>,
    pub dx: Option<T>,
    pub dy: Option<T>,
}

#[derive(Clone, Copy, Debug, PartialEq, Eq, Structural)]
pub enum Axis {
    X,
    Y,
    Dx,
    Dy,
}

pub open spec fn unset<T>() -> CharacterPosition<T> {
    CharacterPosition { x: None, y: None, dx: None, dy: None }
}

pub open spec fn axis_value<T>(p: CharacterPosition<T>, axis: Axis) -> Option<T> {
    match axis {
        Axis::X => p.x,
        Axis::Y => p.y,
        Axis::Dx => p.dx,
        Axis::Dy => p.dy,
    }
}

/// `p` with the offset on `axis` set to `v`.
pub open spec fn with_axis<T>(p: CharacterPosition<T>, axis: Axis, v: T) -> CharacterPosition<T> {
    match axis {
        Axis::X => CharacterPosition { x: Some(v), ..p },
        Axis::Y => CharacterPosition { y: Some(v), ..p },
        Axis::Dx => CharacterPosition { dx: Some(v), ..p },
        Axis::Dy => CharacterPosition { dy: Some(v), ..p },
    }
}

/// Lays `vals` over the slots `off ..` on `axis`, at most `cnt` of them.
pub open spec fn overlay_seq<T>(
    s: Seq<CharacterPosition<T>>,
    axis: Axis,
    vals: Seq<T>,
    off: int,
    cnt: int,
) -> Seq<CharacterPosition<T>> {
    Seq::new(
        s.len(),
        |k: int|
            if off <= k < off + vals.len() && k < off + cnt {
                with_axis(s[k], axis, vals[k - off])
            } else {
                s[k]
            },
    )
}

pub open spec fn overlay_opt<T>(
    s: Seq<CharacterPosition<T>>,
    axis: Axis,
    vals: Option<Vec<T>>,
    off: int,
    cnt: int,
) -> Seq<CharacterPosition<T>> {
    match vals {
        Some(v) => overlay_seq(s, axis, v@, off, cnt),
        None => s,
    }
}

/// What visiting one node does to the table: an element lays its four lists over
/// it; a text leaf leaves it alone.
pub open spec fn apply_node<T>(
    s: Seq<CharacterPosition<T>>,
    node: TextNode<T>,
    off: int,
    cnt: int,
) -> Seq<CharacterPosition<T>> {
    match node.kind {
        NodeKind::Element(a) => overlay_opt(
            overlay_opt(overlay_opt(overlay_opt(s, Axis::X, a.x, off, cnt), Axis::Y, a.y, off, cnt),
                Axis::Dx, a.dx, off, cnt),
            Axis::Dy,
            a.dy,
            off,
            cnt,
        ),
        NodeKind::Text(_) => s,
    }
}

/// The table after the first `m` nodes in document order have been visited.
pub open spec fn positions_upto<T>(nodes: Seq<TextNode<T>>, m: int) -> Seq<CharacterPosition<T>>
    decreases m,
{
    if m <= 0 {
        Seq::new(total_chars(nodes), |k: int| unset())
    } else {
        apply_node(
            positions_upto(nodes, m - 1),
            nodes[m - 1],
            chars_in(nodes, 0, m - 1) as int,
            governed_chars(nodes, m - 1) as int,
        )
    }
}

/// The resolved table of a text element.
pub open spec fn positions_spec<T>(nodes: Seq<TextNode<T>>) -> Seq<CharacterPosition<T>> {
    positions_upto(nodes, nodes.len() as int)
}

fn with_axis_exec<T: Copy>(p: CharacterPosition<T>, axis: Axis, v: T) -> (r: CharacterPosition<T>)
    ensures
        r == with_axis(p, axis, v),
{
    match axis {
        Axis::X => CharacterPosition { x: Some(v), y: p.y, dx: p.dx, dy: p.dy },
        Axis::Y => CharacterPosition { x: p.x, y: Some(v), dx: p.dx, dy: p.dy },
        Axis::Dx => CharacterPosition { x: p.x, y: p.y, dx: Some(v), dy: p.dy },
        Axis::Dy => CharacterPosition { x: p.x, y: p.y, dx: p.dx, dy: Some(v) },
    }
}

/// Lays `vals` over `list` on `axis` from slot `off`, for at most `cnt` slots.
pub fn overlay<T: Copy>(
    list: &mut Vec<CharacterPosition<T>>,
    axis: Axis,
    vals: &Vec<T>,
    off: usize,
    cnt: usize,
)
    requires
        off + cnt <= old(list)@.len(),
    ensures
        final(list)@ == overlay_seq(old(list)@, axis, vals@, off as int, cnt as int),
{
    let n = list.len();
    let len = if vals.len() < cnt { vals.len() } else { cnt };
    let mut i: usize = 0;
    while i < len
        invariant
            off + cnt <= old(list)@.len(),
            list@.len() == old(list)@.len(),
            n == list@.len(),
            len <= cnt,
            len <= vals@.len(),
            i <= len,
            list@ == overlay_seq(old(list)@, axis, vals@, off as int, i as int),
        decreases len - i,
    {
        let p = with_axis_exec(list[off + i], axis, vals[i]);
        list.set(off + i, p);
        assert(list@ =~= overlay_seq(old(list)@, axis, vals@, off as int, i + 1));
        i = i + 1;
    }
    assert(list@ =~= overlay_seq(old(list)@, axis, vals@, off as int, cnt as int));
}

fn overlay_option<T: Copy>(
    list: &mut Vec<CharacterPosition<T>>,
    axis: Axis,
    vals: &Option<Vec<T>>,
    off: usize,
    cnt: usize,
)
    requires
        off + cnt <= old(list)@.len(),
    ensures
        final(list)@ == overlay_opt(old(list)@, axis, *vals, off as int, cnt as int),
{
    match vals {
        Some(v) => overlay(list, axis, v, off, cnt),
        None => {},
    }
}

/// Resolves the per-character offsets of a text element: one slot per code point
/// of its text leaves, filled by the x / y / dx / dy lists of its elements.
pub fn resolve_positions_list<T: Copy>(tree: &TextTree<T>) -> (r: Vec<CharacterPosition<T>>)
    requires
        tree.wf(),
    ensures
        r@ == positions_spec(tree.nodes@),
        r@.len() == total_chars(tree.nodes@),
{
    let ghost nodes = tree.nodes@;
    let n = tree.nodes.len();
    let total = count_chars(tree, 0);
    let mut list: Vec<CharacterPosition<T>> = Vec::new();
    let mut k: usize = 0;
    while k < total
        invariant
            k <= total,
            list@ == Seq::new(k as nat, |j: int| unset::<T>()),
        decreases total - k,
    {
        list.push(CharacterPosition { x: None, y: None, dx: None, dy: None });
        assert(list@ =~= Seq::new((k + 1) as nat, |j: int| unset::<T>()));
        k = k + 1;
    }
    assert(list@ =~= positions_upto(nodes, 0));
    let mut offset: usize = 0;
    let mut i: usize = 0;
    while i < n
        invariant
            tree.wf(),
            nodes == tree.nodes@,
            n == nodes.len(),
            total == total_chars(nodes),
            i <= n,
            offset == chars_in(nodes, 0, i as int),
            list@ == positions_upto(nodes, i as int),
            list@.len() == total,
        decreases n - i,
    {
        let node = &tree.nodes[i];
        proof {
            lemma_chars_within(nodes, i as int, nodes[i as int].end as int);
            lemma_chars_within(nodes, i as int, i + 1);
        }
        match &node.kind {
            NodeKind::Element(a) => {
                let cnt = count_chars(tree, i);
                overlay_option(&mut list, Axis::X, &a.x, offset, cnt);
                overlay_option(&mut list, Axis::Y, &a.y, offset, cnt);
                overlay_option(&mut list, Axis::Dx, &a.dx, offset, cnt);
                overlay_option(&mut list, Axis::Dy, &a.dy, offset, cnt);
            },
            NodeKind::Text(_) => {
                offset = offset + node_chars(node);
            },
        }
        i = i + 1;
    }
    list
}

/// The table has one slot per code point of the element's text.
pub proof fn lemma_positions_len<T>(nodes: Seq<TextNode<T>>, m: int)
    ensures
        positions_upto(nodes, m).len() == total_chars(nodes),
    decreases m,
{
    if m > 0 {
        lemma_positions_len(nodes, m - 1);
    }
}

/// An element whose list on `axis` is shorter than the characters it governs
/// leaves the slots past the end of its list exactly as they were before it.
pub proof fn lemma_short_list_keeps_trailing<T>(nodes: Seq<TextNode<T>>, i: int, axis: Axis, k: int)
    requires
        0 <= i < nodes.len(),
        nodes[i].kind is Element,
        ({
            let a = nodes[i].kind->Element_0;
            let vals = match axis {
                Axis::X => a.x,
                Axis::Y => a.y,
                Axis::Dx => a.dx,
                Axis::Dy => a.dy,
            };
            vals is Some && chars_in(nodes, 0, i) + vals->Some_0@.len() <= k
        }),
        0 <= k < total_chars(nodes),
    ensures
        axis_value(positions_upto(nodes, i + 1)[k], axis) == axis_value(
            positions_upto(nodes, i)[k],
            axis,
        ),
{
    lemma_positions_len(nodes, i);
}

} // verus!
