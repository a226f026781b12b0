//! Per-character rotation angles of a text element.
//!
//! Each text leaf takes its angles from the nearest node at or above it that
//! declares a rotate list. Offsets into that list are carried by the walk: an
//! element child that declares its own list starts again at zero, any other
//! element child continues with the caller's offset, and the caller moves on by
//! one after each element child, however many characters it held.
use vstd::prelude::*;
use crate::text_tree::{
    chars_in, is_ancestor_or_self, is_text, lemma_chars_split, lemma_chars_within, leaf_len,
    node_chars, nodes_wf, total_chars, NodeKind, TextNode, TextTree,
};
use crate::positions::{lemma_positions_len, positions_spec};

verus! {

pub open spec fn declares_rotate<T>(n: TextNode<T>) -> bool {
    n.kind is Element && n.kind->Element_0.rotate is Some
}

pub open spec fn rotate_of<T>(n: TextNode<T>) -> Seq<T> {
    n.kind->Element_0.rotate->Some_0@
}

/// The nearest node among `nodes[0..=i]` that is `j` or an ancestor of `j` and
/// declares a rotate list.
pub open spec fn find_declarer<T>(nodes: Seq<TextNode<T>>, j: int, i: int) -> Option<int>
    decreases i + 1,
{
    if i < 0 {
        None
    } else if is_ancestor_or_self(nodes, i, j) && declares_rotate(nodes[i]) {
        Some(i)
    } else {
        find_declarer(nodes, j, i - 1)
    }
}

/// The angles of a leaf of `cnt` characters read from `list` at `off`: past the
/// end of the list its last angle repeats; an empty list, or none, gives `zero`.
pub open spec fn leaf_rotation<T>(list: Option<Seq<T>>, off: int, cnt: nat, zero: T) -> Seq<T> {
    Seq::new(
        cnt,
        |i: int|
            match list {
                Some(l) => if off + i < l.len() {
                    l[off + i]
                } else if l.len() > 0 {
                    l.last()
                } else {
                    zero
                },
                None => zero,
            },
    )
}

/// The angles appended for the children of a node found in `nodes[c..end]`,
/// starting with offset `off`.
pub open spec fn rotate_children<T>(
    nodes: Seq<TextNode<T>>,
    c: int,
    end: int,
    off: int,
    zero: T,
) -> Seq<T>
    decreases end - c,
{
    if c >= end || !(c < nodes[c].end <= end) {
        Seq::empty()
    } else if is_text(nodes[c]) {
        let cnt = leaf_len(nodes[c]);
        match find_declarer(nodes, c, c) {
            Some(p) => leaf_rotation(Some(rotate_of(nodes[p])), off, cnt, zero) + rotate_children(
                nodes,
                nodes[c].end as int,
                end,
                off + cnt,
                zero,
            ),
            None => leaf_rotation(None, off, cnt, zero) + rotate_children(
                nodes,
                nodes[c].end as int,
                end,
                off,
                zero,
            ),
        }
    } else {
        let sub = if declares_rotate(nodes[c]) {
            0
        } else {
            off
        };
        rotate_children(nodes, c + 1, nodes[c].end as int, sub, zero) + rotate_children(
            nodes,
            nodes[c].end as int,
            end,
            off + 1,
            zero,
        )
    }
}

/// Finds the nearest node at or above node `j` that declares a rotate list.
pub fn find_rotate_declarer<T>(tree: &TextTree<T>, j: usize) -> (r: Option<usize>)
    requires
        j < tree.nodes@.len(),
    ensures
        r matches Some(p) ==> find_declarer(tree.nodes@, j as int, j as int) == Some(p as int)
            && p <= j && declares_rotate(tree.nodes@[p as int]),
        r is None ==> find_declarer(tree.nodes@, j as int, j as int) is None,
{
    let ghost nodes = tree.nodes@;
    let n = tree.nodes.len();
    let mut i: usize = j + 1;
    while i > 0
        invariant
            nodes == tree.nodes@,
            j < nodes.len(),
            i <= j + 1,
            find_declarer(nodes, j as int, j as int) == find_declarer(nodes, j as int, i - 1),
        decreases i,
    {
        let k = i - 1;
        let node = &tree.nodes[k];
        if j < node.end {
            match &node.kind {
                NodeKind::Element(a) => {
                    if a.rotate.is_some() {
                        return Some(k);
                    }
                },
                NodeKind::Text(_) => {},
            }
        }
        i = k;
    }
    None
}

/// Appends the angles of a leaf of `cnt` characters read from `list` at `off`.
/// Without a list every angle is `zero`; past the end of a list its last angle
/// repeats.
pub fn push_leaf_rotation<T: Copy>(
    list: &mut Vec<T>,
    rotate: Option<&Vec<T>>,
    off: usize,
    cnt: usize,
    zero: T,
)
    ensures
        final(list)@ == old(list)@ + leaf_rotation(
            match rotate {
                Some(v) => Some(v@),
                None => None,
            },
            off as int,
            cnt as nat,
            zero,
        ),
        rotate is None ==> forall|i: int|
            old(list)@.len() <= i < final(list)@.len() ==> final(list)@[i] == zero,
        rotate is Some && rotate->Some_0@.len() > 0 ==> forall|k: int|
            old(list)@.len() <= k < final(list)@.len() && off + (k - old(list)@.len())
                >= rotate->Some_0@.len() ==> #[trigger] final(list)@[k] == rotate->Some_0@.last(),
{
    let ghost spec_list = match rotate {
        Some(v) => Some(v@),
        None => None,
    };
    let mut i: usize = 0;
    while i < cnt
        invariant
            i <= cnt,
            spec_list == match rotate {
                Some(v) => Some(v@),
                None => None,
            },
            list@ == old(list)@ + leaf_rotation(spec_list, off as int, i as nat, zero),
        decreases cnt - i,
    {
        let r = match rotate {
            Some(v) => {
                if i < v.len() && off < v.len() - i {
                    v[off + i]
                } else if v.len() > 0 {
                    v[v.len() - 1]
                } else {
                    zero
                }
            },
            None => zero,
        };
        list.push(r);
        assert(list@ =~= old(list)@ + leaf_rotation(spec_list, off as int, (i + 1) as nat, zero));
        i = i + 1;
    }
}

/// Appends to `list` the rotation angle of every character under `parent`, in
/// document order, with `offset` as the position in the inherited rotate list.
pub fn resolve_rotate<T: Copy>(
    tree: &TextTree<T>,
    parent: usize,
    offset: usize,
    zero: T,
    list: &mut Vec<T>,
)
    requires
        tree.wf(),
        parent < tree.nodes@.len(),
        offset + chars_in(tree.nodes@, parent + 1, tree.nodes@[parent as int].end as int) + (
        tree.nodes@[parent as int].end - parent) <= usize::MAX,
    ensures
        final(list)@ == old(list)@ + rotate_children(
            tree.nodes@,
            parent + 1,
            tree.nodes@[parent as int].end as int,
            offset as int,
            zero,
        ),
    decreases tree.nodes@[parent as int].end - parent,
{
    let ghost nodes = tree.nodes@;
    let end = tree.nodes[parent].end;
    let ghost target = old(list)@ + rotate_children(nodes, parent + 1, end as int, offset as int, zero);
    let mut off: usize = offset;
    let mut c: usize = parent + 1;
    proof {
        lemma_chars_split(nodes, parent + 1, parent + 1, end as int);
    }
    while c < end
        invariant
            tree.wf(),
            nodes == tree.nodes@,
            parent < nodes.len(),
            end == nodes[parent as int].end,
            end <= nodes.len(),
            parent + 1 <= c <= end,
            offset + chars_in(nodes, parent + 1, end as int) + (end - parent) <= usize::MAX,
            off <= offset + chars_in(nodes, parent + 1, c as int) + (c - parent - 1),
            chars_in(nodes, parent + 1, c as int) <= chars_in(nodes, parent + 1, end as int),
            list@ + rotate_children(nodes, c as int, end as int, off as int, zero) == target,
        decreases end - c,
    {
        let node = &tree.nodes[c];
        let cend = node.end;
        assert(c < cend <= end);
        proof {
            lemma_chars_split(nodes, parent + 1, c as int, cend as int);
            lemma_chars_split(nodes, parent + 1, cend as int, end as int);
            lemma_chars_split(nodes, c as int, c + 1, cend as int);
        }
        match &node.kind {
            NodeKind::Text(_) => {
                let cnt = node_chars(node);
                match find_rotate_declarer(tree, c) {
                    Some(p) => {
                        match &tree.nodes[p].kind {
                            NodeKind::Element(a) => {
                                match &a.rotate {
                                    Some(v) => {
                                        push_leaf_rotation(list, Some(v), off, cnt, zero);
                                    },
                                    None => {},
                                }
                            },
                            NodeKind::Text(_) => {},
                        }
                        off = off + cnt;
                    },
                    None => {
                        push_leaf_rotation(list, None, off, cnt, zero);
                    },
                }
                assert(list@ + rotate_children(nodes, cend as int, end as int, off as int, zero)
                    =~= target);
            },
            NodeKind::Element(a) => {
                let sub: usize = if a.rotate.is_some() {
                    0
                } else {
                    off
                };
                proof {
                    lemma_chars_split(nodes, c + 1, cend as int, cend as int);
                }
                resolve_rotate(tree, c, sub, zero, list);
                off = off + 1;
                assert(list@ + rotate_children(nodes, cend as int, end as int, off as int, zero)
                    =~= target);
            },
        }
        c = cend;
    }
    assert(list@ =~= target);
}

/// The walk appends exactly one angle per character of the leaves it visits.
pub proof fn lemma_rotate_children_len<T>(
    nodes: Seq<TextNode<T>>,
    parent: int,
    c: int,
    off: int,
    zero: T,
)
    requires
        nodes_wf(nodes),
        0 <= parent < nodes.len(),
        parent + 1 <= c <= nodes[parent].end,
    ensures
        rotate_children(nodes, c, nodes[parent].end as int, off, zero).len() == chars_in(
            nodes,
            c,
            nodes[parent].end as int,
        ),
    decreases nodes[parent].end - c,
{
    let end = nodes[parent].end as int;
    if c < end {
        let cend = nodes[c].end as int;
        assert(c < cend <= end);
        lemma_chars_split(nodes, c, c + 1, end);
        lemma_chars_split(nodes, c, cend, end);
        lemma_chars_split(nodes, c + 1, cend, end);
        assert(chars_in(nodes, c, c) == 0);
        assert(chars_in(nodes, c, c + 1) == chars_in(nodes, c, c) + leaf_len(nodes[c]));
        if is_text(nodes[c]) {
            let d = find_declarer(nodes, c, c);
            let off2 = if d is Some { off + leaf_len(nodes[c]) } else { off };
            lemma_rotate_children_len(nodes, parent, cend, off2, zero);
        } else {
            let sub = if declares_rotate(nodes[c]) { 0 } else { off };
            lemma_rotate_children_len(nodes, c, c + 1, sub, zero);
            lemma_rotate_children_len(nodes, parent, cend, off + 1, zero);
        }
    }
}

/// Walking a text element from its root yields one angle per code point of its
/// text, in document order: exactly as many as the position table has slots, so
/// entry `i` of both lists belongs to the same character.
pub proof fn lemma_rotation_matches_positions<T>(nodes: Seq<TextNode<T>>, zero: T)
    requires
        nodes_wf(nodes),
        nodes[0].kind is Element,
    ensures
        rotate_children(nodes, 1, nodes.len() as int, 0, zero).len() == total_chars(nodes),
        positions_spec(nodes).len() == total_chars(nodes),
{
    lemma_rotate_children_len(nodes, 0, 1, 0, zero);
    lemma_chars_split(nodes, 0, 1, nodes.len() as int);
    assert(chars_in(nodes, 0, 0) == 0);
    assert(chars_in(nodes, 0, 1) == chars_in(nodes, 0, 0) + leaf_len(nodes[0]));
    lemma_positions_len(nodes, nodes.len() as int);
}

/// The rotate list that governs text leaf `j`, if any node at or above it declares one.
pub open spec fn declared_list<T>(nodes: Seq<TextNode<T>>, j: int) -> Option<Seq<T>> {
    match find_declarer(nodes, j, j) {
        Some(p) => Some(rotate_of(nodes[p])),
        None => None,
    }
}

/// Within the angles appended for the children in `nodes[c..end]`, the
/// characters of text leaf `j` sit at `chars_in(c, j) ..`, and their angles are
/// read from the list that governs `j`.
pub proof fn lemma_leaf_segment<T>(
    nodes: Seq<TextNode<T>>,
    parent: int,
    c: int,
    j: int,
    off: int,
    zero: T,
)
    requires
        nodes_wf(nodes),
        0 <= parent < nodes.len(),
        parent + 1 <= c <= j < nodes[parent].end,
        is_text(nodes[j]),
    ensures
        ({
            let s = rotate_children(nodes, c, nodes[parent].end as int, off, zero);
            let a = chars_in(nodes, c, j) as int;
            let n = leaf_len(nodes[j]);
            &&& a + n <= s.len()
            &&& exists|o: int| s.subrange(a, a + n) == leaf_rotation(declared_list(nodes, j), o, n, zero)
        }),
    decreases nodes[parent].end - c,
{
    let end = nodes[parent].end as int;
    let cend = nodes[c].end as int;
    assert(c < cend <= end);
    let s = rotate_children(nodes, c, end, off, zero);
    let a = chars_in(nodes, c, j) as int;
    let n = leaf_len(nodes[j]);
    lemma_rotate_children_len(nodes, parent, c, off, zero);
    if c < j {
        lemma_chars_split(nodes, c, c + 1, j);
    }
    lemma_chars_split(nodes, c, j, end);
    lemma_chars_split(nodes, j, j + 1, end);
    assert(chars_in(nodes, c, c) == 0);
    assert(chars_in(nodes, c, c + 1) == chars_in(nodes, c, c) + leaf_len(nodes[c]));
    assert(chars_in(nodes, j, j) == 0);
    assert(chars_in(nodes, j, j + 1) == chars_in(nodes, j, j) + leaf_len(nodes[j]));
    if is_text(nodes[c]) {
        let d = find_declarer(nodes, c, c);
        let off2 = if d is Some { off + leaf_len(nodes[c]) } else { off };
        let first = leaf_rotation(declared_list(nodes, c), off, leaf_len(nodes[c]), zero);
        let rest = rotate_children(nodes, cend, end, off2, zero);
        assert(s == first + rest);
        if c == j {
            assert(s.subrange(a, a + n) =~= first);
        } else {
            lemma_leaf_segment(nodes, parent, cend, j, off2, zero);
            let a2 = chars_in(nodes, cend, j) as int;
            let o = choose|o: int|
                rest.subrange(a2, a2 + n) == leaf_rotation(declared_list(nodes, j), o, n, zero);
            assert(s.subrange(a, a + n) =~= rest.subrange(a2, a2 + n));
        }
    } else {
        let sub = if declares_rotate(nodes[c]) { 0 } else { off };
        let first = rotate_children(nodes, c + 1, cend, sub, zero);
        let rest = rotate_children(nodes, cend, end, off + 1, zero);
        assert(s == first + rest);
        lemma_rotate_children_len(nodes, c, c + 1, sub, zero);
        if j < cend {
            lemma_chars_split(nodes, c + 1, j, cend);
            assert(nodes[j].end <= cend);
            lemma_chars_split(nodes, j, j + 1, cend);
            lemma_leaf_segment(nodes, c, c + 1, j, sub, zero);
            let a2 = chars_in(nodes, c + 1, j) as int;
            let o = choose|o: int|
                first.subrange(a2, a2 + n) == leaf_rotation(declared_list(nodes, j), o, n, zero);
            assert(s.subrange(a, a + n) =~= first.subrange(a2, a2 + n));
        } else {
            lemma_chars_split(nodes, c, cend, j);
            lemma_chars_split(nodes, c + 1, cend, j);
            lemma_leaf_segment(nodes, parent, cend, j, off + 1, zero);
            let a2 = chars_in(nodes, cend, j) as int;
            let o = choose|o: int|
                rest.subrange(a2, a2 + n) == leaf_rotation(declared_list(nodes, j), o, n, zero);
            assert(s.subrange(a, a + n) =~= rest.subrange(a2, a2 + n));
        }
    }
}

/// Entry `i` of the rotation list and slot `i` of the position table belong to
/// the same character: the characters of text leaf `j` occupy the indices
/// `chars_in(0, j) ..` in both, and there their angles come from the rotate
/// list that governs `j`.
pub proof fn lemma_rotation_leaf_aligned<T>(nodes: Seq<TextNode<T>>, j: int, zero: T)
    requires
        nodes_wf(nodes),
        nodes[0].kind is Element,
        0 < j < nodes.len(),
        is_text(nodes[j]),
    ensures
        ({
            let s = rotate_children(nodes, 1, nodes.len() as int, 0, zero);
            let a = chars_in(nodes, 0, j) as int;
            let n = leaf_len(nodes[j]);
            &&& a + n <= s.len()
            &&& a + n <= positions_spec(nodes).len()
            &&& exists|o: int| s.subrange(a, a + n) == leaf_rotation(declared_list(nodes, j), o, n, zero)
        }),
{
    lemma_chars_split(nodes, 0, 1, j);
    assert(chars_in(nodes, 0, 0) == 0);
    assert(chars_in(nodes, 0, 1) == chars_in(nodes, 0, 0) + leaf_len(nodes[0]));
    lemma_leaf_segment(nodes, 0, 1, j, 0, zero);
    lemma_rotation_matches_positions(nodes, zero);
}

} // verus!
