use usvg_text_mask::anchor::{resolve_text_anchor, TextAnchor};
use usvg_text_mask::decoration::{resolve_decoration, TextDecoration, TextDecorationStyle};
use usvg_text_mask::font::{
    parse_font_family, resolve_font_query, resolve_font_stretch, resolve_font_style,
    resolve_font_weight, FamilyName, FontStretch, FontStyle, FontWeight,
};
use usvg_text_mask::positions::{resolve_positions_list, CharacterPosition};
use usvg_text_mask::rotation::resolve_rotate;
use usvg_text_mask::strings::str_contains;
use usvg_text_mask::text_tree::{count_chars, ElementAttrs, NodeKind, TextNode, TextTree};
use usvg_text_mask::Diagnostic;

fn attrs() -> ElementAttrs<f64> {
    ElementAttrs { x: None, y: None, dx: None, dy: None, rotate: None, text_decoration: None }
}

fn elem(a: ElementAttrs<f64>, end: usize) -> TextNode<f64> {
    TextNode { kind: NodeKind::Element(a), end }
}

fn text(s: &str, at: usize) -> TextNode<f64> {
    TextNode { kind: NodeKind::Text(s.to_string()), end: at + 1 }
}

/// `<text x="10 20 30 40 50">ab<tspan x="1">cde</tspan></text>`
fn nested_x_tree() -> TextTree<f64> {
    let mut root = attrs();
    root.x = Some(vec![10.0, 20.0, 30.0, 40.0, 50.0]);
    let mut span = attrs();
    span.x = Some(vec![1.0]);
    TextTree { nodes: vec![elem(root, 4), text("ab", 1), elem(span, 4), text("cde", 3)] }
}

#[test]
fn positions_length_is_code_point_count() {
    let mut root = attrs();
    root.dy = Some(vec![3.0]);
    let tree = TextTree { nodes: vec![elem(root, 3), text("héllo", 1), text("✓✓", 2)] };
    let list = resolve_positions_list(&tree);
    assert_eq!(list.len(), 7);
    assert_eq!(count_chars(&tree, 0), 7);
    assert_eq!(list[0].dy, Some(3.0));
    assert_eq!(list[1].dy, None);
    assert_eq!(list[0].x, None);
}

#[test]
fn positions_empty_text() {
    let tree = TextTree { nodes: vec![elem(attrs(), 2), text("", 1)] };
    assert!(resolve_positions_list(&tree).is_empty());
}

#[test]
fn positions_short_nested_list_keeps_trailing_slots() {
    let list: Vec<CharacterPosition<f64>> = resolve_positions_list(&nested_x_tree());
    let xs: Vec<Option<f64>> = list.iter().map(|p| p.x).collect();
    assert_eq!(xs, vec![Some(10.0), Some(20.0), Some(1.0), Some(40.0), Some(50.0)]);
    assert!(list.iter().all(|p| p.y.is_none() && p.dx.is_none() && p.dy.is_none()));
}

#[test]
fn positions_list_longer_than_text_is_cut() {
    let mut span = attrs();
    span.dx = Some(vec![1.0, 2.0, 3.0, 4.0]);
    let tree = TextTree {
        nodes: vec![elem(attrs(), 5), text("a", 1), elem(span, 4), text("bc", 3), text("d", 4)],
    };
    let dxs: Vec<Option<f64>> = resolve_positions_list(&tree).iter().map(|p| p.dx).collect();
    assert_eq!(dxs, vec![None, Some(1.0), Some(2.0), None]);
}

#[test]
fn rotation_without_declaration_is_zero() {
    let tree = TextTree { nodes: vec![elem(attrs(), 4), text("ab", 1), elem(attrs(), 4), text("cd", 3)] };
    let mut list = Vec::new();
    resolve_rotate(&tree, 0, 0, 0.0, &mut list);
    assert_eq!(list, vec![0.0, 0.0, 0.0, 0.0]);
}

#[test]
fn rotation_short_list_repeats_last() {
    let mut root = attrs();
    root.rotate = Some(vec![5.0, 6.0]);
    let tree = TextTree { nodes: vec![elem(root, 4), text("ab", 1), elem(attrs(), 4), text("cde", 3)] };
    let mut list = Vec::new();
    resolve_rotate(&tree, 0, 0, 0.0, &mut list);
    assert_eq!(list, vec![5.0, 6.0, 6.0, 6.0, 6.0]);
    assert_eq!(list.len(), resolve_positions_list(&tree).len());
}

#[test]
fn rotation_element_child_advances_by_one() {
    let mut root = attrs();
    root.rotate = Some(vec![1.0, 2.0, 3.0, 4.0, 5.0]);
    let tree = TextTree { nodes: vec![elem(root, 4), elem(attrs(), 3), text("ab", 2), text("c", 3)] };
    let mut list = Vec::new();
    resolve_rotate(&tree, 0, 0, 0.0, &mut list);
    assert_eq!(list, vec![1.0, 2.0, 2.0]);
}

#[test]
fn rotation_own_list_starts_at_zero() {
    let mut root = attrs();
    root.rotate = Some(vec![1.0, 2.0, 3.0]);
    let mut span = attrs();
    span.rotate = Some(vec![9.0]);
    let mut empty = attrs();
    empty.rotate = Some(vec![]);
    let tree = TextTree {
        nodes: vec![
            elem(root, 6),
            text("a", 1),
            elem(span, 4),
            text("xy", 3),
            elem(empty, 6),
            text("z", 5),
        ],
    };
    let mut list = vec![7.0];
    resolve_rotate(&tree, 0, 0, 0.0, &mut list);
    assert_eq!(list, vec![7.0, 1.0, 9.0, 9.0, 0.0]);
}

#[test]
fn font_weight_bold_and_700_agree() {
    let mut diags = Vec::new();
    assert_eq!(resolve_font_weight("700", &mut diags), FontWeight::Bold);
    assert_eq!(resolve_font_weight("bold", &mut diags), FontWeight::Bold);
    assert_eq!(resolve_font_weight("100", &mut diags), FontWeight::Thin);
    assert_eq!(resolve_font_weight("900", &mut diags), FontWeight::Black);
    assert_eq!(resolve_font_weight("heavy", &mut diags), FontWeight::Normal);
    assert!(diags.is_empty());
}

#[test]
fn font_weight_relative_keywords_warn() {
    let mut diags = Vec::new();
    assert_eq!(resolve_font_weight("bolder", &mut diags), FontWeight::Normal);
    assert_eq!(resolve_font_weight("lighter", &mut diags), FontWeight::Normal);
    assert_eq!(diags, vec![Diagnostic::RelativeFontWeight, Diagnostic::RelativeFontWeight]);
}

#[test]
fn font_style_and_stretch_tables() {
    assert_eq!(resolve_font_style("italic"), FontStyle::Italic);
    assert_eq!(resolve_font_style("oblique"), FontStyle::Oblique);
    assert_eq!(resolve_font_style("slanted"), FontStyle::Normal);
    assert_eq!(resolve_font_stretch("narrower"), FontStretch::Condensed);
    assert_eq!(resolve_font_stretch("wider"), FontStretch::Expanded);
    assert_eq!(resolve_font_stretch("ultra-expanded"), FontStretch::UltraExpanded);
    assert_eq!(resolve_font_stretch("huge"), FontStretch::Normal);
}

#[test]
fn font_family_list_keeps_order() {
    let fams = parse_font_family("'Noto Sans',serif,monospace,Fira' Code");
    assert_eq!(
        fams,
        vec![
            FamilyName::Title("Noto Sans".to_string()),
            FamilyName::Serif,
            FamilyName::Monospace,
            FamilyName::Title("Fira Code".to_string()),
        ]
    );
    assert_eq!(parse_font_family(""), vec![FamilyName::Title(String::new())]);
    assert_eq!(
        parse_font_family("cursive, fantasy"),
        vec![FamilyName::Cursive, FamilyName::Title(" fantasy".to_string())]
    );
}

#[test]
fn font_query_combines_tables() {
    let mut diags = Vec::new();
    let q = resolve_font_query("italic", "lighter", "condensed", "sans-serif", &mut diags);
    assert_eq!(q.style, FontStyle::Italic);
    assert_eq!(q.weight, FontWeight::Normal);
    assert_eq!(q.stretch, FontStretch::Condensed);
    assert_eq!(q.families, vec![FamilyName::SansSerif]);
    assert_eq!(diags, vec![Diagnostic::RelativeFontWeight]);
}

fn deco_tree(root: &str, run: Option<&str>) -> TextTree<f64> {
    let mut r = attrs();
    r.text_decoration = Some(root.to_string());
    let mut s = attrs();
    s.text_decoration = run.map(|v| v.to_string());
    TextTree { nodes: vec![elem(r, 3), elem(s, 3), text("a", 2)] }
}

#[test]
fn decoration_run_wins_per_kind() {
    let d = resolve_decoration(&deco_tree("line-through", Some("underline")), 0, 1);
    assert_eq!(
        d,
        TextDecoration {
            underline: Some(TextDecorationStyle { node: 1 }),
            overline: None,
            line_through: Some(TextDecorationStyle { node: 0 }),
        }
    );
}

#[test]
fn decoration_root_may_name_several() {
    let d = resolve_decoration(&deco_tree("underline overline", None), 0, 1);
    assert_eq!(d.underline, Some(TextDecorationStyle { node: 0 }));
    assert_eq!(d.overline, Some(TextDecorationStyle { node: 0 }));
    assert_eq!(d.line_through, None);
}

#[test]
fn decoration_run_needs_exact_keyword() {
    let d = resolve_decoration(&deco_tree("", Some("underline overline")), 0, 1);
    assert_eq!(d, TextDecoration { underline: None, overline: None, line_through: None });
}

#[test]
fn substring_search() {
    assert!(str_contains("none line-through", "line-through"));
    assert!(!str_contains("line", "line-through"));
    assert!(str_contains("abc", ""));
}

#[test]
fn text_anchor_table() {
    assert_eq!(resolve_text_anchor("middle"), TextAnchor::Middle);
    assert_eq!(resolve_text_anchor("end"), TextAnchor::End);
    assert_eq!(resolve_text_anchor("start"), TextAnchor::Start);
    assert_eq!(resolve_text_anchor("left"), TextAnchor::Start);
}
