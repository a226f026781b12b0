//! Font property keywords and the family fallback list.
//!
//! Keywords map through fixed tables, with `normal` for anything unknown. The
//! family attribute is split at commas, single quotes are dropped, and the five
//! generic keywords become generic families; the declared order is kept.
use vstd::prelude::*;
use crate::strings::{chars_eq_str, str_eq, string_from_chars};
use crate::Diagnostic;

verus! {

#[derive(Clone, Copy, Debug, PartialEq, Eq, Structural)]
pub enum FontStyle {
    Normal,
    Italic,
    Oblique,
}

/// The nine steps of the numeric weight scale, `100` to `900`.
#[derive(Clone, Copy, Debug, PartialEq, Eq, Structural)]
pub enum FontWeight {
    Thin,
    ExtraLight,
    Light,
    Normal,
    Medium,
    SemiBold,
    Bold,
    ExtraBold,
    Black,
}

#[derive(Clone, Copy, Debug, PartialEq, Eq, Structural)]
pub enum FontStretch {
    UltraCondensed,
    ExtraCondensed,
    Condensed,
    SemiCondensed,
    Normal,
    SemiExpanded,
    Expanded,
    ExtraExpanded,
    UltraExpanded,
}

#[derive(Clone, Debug, PartialEq, Eq)]
pub enum FamilyName {
    Serif,
    SansSerif,
    Monospace,
    Cursive,
    Fantasy,
    Title(String),
}

/// Everything a system font source needs to pick a font.
#[derive(Clone, Debug)]
pub struct FontQuery {
    pub families: Vec<FamilyName>,
    pub style: FontStyle,
    pub weight: FontWeight,
    pub stretch: FontStretch,
}

pub open spec fn style_of(s: Seq<char>) -> FontStyle {
    if s == "italic"@ {
        FontStyle::Italic
    } else if s == "oblique"@ {
        FontStyle::Oblique
    } else {
        FontStyle::Normal
    }
}

pub open spec fn is_relative_weight(s: Seq<char>) -> bool {
    s == "bolder"@ || s == "lighter"@
}

pub open spec fn weight_of(s: Seq<char>) -> FontWeight {
    if s == "bold"@ || s == "700"@ {
        FontWeight::Bold
    } else if s == "100"@ {
        FontWeight::Thin
    } else if s == "200"@ {
        FontWeight::ExtraLight
    } else if s == "300"@ {
        FontWeight::Light
    } else if s == "500"@ {
        FontWeight::Medium
    } else if s == "600"@ {
        FontWeight::SemiBold
    } else if s == "800"@ {
        FontWeight::ExtraBold
    } else if s == "900"@ {
        FontWeight::Black
    } else {
        FontWeight::Normal
    }
}

pub open spec fn stretch_of(s: Seq<char>) -> FontStretch {
    if s == "ultra-condensed"@ {
        FontStretch::UltraCondensed
    } else if s == "extra-condensed"@ {
        FontStretch::ExtraCondensed
    } else if s == "narrower"@ || s == "condensed"@ {
        FontStretch::Condensed
    } else if s == "semi-condensed"@ {
        FontStretch::SemiCondensed
    } else if s == "semi-expanded"@ {
        FontStretch::SemiExpanded
    } else if s == "wider"@ || s == "expanded"@ {
        FontStretch::Expanded
    } else if s == "extra-expanded"@ {
        FontStretch::ExtraExpanded
    } else if s == "ultra-expanded"@ {
        FontStretch::UltraExpanded
    } else {
        FontStretch::Normal
    }
}

/// The family attribute cut at commas, with single quotes dropped; an empty
/// attribute is one empty entry.
pub open spec fn family_segments(s: Seq<char>) -> Seq<Seq<char>>
    decreases s.len(),
{
    if s.len() == 0 {
        seq![Seq::empty()]
    } else {
        let prev = family_segments(s.drop_last());
        let c = s.last();
        if c == ',' {
            prev.push(Seq::empty())
        } else if c == '\'' {
            prev
        } else {
            prev.update(prev.len() - 1, prev.last().push(c))
        }
    }
}

/// `f` is the family that the entry `seg` names.
pub open spec fn family_matches(f: FamilyName, seg: Seq<char>) -> bool {
    if seg == "serif"@ {
        f is Serif
    } else if seg == "sans-serif"@ {
        f is SansSerif
    } else if seg == "monospace"@ {
        f is Monospace
    } else if seg == "cursive"@ {
        f is Cursive
    } else if seg == "fantasy"@ {
        f is Fantasy
    } else {
        f is Title && f->Title_0@ == seg
    }
}

pub proof fn lemma_family_segments_nonempty(s: Seq<char>)
    ensures
        family_segments(s).len() >= 1,
    decreases s.len(),
{
    if s.len() > 0 {
        lemma_family_segments_nonempty(s.drop_last());
    }
}

/// Maps a `font-style` keyword; anything unknown is `normal`.
pub fn resolve_font_style(s: &str) -> (r: FontStyle)
    ensures
        r == style_of(s@),
{
    if str_eq(s, "italic") {
        FontStyle::Italic
    } else if str_eq(s, "oblique") {
        FontStyle::Oblique
    } else {
        FontStyle::Normal
    }
}

/// Maps a `font-weight` keyword or number; anything unknown is `normal`.
/// `bolder` and `lighter` must have been resolved beforehand: they give `normal`
/// and a diagnostic.
pub fn resolve_font_weight(s: &str, diags: &mut Vec<Diagnostic>) -> (r: FontWeight)
    ensures
        r == weight_of(s@),
        final(diags)@ == if is_relative_weight(s@) {
            old(diags)@.push(Diagnostic::RelativeFontWeight)
        } else {
            old(diags)@
        },
{
    if str_eq(s, "bolder") || str_eq(s, "lighter") {
        diags.push(Diagnostic::RelativeFontWeight);
        proof {
            reveal_strlit("bolder");
            reveal_strlit("lighter");
            reveal_strlit("bold");
            reveal_strlit("700");
            reveal_strlit("100");
            reveal_strlit("200");
            reveal_strlit("300");
            reveal_strlit("500");
            reveal_strlit("600");
            reveal_strlit("800");
            reveal_strlit("900");
            assert("bolder"@.len() == 6 && "lighter"@.len() == 7);
            assert("bold"@.len() == 4 && "700"@.len() == 3 && "100"@.len() == 3);
            assert("200"@.len() == 3 && "300"@.len() == 3 && "500"@.len() == 3);
            assert("600"@.len() == 3 && "800"@.len() == 3 && "900"@.len() == 3);
        }
        return FontWeight::Normal;
    }
    if str_eq(s, "bold") || str_eq(s, "700") {
        FontWeight::Bold
    } else if str_eq(s, "100") {
        FontWeight::Thin
    } else if str_eq(s, "200") {
        FontWeight::ExtraLight
    } else if str_eq(s, "300") {
        FontWeight::Light
    } else if str_eq(s, "500") {
        FontWeight::Medium
    } else if str_eq(s, "600") {
        FontWeight::SemiBold
    } else if str_eq(s, "800") {
        FontWeight::ExtraBold
    } else if str_eq(s, "900") {
        FontWeight::Black
    } else {
        FontWeight::Normal
    }
}

/// Maps a `font-stretch` keyword; `narrower` and `wider` stand for `condensed`
/// and `expanded`; anything unknown is `normal`.
pub fn resolve_font_stretch(s: &str) -> (r: FontStretch)
    ensures
        r == stretch_of(s@),
{
    if str_eq(s, "ultra-condensed") {
        FontStretch::UltraCondensed
    } else if str_eq(s, "extra-condensed") {
        FontStretch::ExtraCondensed
    } else if str_eq(s, "narrower") || str_eq(s, "condensed") {
        FontStretch::Condensed
    } else if str_eq(s, "semi-condensed") {
        FontStretch::SemiCondensed
    } else if str_eq(s, "semi-expanded") {
        FontStretch::SemiExpanded
    } else if str_eq(s, "wider") || str_eq(s, "expanded") {
        FontStretch::Expanded
    } else if str_eq(s, "extra-expanded") {
        FontStretch::ExtraExpanded
    } else if str_eq(s, "ultra-expanded") {
        FontStretch::UltraExpanded
    } else {
        FontStretch::Normal
    }
}

/// The family that one entry of the family list names.
pub fn family_name(seg: &Vec<char>) -> (r: FamilyName)
    ensures
        family_matches(r, seg@),
{
    if chars_eq_str(seg, "serif") {
        FamilyName::Serif
    } else if chars_eq_str(seg, "sans-serif") {
        FamilyName::SansSerif
    } else if chars_eq_str(seg, "monospace") {
        FamilyName::Monospace
    } else if chars_eq_str(seg, "cursive") {
        FamilyName::Cursive
    } else if chars_eq_str(seg, "fantasy") {
        FamilyName::Fantasy
    } else {
        FamilyName::Title(string_from_chars(seg))
    }
}

/// Splits a `font-family` attribute into its fallback list, in declared order.
pub fn parse_font_family(s: &str) -> (r: Vec<FamilyName>)
    ensures
        r@.len() == family_segments(s@).len(),
        forall|k: int| 0 <= k < r@.len() ==> family_matches(#[trigger] r@[k], family_segments(s@)[k]),
{
    let n = s.unicode_len();
    let mut out: Vec<FamilyName> = Vec::new();
    let mut cur: Vec<char> = Vec::new();
    let mut i: usize = 0;
    proof {
        assert(s@.subrange(0, 0) =~= Seq::<char>::empty());
    }
    while i < n
        invariant
            n == s@.len(),
            i <= n,
            out@.len() + 1 == family_segments(s@.subrange(0, i as int)).len(),
            forall|k: int|
                0 <= k < out@.len() ==> family_matches(
                    #[trigger] out@[k],
                    family_segments(s@.subrange(0, i as int))[k],
                ),
            cur@ == family_segments(s@.subrange(0, i as int)).last(),
        decreases n - i,
    {
        let ghost prev = family_segments(s@.subrange(0, i as int));
        let c = s.get_char(i);
        assert(s@.subrange(0, i + 1).drop_last() =~= s@.subrange(0, i as int));
        assert(s@.subrange(0, i + 1).last() == c);
        if c == ',' {
            let f = family_name(&cur);
            out.push(f);
            cur = Vec::new();
            assert(cur@ =~= Seq::<char>::empty());
        } else if c != '\'' {
            cur.push(c);
        }
        i = i + 1;
    }
    assert(s@.subrange(0, n as int) =~= s@);
    let f = family_name(&cur);
    out.push(f);
    out
}

/// Resolves the font properties and the family fallback list of a run from its
/// `font-style`, `font-weight`, `font-stretch` and `font-family` attributes.
pub fn resolve_font_query(
    style: &str,
    weight: &str,
    stretch: &str,
    family: &str,
    diags: &mut Vec<Diagnostic>,
) -> (r: FontQuery)
    ensures
        r.style == style_of(style@),
        r.weight == weight_of(weight@),
        r.stretch == stretch_of(stretch@),
        r.families@.len() == family_segments(family@).len(),
        forall|k: int|
            0 <= k < r.families@.len() ==> family_matches(
                #[trigger] r.families@[k],
                family_segments(family@)[k],
            ),
        final(diags)@ == if is_relative_weight(weight@) {
            old(diags)@.push(Diagnostic::RelativeFontWeight)
        } else {
            old(diags)@
        },
{
    let style = resolve_font_style(style);
    let weight = resolve_font_weight(weight, diags);
    let stretch = resolve_font_stretch(stretch);
    let families = parse_font_family(family);
    FontQuery { families, style, weight, stretch }
}

} // verus!
