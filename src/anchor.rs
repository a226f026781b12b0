//! Horizontal alignment of a text chunk.
use vstd::prelude::*;
use crate::strings::str_eq;

verus! {

#[derive(Clone, Copy, Debug, PartialEq, Eq, Structural)]
pub enum TextAnchor {
    Start,
    Middle,
    End,
}

pub open spec fn anchor_of(s: Seq<char>) -> TextAnchor {
    if s == "middle"@ {
        TextAnchor::Middle
    } else if s == "end"@ {
        TextAnchor::End
    } else {
        TextAnchor::Start
    }
}

/// Maps a `text-anchor` keyword; anything unknown is `start`.
pub fn resolve_text_anchor(s: &str) -> (r: TextAnchor)
    ensures
        r == anchor_of(s@),
{
    if str_eq(s, "middle") {
        TextAnchor::Middle
    } else if str_eq(s, "end") {
        TextAnchor::End
    } else {
        TextAnchor::Start
    }
}

} // verus!
