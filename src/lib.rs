//! Text attribute resolution and mask-chain compositing decisions for an SVG
//! rendering pipeline.
use vstd::prelude::*;

pub mod anchor;
pub mod decoration;
pub mod font;
pub mod mask;
pub mod positions;
pub mod rotation;
pub mod strings;
pub mod text_tree;

verus! {

/// A non-fatal warning emitted while resolving attributes or compositing masks.
#[derive(Clone, Copy, Debug, PartialEq, Eq, Structural)]
pub enum Diagnostic {
    /// `bolder` or `lighter` reached font matching unresolved; `normal` was used.
    RelativeFontWeight,
    /// The mask at this index needs the target's bounding box, which is degenerate.
    ZeroSizedMaskTarget(usize),
    /// No free layer was left for the mask at this index.
    MaskLayerUnavailable(usize),
}

} // verus!
