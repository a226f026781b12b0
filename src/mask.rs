//! Which masks of a mask chain reach the target, and in what order.
//!
//! Applying a mask takes one layer from a bounded pool for as long as the mask
//! and the masks it references are being applied. A mask whose rectangle or
//! content is relative to the target's bounding box cannot be used when that box
//! is degenerate. A referenced mask is applied to the target before the mask that
//! references it, so the target is painted with destination-in once per mask,
//! innermost first. A mask that cannot be applied leaves the target as it was,
//! and the masks around it are still applied.
use vstd::prelude::*;
use crate::Diagnostic;

verus! {

#[derive(Clone, Copy, Debug, PartialEq, Eq, Structural)]
pub enum Units {
    UserSpaceOnUse,
    ObjectBoundingBox,
}

/// The parts of a mask that decide how it is applied.
#[derive(Clone, Copy, Debug, PartialEq, Eq, Structural)]
pub struct Mask {
    pub units: Units,
    pub content_units: Units,
    /// The index of the mask that masks this one.
    pub mask: Option<usize>,
}

/// The mask needs the bounding box, and the box is degenerate.
pub open spec fn blocked(m: Mask, bbox_degenerate: bool) -> bool {
    bbox_degenerate && (m.units is ObjectBoundingBox || m.content_units is ObjectBoundingBox)
}

/// The masks painted onto the target, in order, when mask `m` is applied with
/// `free` layers left in the pool.
pub open spec fn composite_order(masks: Seq<Mask>, m: int, bbox_degenerate: bool, free: nat) -> Seq<
    usize,
>
    decreases free,
{
    if m < 0 || m >= masks.len() || free == 0 || blocked(masks[m], bbox_degenerate) {
        Seq::empty()
    } else {
        match masks[m].mask {
            Some(r) => composite_order(masks, r as int, bbox_degenerate, (free - 1) as nat),
            None => Seq::empty(),
        }.push(m as usize)
    }
}

/// The diagnostics emitted when mask `m` is applied with `free` layers left.
pub open spec fn mask_diagnostics(
    masks: Seq<Mask>,
    m: int,
    bbox_degenerate: bool,
    free: nat,
) -> Seq<Diagnostic>
    decreases free,
{
    if m < 0 || m >= masks.len() {
        Seq::empty()
    } else if free == 0 {
        seq![Diagnostic::MaskLayerUnavailable(m as usize)]
    } else if blocked(masks[m], bbox_degenerate) {
        seq![Diagnostic::ZeroSizedMaskTarget(m as usize)]
    } else {
        match masks[m].mask {
            Some(r) => mask_diagnostics(masks, r as int, bbox_degenerate, (free - 1) as nat),
            None => Seq::empty(),
        }
    }
}

/// Applies the mask at index `mask` to the target: returns the masks to paint
/// onto the target with destination-in, in order, and reports each mask that
/// could not be applied.
pub fn apply(
    masks: &Vec<Mask>,
    mask: usize,
    bbox_degenerate: bool,
    free_layers: usize,
    diags: &mut Vec<Diagnostic>,
) -> (r: Vec<usize>)
    ensures
        r@ == composite_order(masks@, mask as int, bbox_degenerate, free_layers as nat),
        final(diags)@ == old(diags)@ + mask_diagnostics(
            masks@,
            mask as int,
            bbox_degenerate,
            free_layers as nat,
        ),
    decreases free_layers,
{
    if mask >= masks.len() {
        assert(diags@ =~= old(diags)@ + Seq::empty());
        return Vec::new();
    }
    if free_layers == 0 {
        diags.push(Diagnostic::MaskLayerUnavailable(mask));
        return Vec::new();
    }
    let m = masks[mask];
    let uses_bbox = match m.units {
        Units::ObjectBoundingBox => true,
        Units::UserSpaceOnUse => match m.content_units {
            Units::ObjectBoundingBox => true,
            Units::UserSpaceOnUse => false,
        },
    };
    if bbox_degenerate && uses_bbox {
        diags.push(Diagnostic::ZeroSizedMaskTarget(mask));
        return Vec::new();
    }
    let mut out = match m.mask {
        Some(inner) => apply(masks, inner, bbox_degenerate, free_layers - 1, diags),
        None => {
            assert(diags@ =~= old(diags)@ + Seq::empty());
            Vec::new()
        },
    };
    out.push(mask);
    out
}

/// A mask that needs the bounding box of a degenerate target paints nothing onto
/// it, reports the target, and takes none of the masks it references.
pub proof fn lemma_degenerate_target_unmasked(masks: Seq<Mask>, m: int, free: nat)
    requires
        0 <= m < masks.len(),
        free > 0,
        masks[m].units is ObjectBoundingBox || masks[m].content_units is ObjectBoundingBox,
    ensures
        composite_order(masks, m, true, free) == Seq::<usize>::empty(),
        mask_diagnostics(masks, m, true, free) == seq![Diagnostic::ZeroSizedMaskTarget(m as usize)],
{
}

/// In a chain of two usable masks, the target is painted with the inner mask
/// and then with the outer one, so its alpha is scaled by both.
pub proof fn lemma_two_level_chain(masks: Seq<Mask>, outer: usize, inner: usize, deg: bool, free: nat)
    requires
        outer < masks.len(),
        inner < masks.len(),
        masks[outer as int].mask == Some(inner),
        masks[inner as int].mask is None,
        !blocked(masks[outer as int], deg),
        !blocked(masks[inner as int], deg),
        free >= 2,
    ensures
        composite_order(masks, outer as int, deg, free) == seq![inner, outer],
        mask_diagnostics(masks, outer as int, deg, free) == Seq::<Diagnostic>::empty(),
{
    let f1 = (free - 1) as nat;
    assert(composite_order(masks, inner as int, deg, f1) =~= seq![inner]);
    assert(mask_diagnostics(masks, inner as int, deg, f1) =~= Seq::<Diagnostic>::empty());
    assert(composite_order(masks, outer as int, deg, free) == composite_order(
        masks,
        inner as int,
        deg,
        f1,
    ).push(outer));
    assert(seq![inner].push(outer) =~= seq![inner, outer]);
}

/// A usable mask is painted onto the target last, whatever became of the masks
/// it references: a reference that finds the pool empty is skipped and reported,
/// and the masks around it stay applied.
pub proof fn lemma_exhaustion_keeps_outer(masks: Seq<Mask>, m: usize, deg: bool, free: nat)
    requires
        m < masks.len(),
        !blocked(masks[m as int], deg),
        free > 0,
    ensures
        composite_order(masks, m as int, deg, free).last() == m,
        composite_order(masks, m as int, deg, free).len() <= free,
        masks[m as int].mask is Some && (masks[m as int].mask->Some_0 as int) < masks.len() && free
            == 1 ==> composite_order(masks, m as int, deg, free) == seq![m] && mask_diagnostics(
            masks,
            m as int,
            deg,
            free,
        ) == seq![Diagnostic::MaskLayerUnavailable(masks[m as int].mask->Some_0)],
{
    lemma_composite_order_bounded(masks, m as int, deg, free);
    if free == 1 {
        if let Some(r) = masks[m as int].mask {
            assert(composite_order(masks, r as int, deg, 0) =~= Seq::<usize>::empty());
            if (r as int) < masks.len() {
                assert(mask_diagnostics(masks, r as int, deg, 0) == seq![
                    Diagnostic::MaskLayerUnavailable(r),
                ]);
                assert(mask_diagnostics(masks, m as int, deg, free) == mask_diagnostics(
                    masks,
                    r as int,
                    deg,
                    0,
                ));
            }
        }
        assert(Seq::<usize>::empty().push(m) =~= seq![m]);
    }
}

/// No more masks reach the target than there are layers in the pool.
pub proof fn lemma_composite_order_bounded(masks: Seq<Mask>, m: int, deg: bool, free: nat)
    ensures
        composite_order(masks, m, deg, free).len() <= free,
    decreases free,
{
    if free > 0 {
        if 0 <= m < masks.len() {
            if let Some(r) = masks[m].mask {
                lemma_composite_order_bounded(masks, r as int, deg, (free - 1) as nat);
            }
        }
    }
}

} // verus!
