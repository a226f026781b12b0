use usvg_text_mask::mask::{apply, Mask, Units};
use usvg_text_mask::Diagnostic;

fn user(mask: Option<usize>) -> Mask {
    Mask { units: Units::UserSpaceOnUse, content_units: Units::UserSpaceOnUse, mask }
}

#[test]
fn mask_single() {
    let mut diags = Vec::new();
    assert_eq!(apply(&vec![user(None)], 0, false, 1, &mut diags), vec![0]);
    assert!(diags.is_empty());
}

#[test]
fn mask_degenerate_bbox_leaves_target_unmasked() {
    let masks = vec![Mask { units: Units::ObjectBoundingBox, content_units: Units::UserSpaceOnUse, mask: None }];
    let mut diags = Vec::new();
    assert!(apply(&masks, 0, true, 4, &mut diags).is_empty());
    assert_eq!(diags, vec![Diagnostic::ZeroSizedMaskTarget(0)]);
    let mut diags = Vec::new();
    assert_eq!(apply(&masks, 0, false, 4, &mut diags), vec![0]);
    assert!(diags.is_empty());
}

#[test]
fn mask_content_units_need_bbox() {
    let masks = vec![
        user(Some(1)),
        Mask { units: Units::UserSpaceOnUse, content_units: Units::ObjectBoundingBox, mask: None },
    ];
    let mut diags = Vec::new();
    assert_eq!(apply(&masks, 0, true, 4, &mut diags), vec![0]);
    assert_eq!(diags, vec![Diagnostic::ZeroSizedMaskTarget(1)]);
}

#[test]
fn mask_two_level_chain_inner_first() {
    let masks = vec![user(Some(1)), user(None)];
    let mut diags = Vec::new();
    assert_eq!(apply(&masks, 0, false, 2, &mut diags), vec![1, 0]);
    assert!(diags.is_empty());
}

#[test]
fn mask_pool_exhaustion_keeps_outer_masks() {
    let masks = vec![user(Some(1)), user(Some(2)), user(None)];
    let mut diags = Vec::new();
    assert_eq!(apply(&masks, 0, false, 2, &mut diags), vec![1, 0]);
    assert_eq!(diags, vec![Diagnostic::MaskLayerUnavailable(2)]);
}

#[test]
fn mask_cycle_bounded_by_pool() {
    let masks = vec![user(Some(0))];
    let mut diags = Vec::new();
    assert_eq!(apply(&masks, 0, false, 3, &mut diags), vec![0, 0, 0]);
    assert_eq!(diags, vec![Diagnostic::MaskLayerUnavailable(0)]);
}

#[test]
fn mask_missing_reference_is_ignored() {
    let masks = vec![user(Some(7))];
    let mut diags = Vec::new();
    assert_eq!(apply(&masks, 0, false, 3, &mut diags), vec![0]);
    assert!(diags.is_empty());
}

#[test]
fn mask_no_layer_at_all() {
    let mut diags = Vec::new();
    assert!(apply(&vec![user(None)], 0, false, 0, &mut diags).is_empty());
    assert_eq!(diags, vec![Diagnostic::MaskLayerUnavailable(0)]);
}
