use dpc_lib::issues::LayoutDiffKind;
use dpc_lib::layout::{
    element_kind_from_dom, element_kind_from_figma, match_layout, ElementKind, LayoutElements,
    Side,
};
use dpc_lib::error::DpcError;

#[test]
fn element_kinds_from_tags_and_node_types() {
    assert_eq!(element_kind_from_dom("BUTTON"), ElementKind::Button);
    assert_eq!(element_kind_from_dom("img"), ElementKind::Image);
    assert_eq!(element_kind_from_dom("TextArea"), ElementKind::Input);
    assert_eq!(element_kind_from_dom("h4"), ElementKind::Heading);
    assert_eq!(element_kind_from_dom("span"), ElementKind::Text);
    assert_eq!(element_kind_from_dom("nav"), ElementKind::Other);
    assert_eq!(element_kind_from_figma("TEXT"), ElementKind::Text);
    assert_eq!(element_kind_from_figma("FRAME"), ElementKind::Other);
    assert_eq!(element_kind_from_figma("image"), ElementKind::Image);
    assert_eq!(ElementKind::Heading.as_str(), "heading");
}

fn check_layout_metric_errors_when_reference_missing_layout() {
    let els = LayoutElements {
        ref_kinds: vec![],
        impl_kinds: vec![ElementKind::Button],
        overlap: vec![],
        match_floor: 10,
        accept_floor: 50,
    };
    match match_layout(&els) {
        Err(DpcError::Config(m)) => assert_eq!(m, "No layout elements available in reference view"),
        _ => panic!("expected an error"),
    }
}

fn check_layout_metric_reports_extra_elements() {
    // The reference button overlaps the first implementation button fully;
    // the second implementation element has no counterpart.
    let els = LayoutElements {
        ref_kinds: vec![ElementKind::Button],
        impl_kinds: vec![ElementKind::Button, ElementKind::Text],
        overlap: vec![vec![100, 0]],
        match_floor: 10,
        accept_floor: 50,
    };
    let m = match_layout(&els).unwrap();
    assert_eq!(m.pairs.len(), 1);
    assert!(m
        .diffs
        .iter()
        .any(|d| d.kind == LayoutDiffKind::ExtraElement && d.index == 1 && d.side == Side::Implementation));
}

#[test]
fn pairing_takes_the_largest_free_overlap_of_the_same_kind() {
    let els = LayoutElements {
        ref_kinds: vec![ElementKind::Button, ElementKind::Button, ElementKind::Text],
        impl_kinds: vec![ElementKind::Button, ElementKind::Button, ElementKind::Image],
        overlap: vec![vec![60, 90, 95], vec![80, 85, 0], vec![0, 0, 99]],
        match_floor: 10,
        accept_floor: 50,
    };
    let m = match_layout(&els).unwrap();
    let pairs: Vec<(usize, usize)> = m.pairs.iter().map(|p| (p.reference, p.implementation)).collect();
    assert_eq!(pairs, vec![(0, 1), (1, 0)]);
    assert_eq!(m.diffs.len(), 3);
    assert_eq!((m.diffs[0].kind, m.diffs[0].side, m.diffs[0].index), (LayoutDiffKind::MissingElement, Side::Reference, 2));
    assert_eq!((m.diffs[1].kind, m.diffs[1].index), (LayoutDiffKind::ExtraElement, 2));
    assert_eq!((m.diffs[2].kind, m.diffs[2].index), (LayoutDiffKind::ExtraElement, 2));
}

#[test]
fn pairs_below_the_acceptance_key_are_not_made() {
    let els = LayoutElements {
        ref_kinds: vec![ElementKind::Text],
        impl_kinds: vec![ElementKind::Text],
        overlap: vec![vec![30]],
        match_floor: 10,
        accept_floor: 50,
    };
    let m = match_layout(&els).unwrap();
    assert!(m.pairs.is_empty());
    assert_eq!(m.diffs[0].kind, LayoutDiffKind::MissingElement);
    assert_eq!(m.diffs.iter().filter(|d| d.kind == LayoutDiffKind::ExtraElement).count(), 2);
}

#[test]
fn metrics_layout_metric_errors_when_reference_missing_layout() {
    check_layout_metric_errors_when_reference_missing_layout();
}

#[test]
fn tests_layout_metric_errors_when_reference_missing_layout() {
    check_layout_metric_errors_when_reference_missing_layout();
}

#[test]
fn metrics_layout_metric_reports_extra_elements() {
    check_layout_metric_reports_extra_elements();
}

#[test]
fn tests_layout_metric_reports_extra_elements() {
    check_layout_metric_reports_extra_elements();
}
