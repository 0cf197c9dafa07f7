use dpc_lib::error::DpcError;
use dpc_lib::issues::{
    generate_top_issues, ColorDiffKind, ColorFinding, ContentFinding, DiffSeverity, IssueInputs,
    LayoutDiffKind, LayoutFinding, TypographyFinding, TypographyIssue,
};
use dpc_lib::layout::{match_layout, ElementKind, LayoutElements};
use dpc_lib::metrics::{
    effective_metrics, parse_metric_kinds, plan_metrics, Availability, MetricKind,
    SemanticDiffType,
};
use std::str::FromStr;

fn config_message(e: DpcError) -> String {
    match e {
        DpcError::Config(m) => m,
        other => panic!("expected a configuration error, got {:?}", other),
    }
}

fn round_trip() {
    for kind in MetricKind::all() {
        let rendered = kind.to_string();
        let parsed = MetricKind::from_str(&rendered).expect("parse should succeed");
        assert_eq!(parsed, kind);
    }

    let parsed = MetricKind::from_str("LAYOUT").expect("case insensitive parse");
    assert_eq!(parsed, MetricKind::Layout);

    assert!(MetricKind::from_str("unknown").is_err());
}

#[test]
fn metrics_metric_kind_display_and_parse_round_trip() {
    round_trip();
}

#[test]
fn tests_metric_kind_display_and_parse_round_trip() {
    round_trip();
}

#[test]
fn unknown_metric_kind_reason() {
    assert_eq!(
        MetricKind::parse("Bogus").unwrap_err(),
        "unknown metric kind: bogus"
    );
}

#[test]
fn parse_metric_kinds_reads_in_order_and_names_the_first_unknown() {
    let items = vec!["pixel".to_string(), "Layout".to_string()];
    let kinds = parse_metric_kinds(Some(&items)).unwrap();
    assert_eq!(kinds, vec![MetricKind::Pixel, MetricKind::Layout]);

    let bad = vec!["color".to_string(), "Shape".to_string(), "nope".to_string()];
    let msg = config_message(parse_metric_kinds(Some(&bad)).unwrap_err());
    assert_eq!(msg, "invalid metric kind 'Shape': unknown metric kind: shape");

    assert!(parse_metric_kinds(None).unwrap().is_empty());
}

#[test]
fn semantic_diff_type_display() {
    assert_eq!(SemanticDiffType::TextReflow.to_string(), "text reflow/wrapping");
    assert_eq!(SemanticDiffType::Layout.to_string(), "layout change");
}

fn no_structure() -> Availability {
    Availability {
        layout: false,
        typography: false,
        content: false,
    }
}

fn all_metrics() -> Vec<MetricKind> {
    MetricKind::all().to_vec()
}

fn check_run_metrics_errors_when_defaults_missing() {
    let available = vec![MetricKind::Pixel];
    let err = plan_metrics(&available, &vec![], no_structure()).unwrap_err();
    let msg = err.message();
    assert!(
        msg.contains("Requested metrics not available"),
        "expected missing metrics message, got: {}",
        msg
    );
    assert!(msg.contains("layout"));
    assert!(msg.contains("typography"));
    assert!(msg.contains("color"));
    assert!(msg.contains("content"));
    assert_eq!(
        config_message(err),
        "Requested metrics not available: layout, typography, color, content"
    );
}

fn check_run_metrics_errors_when_selected_missing() {
    let err = plan_metrics(&vec![], &vec![MetricKind::Pixel], no_structure()).unwrap_err();
    let msg = err.message();
    assert!(msg.contains("Requested metrics not available: pixel"));
}

fn check_run_metrics_executes_only_selected_metrics() {
    let available = vec![MetricKind::Pixel, MetricKind::Layout];
    let run = plan_metrics(&available, &vec![MetricKind::Pixel], no_structure()).unwrap();
    assert_eq!(run, vec![0]);
}

fn check_run_metrics_returns_scores_for_selected_metric() {
    let available = vec![MetricKind::Pixel];
    let run = plan_metrics(&available, &vec![MetricKind::Pixel], no_structure()).unwrap();
    assert_eq!(run, vec![0]);
}

fn check_run_metrics_skips_structural_when_no_structure() {
    let run = plan_metrics(&all_metrics(), &vec![], no_structure()).unwrap();
    let kinds: Vec<MetricKind> = run.iter().map(|&i| all_metrics()[i]).collect();
    assert_eq!(kinds, vec![MetricKind::Pixel, MetricKind::Color]);
}

#[test]
fn run_metrics_scores_layout_even_when_impl_is_empty() {
    let availability = Availability {
        layout: true,
        typography: false,
        content: false,
    };
    let run = plan_metrics(&all_metrics(), &vec![MetricKind::Layout], availability).unwrap();
    assert_eq!(run, vec![1]);

    let els = LayoutElements {
        ref_kinds: vec![ElementKind::Button],
        impl_kinds: vec![],
        overlap: vec![vec![]],
        match_floor: 0,
        accept_floor: 0,
    };
    let m = match_layout(&els).expect("layout compares");
    assert!(m.pairs.is_empty());
    assert!(!m.diffs.is_empty(), "missing elements should be reported as diff regions");
    assert_eq!(m.diffs[0].kind, LayoutDiffKind::MissingElement);
}

#[test]
fn effective_metrics_default_to_pixel_and_color_without_dom() {
    assert_eq!(
        effective_metrics(vec![], false, false),
        vec![MetricKind::Pixel, MetricKind::Color]
    );
    assert_eq!(effective_metrics(vec![], true, false), Vec::<MetricKind>::new());
    assert_eq!(
        effective_metrics(vec![MetricKind::Layout], false, false),
        vec![MetricKind::Layout]
    );
}

fn first_scores() -> IssueInputs {
    IssueInputs {
        pixel: Some(vec![DiffSeverity::Minor]),
        layout: Some(vec![LayoutFinding {
            kind: LayoutDiffKind::ExtraElement,
            element_type: Some("button".to_string()),
            label: None,
        }]),
        typography: None,
        color: Some(vec![ColorFinding {
            kind: ColorDiffKind::PrimaryColorShift,
            ref_color: "#FFFFFF".to_string(),
            impl_color: "#000000".to_string(),
        }]),
        content: Some(ContentFinding {
            missing_text: vec!["Hero title".to_string()],
            extra_text: vec!["Extra banner".to_string()],
        }),
    }
}

fn position(v: &[String], pat: &str) -> usize {
    v.iter().position(|m| m.contains(pat)).expect(pat)
}

fn orders_by_severity() {
    let scores = first_scores();
    let ordered = generate_top_issues(&scores, 10);
    let missing_idx = position(&ordered, "missing in the implementation");
    let primary_idx = position(&ordered, "Primary color");
    let layout_idx = position(&ordered, "appears in implementation");
    let pixel_minor_idx = position(&ordered, "minor pixel difference");
    let extra_text_idx = position(&ordered, "Extra text");

    assert!(layout_idx > missing_idx);
    assert!(layout_idx > primary_idx);
    assert!(pixel_minor_idx > layout_idx);
    assert!(extra_text_idx > layout_idx);

    let top_three = generate_top_issues(&scores, 3);
    assert_eq!(top_three.len(), 3);
    assert!(top_three
        .iter()
        .all(|m| !m.contains("minor pixel difference") && !m.contains("Extra text")));
}

#[test]
fn metrics_generate_top_issues_orders_by_severity_and_limits_count() {
    orders_by_severity();
}

#[test]
fn tests_generate_top_issues_orders_by_severity_and_limits_count() {
    orders_by_severity();
}

fn color_and_typography() {
    let scores = IssueInputs {
        pixel: None,
        layout: None,
        typography: Some(vec![TypographyFinding {
            element_id_ref: Some("title".into()),
            element_id_impl: None,
            issues: vec![TypographyIssue::FontFamilyMismatch],
        }]),
        color: Some(vec![ColorFinding {
            kind: ColorDiffKind::AccentColorShift,
            ref_color: "#FFFFFF".to_string(),
            impl_color: "#111111".to_string(),
        }]),
        content: None,
    };

    let issues = generate_top_issues(&scores, 1);
    assert_eq!(issues.len(), 1, "limit should cap issue count to 1");
    assert!(
        issues[0].to_ascii_lowercase().contains("color")
            || issues[0].to_ascii_lowercase().contains("font"),
        "expected a color or typography issue first, got: {:?}",
        issues
    );

    let all_issues = generate_top_issues(&scores, 5);
    assert_eq!(all_issues.len(), 2, "should include both color and typography");
    assert!(all_issues
        .iter()
        .any(|m| m.to_ascii_lowercase().contains("font family")));
    assert!(all_issues
        .iter()
        .any(|m| m.to_ascii_lowercase().contains("color shift")));
}

#[test]
fn metrics_generate_top_issues_includes_color_and_typography_and_respects_limit() {
    color_and_typography();
}

#[test]
fn tests_generate_top_issues_includes_color_and_typography_and_respects_limit() {
    color_and_typography();
}

#[test]
fn generate_top_issues_prioritizes_palette_over_typography() {
    let scores = IssueInputs {
        pixel: None,
        layout: None,
        typography: Some(vec![TypographyFinding {
            element_id_ref: Some("caption".into()),
            element_id_impl: Some("caption_impl".into()),
            issues: vec![TypographyIssue::LineHeightDiff],
        }]),
        color: Some(vec![ColorFinding {
            kind: ColorDiffKind::BackgroundColorShift,
            ref_color: "#111111".to_string(),
            impl_color: "#222222".to_string(),
        }]),
        content: None,
    };

    let issues = generate_top_issues(&scores, 5);
    let color_idx = position(&issues, "olor shift");
    let typo_idx = issues
        .iter()
        .position(|m| m.to_ascii_lowercase().contains("line height"))
        .expect("typography issue present");
    assert!(color_idx < typo_idx);
}

#[test]
fn generate_top_issues_shortens_long_texts() {
    let long = "a".repeat(60);
    let scores = IssueInputs {
        pixel: None,
        layout: None,
        typography: None,
        color: None,
        content: Some(ContentFinding {
            missing_text: vec![long],
            extra_text: vec![],
        }),
    };
    let issues = generate_top_issues(&scores, 5);
    assert_eq!(issues.len(), 1);
    assert!(issues[0].contains(&format!("{}...", "a".repeat(47))));
}

#[test]
fn metrics_run_metrics_errors_when_defaults_missing() {
    check_run_metrics_errors_when_defaults_missing();
}

#[test]
fn tests_run_metrics_errors_when_defaults_missing() {
    check_run_metrics_errors_when_defaults_missing();
}

#[test]
fn metrics_run_metrics_errors_when_selected_missing() {
    check_run_metrics_errors_when_selected_missing();
}

#[test]
fn tests_run_metrics_errors_when_selected_missing() {
    check_run_metrics_errors_when_selected_missing();
}

#[test]
fn metrics_run_metrics_executes_only_selected_metrics() {
    check_run_metrics_executes_only_selected_metrics();
}

#[test]
fn tests_run_metrics_executes_only_selected_metrics() {
    check_run_metrics_executes_only_selected_metrics();
}

#[test]
fn metrics_run_metrics_returns_scores_for_selected_metric() {
    check_run_metrics_returns_scores_for_selected_metric();
}

#[test]
fn tests_run_metrics_returns_scores_for_selected_metric() {
    check_run_metrics_returns_scores_for_selected_metric();
}

#[test]
fn metrics_run_metrics_skips_structural_when_no_structure() {
    check_run_metrics_skips_structural_when_no_structure();
}

#[test]
fn tests_run_metrics_skips_structural_when_no_structure() {
    check_run_metrics_skips_structural_when_no_structure();
}

#[test]
fn generate_top_issues_counts_long_lists_without_cutting_them() {
    // Byte 47 of this text falls inside a two-byte character; a list of
    // four texts is only counted, so the text is never cut.
    let awkward = format!("{}é{}", "a".repeat(46), "b".repeat(10));
    let scores = IssueInputs {
        pixel: None,
        layout: None,
        typography: None,
        color: None,
        content: Some(ContentFinding {
            missing_text: vec![awkward, "x".into(), "y".into(), "z".into()],
            extra_text: vec![],
        }),
    };
    let issues = generate_top_issues(&scores, 5);
    assert_eq!(issues, vec!["4 text elements are missing in the implementation.".to_string()]);
}
