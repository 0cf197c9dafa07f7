use dpc_lib::issues::{DiffSeverity, LayoutDiffKind, TypographyIssue};
use dpc_lib::summary::{
    summary_issue_lines, ColorSummary, ContentSummary, LayoutSummary, PixelSummary,
    SummaryInputs, TypographySummary,
};

#[test]
fn summary_lines_follow_metric_order() {
    let inputs = SummaryInputs {
        pixel: Some(PixelSummary {
            low_score: true,
            diff_percent: 12,
            severities: vec![DiffSeverity::Major, DiffSeverity::Minor, DiffSeverity::Major],
        }),
        layout: Some(LayoutSummary {
            low_score: true,
            kinds: vec![
                LayoutDiffKind::MissingElement,
                LayoutDiffKind::ExtraElement,
                LayoutDiffKind::MissingElement,
            ],
        }),
        typography: Some(TypographySummary {
            low_score: true,
            issues: vec![
                vec![TypographyIssue::FontFamilyMismatch, TypographyIssue::FontSizeDiff],
                vec![TypographyIssue::FontSizeDiff],
            ],
        }),
        color: Some(ColorSummary {
            low_score: true,
            diff_count: 3,
        }),
        content: Some(ContentSummary {
            low_score: true,
            missing: 1,
            extra: 0,
        }),
    };
    assert_eq!(
        summary_issue_lines(&inputs),
        vec![
            "Pixel differences detected in ~12% of the image",
            "2 major visual difference region(s) found",
            "2 element(s) missing from implementation",
            "1 extra element(s) in implementation",
            "1 element(s) have mismatched font families",
            "2 element(s) have incorrect font sizes",
            "3 color difference(s) detected in palette",
            "1 text element(s) missing from implementation",
        ]
    );
}

#[test]
fn summary_skips_metrics_with_good_scores() {
    let inputs = SummaryInputs {
        pixel: Some(PixelSummary {
            low_score: false,
            diff_percent: 2,
            severities: vec![DiffSeverity::Minor],
        }),
        layout: Some(LayoutSummary {
            low_score: false,
            kinds: vec![LayoutDiffKind::MissingElement],
        }),
        typography: None,
        color: Some(ColorSummary {
            low_score: true,
            diff_count: 0,
        }),
        content: None,
    };
    assert!(summary_issue_lines(&inputs).is_empty());
}
