use dpc_lib::output::{
    format_pretty_compare, format_pretty_quality, CompareArtifacts, FindingSeverity, PrettyCompare,
    QualityFinding, QualityFindingType, ResourceDescriptor, ScoreColor, ScoreLine,
};
use dpc_lib::error::DpcError;
use dpc_lib::output::{error_output, format_pretty, format_pretty_error, PrettyDocument};
use dpc_lib::resource::ResourceKind;

/// The score color of an ANSI code.
fn color_of(code: &str) -> ScoreColor {
    match code {
        "32" => ScoreColor::Green,
        "33" => ScoreColor::Yellow,
        "31" => ScoreColor::Red,
        other => panic!("no score color has code {other}"),
    }
}

fn line(name: &str, score: &str, code: &str) -> ScoreLine {
    ScoreLine { name: name.to_string(), score: score.to_string(), color: color_of(code) }
}

fn artifacts() -> CompareArtifacts {
    CompareArtifacts {
        directory: "/tmp/dpc-run".to_string(),
        kept: true,
        ref_screenshot: Some("/tmp/dpc-run/ref.png".to_string()),
        impl_screenshot: Some("/tmp/dpc-run/impl.png".to_string()),
        diff_image: Some("/tmp/dpc-run/diff.png".to_string()),
        ref_dom_snapshot: None,
        impl_dom_snapshot: None,
        ref_figma_snapshot: Some("/tmp/dpc-run/ref_figma.json".to_string()),
        impl_figma_snapshot: None,
    }
}

#[test]
fn format_pretty_includes_status_metrics_and_artifacts() {
    let p = PrettyCompare {
        passed: true,
        similarity: "0.960 (96.0%)".to_string(),
        similarity_color: color_of("32"),
        threshold: "95.0%".to_string(),
        issues: vec!["Design parity check passed".to_string()],
        metrics: vec![
            line("pixel", "0.990 (99.0%)", "32"),
            line("layout", "0.750 (75.0%)", "33"),
            line("color", "0.800 (80.0%)", "33"),
        ],
        artifacts: Some(artifacts()),
    };
    let pretty = format_pretty_compare(&p, false);
    assert!(pretty.contains("PASS Design parity check"));
    assert!(pretty.contains("Similarity"));
    assert!(pretty.contains("Metrics:"));
    assert!(pretty.contains("pixel") && pretty.contains("0.99"));
    assert!(pretty.contains("layout") && pretty.contains("0.75"));
    assert!(pretty.contains("color") && pretty.contains("0.80"));
    assert!(pretty.contains("Artifacts:"));
    assert!(pretty.contains("refScreenshot"));
}

#[test]
fn pretty_compare_text_is_exact() {
    let p = PrettyCompare {
        passed: false,
        similarity: "0.500 (50.0%)".to_string(),
        similarity_color: color_of("31"),
        threshold: "95.0%".to_string(),
        issues: (1..=7).map(|k| format!("issue {k}")).collect(),
        metrics: vec![line("typography", "0.500 (50.0%)", "31")],
        artifacts: Some(artifacts()),
    };
    let expected = "FAIL Design parity check\n\
Similarity: 0.500 (50.0%) (threshold 95.0%)\n\
Top issues (max 5):\n- issue 1\n- issue 2\n- issue 3\n- issue 4\n- issue 5\n\
Metrics:\n- typography   0.500 (50.0%)\n\
Artifacts:\n\
- directory        /tmp/dpc-run\n\
- refScreenshot    /tmp/dpc-run/ref.png\n\
- implScreenshot   /tmp/dpc-run/impl.png\n\
- diffImage        /tmp/dpc-run/diff.png\n";
    assert_eq!(format_pretty_compare(&p, false), expected);
}

#[test]
fn pretty_compare_colors_the_verdict_and_scores() {
    let p = PrettyCompare {
        passed: true,
        similarity: "1.000 (100.0%)".to_string(),
        similarity_color: color_of("32"),
        threshold: "95.0%".to_string(),
        issues: vec![],
        metrics: vec![],
        artifacts: None,
    };
    assert_eq!(
        format_pretty_compare(&p, true),
        "\u{1b}[32mPASS\u{1b}[0m Design parity check\nSimilarity: \u{1b}[32m1.000 (100.0%)\u{1b}[0m (threshold 95.0%)\n"
    );
}

#[test]
fn pretty_quality_lists_findings() {
    let input = ResourceDescriptor { kind: ResourceKind::Image, value: "shot.png".to_string() };
    let findings = vec![
        QualityFinding {
            severity: FindingSeverity::Warning,
            finding_type: QualityFindingType::LowContrast,
            message: "low contrast".to_string(),
        },
        QualityFinding {
            severity: FindingSeverity::Info,
            finding_type: QualityFindingType::MissingHierarchy,
            message: "fine".to_string(),
        },
    ];
    assert_eq!(
        format_pretty_quality("72.5", &input, &findings, false),
        "[QUALITY] Score 72.5\nInput: shot.png (kind: Image)\nFindings:\n- [Warning] low contrast\n- [Info] fine\n"
    );
    assert_eq!(
        format_pretty_quality("40.0", &input, &Vec::new(), false),
        "[QUALITY] Score 40.0\nInput: shot.png (kind: Image)\n"
    );
}

#[test]
fn format_pretty_includes_status_and_metrics_simple() {
    let p = PrettyCompare {
        passed: true,
        similarity: "0.960 (96.0%)".to_string(),
        similarity_color: color_of("32"),
        threshold: "95.0%".to_string(),
        issues: vec!["Design parity check passed (96.0% similarity, threshold: 95.0%)".to_string()],
        metrics: vec![line("pixel", "0.960 (96.0%)", "32")],
        artifacts: None,
    };
    let pretty = format_pretty_compare(&p, false);
    assert!(pretty.contains("PASS Design parity check"));
    assert!(pretty.contains("Similarity"));
    assert!(pretty.contains("threshold"));
    assert!(pretty.contains("Metrics:"));
    assert!(pretty.contains("pixel") && pretty.contains("0.96"));
    assert!(pretty.contains("Top issues") || pretty.contains("Top issues (max 5):"));
}

/// The text with every escape, `[`, digit run and `m` sequence taken out.
fn without_colors(s: &str) -> String {
    let cs: Vec<char> = s.chars().collect();
    let mut out = String::new();
    let mut i = 0;
    while i < cs.len() {
        if cs[i] == '\u{1b}' && i + 1 < cs.len() && cs[i + 1] == '[' {
            let mut j = i + 2;
            while j < cs.len() && cs[j].is_ascii_digit() {
                j += 1;
            }
            if j < cs.len() && cs[j] == 'm' {
                i = j + 1;
                continue;
            }
        }
        out.push(cs[i]);
        i += 1;
    }
    out
}

#[test]
fn colored_texts_without_their_colors_are_the_plain_texts() {
    let p = PrettyCompare {
        passed: false,
        similarity: "0.500 (50.0%)".to_string(),
        similarity_color: color_of("31"),
        threshold: "95.0%".to_string(),
        issues: (1..=7).map(|k| format!("issue {k}")).collect(),
        metrics: vec![line("typography", "0.500 (50.0%)", "31"), line("pixel", "0.990 (99.0%)", "32")],
        artifacts: Some(artifacts()),
    };
    let colored = format_pretty_compare(&p, true);
    let plain = format_pretty_compare(&p, false);
    assert_ne!(colored, plain);
    assert_eq!(without_colors(&colored), plain);
    assert!(!plain.contains('\u{1b}'));

    let input = ResourceDescriptor { kind: ResourceKind::Url, value: "https://example.com".to_string() };
    let findings = vec![QualityFinding {
        severity: FindingSeverity::Error,
        finding_type: QualityFindingType::SpacingInconsistent,
        message: "uneven gaps".to_string(),
    }];
    let colored = format_pretty_quality("55.0", &input, &findings, true);
    let plain = format_pretty_quality("55.0", &input, &findings, false);
    assert_eq!(without_colors(&colored), plain);
    assert!(!plain.contains('\u{1b}'));
}

#[test]
fn format_pretty_writes_each_kind_of_document() {
    let err = error_output(&DpcError::Config("bad input".to_string()));
    let plain = format_pretty_error(&err, false);
    let colored = format_pretty(&PrettyDocument::Error(err), true);
    assert_eq!(without_colors(&colored), plain);

    let input = ResourceDescriptor { kind: ResourceKind::Image, value: "shot.png".to_string() };
    let doc = PrettyDocument::Quality { score: "72.5".to_string(), input, findings: vec![] };
    assert_eq!(format_pretty(&doc, false), "[QUALITY] Score 72.5\nInput: shot.png (kind: Image)\n");
    assert_eq!(
        format_pretty(&doc, true),
        "\u{1b}[34m[QUALITY]\u{1b}[0m Score 72.5\nInput: shot.png (kind: Image)\n"
    );
}
