use dpc_lib::cli::{normalize_stack, resource_kind_from_cli, OutputFormat, ResourceType};
use dpc_lib::color::ColorPaletteMetric;
use dpc_lib::error::DpcError;
use dpc_lib::ocr::{is_available, OcrError};
use dpc_lib::output::{
    color, format_pretty_generate, GenerateCodeOutput, ResourceDescriptor, Summary,
    DPC_OUTPUT_VERSION,
};
use dpc_lib::resource::ResourceKind;

#[test]
fn resource_types_map_to_kinds() {
    assert_eq!(resource_kind_from_cli(ResourceType::Url), ResourceKind::Url);
    assert_eq!(resource_kind_from_cli(ResourceType::Image), ResourceKind::Image);
    assert_eq!(resource_kind_from_cli(ResourceType::Figma), ResourceKind::Figma);
    assert_eq!(OutputFormat::default(), OutputFormat::Json);
}

#[test]
fn stacks_are_normalized_or_refused() {
    assert_eq!(normalize_stack("  HTML+Tailwind ").unwrap(), "html+tailwind");
    match normalize_stack("react") {
        Err(DpcError::Config(m)) => {
            assert_eq!(m, "Unsupported stack 'react'; supported: html+tailwind")
        }
        other => panic!("unexpected {:?}", other),
    }
}

#[test]
fn test_is_available() {
    let _ = is_available();
    assert!(!is_available());
}

#[test]
fn ocr_error_messages() {
    assert_eq!(
        OcrError::NotAvailable.message(),
        "Tesseract not available - install Tesseract OCR or enable the 'ocr' feature"
    );
    assert_eq!(
        OcrError::ImageLoadError("x.png".to_string()).message(),
        "Failed to load image for OCR: x.png"
    );
}

#[test]
fn color_wraps_text_only_when_enabled() {
    assert_eq!(color("PASS", "32", false), "PASS");
    assert_eq!(color("PASS", "32", true), "\u{1b}[32mPASS\u{1b}[0m");
}

#[test]
fn generate_output_pretty_lists_notes() {
    let out = GenerateCodeOutput {
        version: DPC_OUTPUT_VERSION.to_string(),
        input: ResourceDescriptor {
            kind: ResourceKind::Figma,
            value: "figma-file".to_string(),
        },
        viewport: None,
        stack: Some("html+tailwind".to_string()),
        output_path: None,
        code: None,
        summary: Some(Summary {
            top_issues: vec!["first".to_string(), "second".to_string()],
        }),
    };
    assert_eq!(
        format_pretty_generate(&out, false),
        "[GENERATE] Code generation (stub)\nInput: figma-file (kind: Figma)\nNotes:\n- first\n- second\n"
    );
}

#[test]
fn color_palette_defaults() {
    let m = ColorPaletteMetric::default();
    assert_eq!(m.clusters, 5);
    assert_eq!(m.sample_stride, 4);
}

#[test]
fn generate_output_colored_differs_only_by_its_header_color() {
    let out = GenerateCodeOutput {
        version: DPC_OUTPUT_VERSION.to_string(),
        input: ResourceDescriptor { kind: ResourceKind::Image, value: "shot.png".to_string() },
        viewport: None,
        stack: None,
        output_path: None,
        code: None,
        summary: Some(Summary { top_issues: vec!["Code generation not implemented".to_string()] }),
    };
    let colored = format_pretty_generate(&out, true);
    let plain = format_pretty_generate(&out, false);
    assert_eq!(colored, format!("\u{1b}[36m[GENERATE]\u{1b}[0m{}", &plain["[GENERATE]".len()..]));
    assert!(!plain.contains('\u{1b}'));
}
