use dpc_lib::error::{DpcError, ErrorCategory, ErrorPayload};
use dpc_lib::output::{
    error_output, exit_code_for_compare, exit_code_for_error, format_pretty_error, ErrorOutput,
    DPC_OUTPUT_VERSION,
};

fn remediation_of(err: DpcError) -> String {
    err.to_payload().remediation.unwrap_or_default()
}

#[test]
fn config_error_display_includes_message() {
    let err = DpcError::Config("missing viewport".to_string());
    assert_eq!(err.message(), "Configuration error: missing viewport");
}

#[test]
fn io_error_display_wraps_source() {
    let err = DpcError::Io("disk full".to_string());
    let rendered = err.message();
    assert!(rendered.starts_with("IO error: "));
    assert!(rendered.contains("disk full"));
}

#[test]
fn figma_api_helper_includes_status_and_message() {
    let err = DpcError::figma_api(Some(404), "not found".to_string());
    assert_eq!(err.message(), "Figma API error (status: Some(404)): not found");
}

#[test]
fn figma_api_helper_handles_missing_status() {
    let err = DpcError::figma_api(None, "missing token".to_string());
    assert_eq!(err.message(), "Figma API error (status: None): missing token");
}

#[test]
fn metric_helper_uses_message() {
    let err = DpcError::metric("bad metric output".to_string());
    assert_eq!(err.message(), "Metric computation error: bad metric output");
}

#[test]
fn config_payload_includes_playwright_remediation() {
    let err = DpcError::Config(
        "Playwright npm package is missing; install with `npm install playwright`.".to_string(),
    );
    let payload = err.to_payload();
    assert_eq!(payload.category, ErrorCategory::Config);
    let remediation = payload.remediation.unwrap_or_default();
    assert!(remediation.contains("npm install playwright"));
}

#[test]
fn config_payload_uses_default_remediation_for_other_messages() {
    let remediation = remediation_of(DpcError::Config("Some other config issue".to_string()));
    assert!(remediation.contains("Check flags/paths"));
}

#[test]
fn config_payload_includes_figma_token_remediation() {
    let remediation = remediation_of(DpcError::Config(
        "FIGMA_TOKEN environment variable is required".to_string(),
    ));
    assert!(remediation.contains("FIGMA_TOKEN"));
}

#[test]
fn config_payload_includes_node_install_hint() {
    let remediation = remediation_of(DpcError::Config(
        "Unable to spawn Playwright helper; 'node' was not found on PATH".to_string(),
    ));
    assert!(remediation.to_ascii_lowercase().contains("node"));
}

#[test]
fn config_payload_includes_timeout_hint() {
    let remediation = remediation_of(DpcError::Config(
        "Playwright error (status error): Timeout navigating to https://example.com".to_string(),
    ));
    assert!(
        remediation.contains("--nav-timeout") || remediation.to_ascii_lowercase().contains("timeout")
    );
}

#[test]
fn config_payload_includes_node_id_hint() {
    let remediation =
        remediation_of(DpcError::Config("Figma URL missing node-id in query".to_string()));
    assert!(remediation.to_ascii_lowercase().contains("node-id"));
}

#[test]
fn config_payload_includes_file_key_hint() {
    let remediation = remediation_of(DpcError::Config("Figma URL missing file key".to_string()));
    assert!(remediation.to_ascii_lowercase().contains("file key"));
}

#[test]
fn config_payload_includes_file_not_found_hint() {
    let remediation = remediation_of(DpcError::Config(
        "Local file not found: missing.png. Hint: check the path relative to the current working directory or use an absolute path."
            .to_string(),
    ));
    let lower = remediation.to_ascii_lowercase();
    assert!(lower.contains("absolute path") || lower.contains("working directory"));
    assert!(remediation.contains("png") && remediation.contains("gif"));
}

#[test]
fn config_payload_lists_supported_extensions_for_unsupported_extension() {
    let remediation = remediation_of(DpcError::Config(
        "Unsupported file extension 'bmp'. Supported image extensions: png, jpg, jpeg, webp, gif."
            .to_string(),
    ));
    assert!(remediation.contains("png") && remediation.contains("gif"));
}

#[test]
fn config_payload_includes_chromium_install_hint() {
    let remediation = remediation_of(DpcError::Config(
        "chromium executable is missing; reinstall Playwright".to_string(),
    ));
    assert!(remediation
        .to_ascii_lowercase()
        .contains("playwright install chromium"));
}

#[test]
fn payload_of_figma_error_has_status_in_message() {
    let payload = DpcError::figma_api(Some(429), "slow".to_string()).to_payload();
    assert_eq!(payload.category, ErrorCategory::Figma);
    assert_eq!(payload.message, "Figma API error (status Some(429)): slow");
    assert_eq!(
        payload.remediation.as_deref(),
        Some("Check FIGMA_TOKEN/URL and rate limits; retry after waiting.")
    );
}

#[test]
fn error_payload_new_keeps_its_parts() {
    let p = ErrorPayload::new(ErrorCategory::Image, "bad".to_string(), "fix it");
    assert_eq!(p.category, ErrorCategory::Image);
    assert_eq!(p.message, "bad");
    assert_eq!(p.remediation.as_deref(), Some("fix it"));
}

#[test]
fn exit_code_for_compare_maps_pass_fail() {
    assert_eq!(exit_code_for_compare(true), 0);
    assert_eq!(exit_code_for_compare(false), 1);
}

#[test]
fn render_error_always_returns_fatal_exit_code() {
    let out = error_output(&DpcError::Config("boom".to_string()));
    assert_eq!(out.version, DPC_OUTPUT_VERSION);
    assert_eq!(out.message.as_deref(), Some("boom"));
    assert_eq!(exit_code_for_error(), 2);
}

#[test]
fn format_pretty_handles_errors() {
    let output = ErrorOutput {
        version: DPC_OUTPUT_VERSION.to_string(),
        message: Some("bad input".to_string()),
        error: ErrorPayload {
            category: ErrorCategory::Config,
            message: "bad input".to_string(),
            remediation: Some("check flags".to_string()),
        },
    };

    let pretty = format_pretty_error(&output, false);
    assert!(pretty.contains("[ERROR] bad input"));
    assert!(pretty.contains("Hint: check flags"));
    assert_eq!(pretty, "[ERROR] bad input\nHint: check flags\n");
    let colored = format_pretty_error(&output, true);
    assert!(colored.starts_with("\u{1b}[31m[ERROR]\u{1b}[0m bad input"));
}

#[test]
fn colored_error_text_differs_only_by_its_header_color() {
    let out = error_output(&DpcError::Config("bad input".to_string()));
    let colored = format_pretty_error(&out, true);
    let plain = format_pretty_error(&out, false);
    assert!(plain.starts_with("[ERROR] bad input\n"));
    assert_eq!(colored, format!("\u{1b}[31m[ERROR]\u{1b}[0m{}", &plain["[ERROR]".len()..]));
    assert!(!plain.contains('\u{1b}'));
}
