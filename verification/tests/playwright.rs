use dpc_lib::error::DpcError;
use dpc_lib::playwright::{
    check_render_status,
    check_script_result, launch_message, map_playwright_error, map_playwright_status_error,
    map_spawn_error, script_args, ScriptError,
};
use dpc_lib::viewport::Viewport;

fn reported(message: &str) -> Option<ScriptError> {
    Some(ScriptError {
        status: "error".to_string(),
        message: message.to_string(),
    })
}

fn config_text(err: DpcError) -> String {
    match err {
        DpcError::Config(msg) => msg,
        other => panic!("expected config error, got {other:?}"),
    }
}

fn detects_missing_module() {
    let err = map_playwright_error(
        "1",
        r#"{"status":"error","message":"Cannot find module 'playwright'"}"#,
        reported("Cannot find module 'playwright'"),
    );
    let msg = config_text(err);
    assert!(msg.contains("Playwright npm package is missing"));
}

#[test]
fn browser_map_playwright_error_detects_missing_module() {
    detects_missing_module();
}

#[test]
fn playwright_map_playwright_error_detects_missing_module() {
    detects_missing_module();
}

fn plain_stderr_missing_module() {
    let err = map_playwright_error("1", "Error: Cannot find module 'playwright'", None);
    let msg = config_text(err);
    assert!(msg.contains("npm install playwright"));
}

#[test]
fn browser_map_playwright_error_handles_plain_stderr_missing_module() {
    plain_stderr_missing_module();
}

#[test]
fn playwright_map_playwright_error_handles_plain_stderr_missing_module() {
    plain_stderr_missing_module();
}

fn reports_missing_module() {
    let err = map_playwright_error(
        "exit status: 1",
        r#"{"status":"error","message":"Cannot find module 'playwright'"}"#,
        reported("Cannot find module 'playwright'"),
    );
    assert!(err.message().contains("Playwright npm package is missing"));
}

#[test]
fn browser_script_error_reports_missing_playwright_module() {
    reports_missing_module();
}

#[test]
fn playwright_script_error_reports_missing_playwright_module() {
    reports_missing_module();
}

fn non_json_missing_module() {
    let err = map_playwright_error(
        "exit status: 1",
        "Error: Cannot find module 'playwright'\n    at Module._resolveFilename",
        None,
    );
    assert!(err.message().contains("Playwright npm package is missing"));
}

#[test]
fn browser_map_playwright_error_handles_non_json_missing_module() {
    non_json_missing_module();
}

#[test]
fn playwright_map_playwright_error_handles_non_json_missing_module() {
    non_json_missing_module();
}

#[test]
fn map_playwright_error_includes_timeout_hint() {
    let err = map_playwright_error(
        "exit status: 1",
        r#"{"status":"error","message":"Navigation timeout of 30000ms exceeded"}"#,
        reported("Navigation timeout of 30000ms exceeded"),
    );
    let msg = err.message();
    assert!(msg.to_ascii_lowercase().contains("timeout"));
    assert!(msg.contains("--nav-timeout") || msg.contains("--network-idle-timeout"));
}

#[test]
fn map_playwright_status_error_includes_timeout_hint() {
    let err = map_playwright_status_error("1", "Timeout waiting for networkidle state".to_string());
    let msg = err.message();
    assert!(msg.to_ascii_lowercase().contains("timeout"));
    assert!(msg.contains("--nav-timeout") || msg.contains("--network-idle-timeout"));
}

fn preserves_other_messages() {
    let err = map_playwright_error(
        "exit status: 1",
        r#"{"status":"error","message":"Timeout navigating to https://example.com"}"#,
        reported("Timeout navigating to https://example.com"),
    );
    let msg = err.message();
    assert!(msg.contains("Playwright error"));
    assert!(msg.contains("Timeout navigating"));
}

#[test]
fn browser_script_error_preserves_other_messages() {
    preserves_other_messages();
}

#[test]
fn playwright_script_error_preserves_other_messages() {
    preserves_other_messages();
}

#[test]
fn plain_failures_keep_status_and_trimmed_stderr() {
    let err = map_playwright_error("exit status: 3", "  something broke \n", None);
    assert_eq!(
        config_text(err),
        "Playwright exited with status exit status: 3: something broke"
    );
    let err = map_playwright_error("exit status: 3", "Navigation Timeout", None);
    assert!(config_text(err).starts_with("Playwright timed out;"));
    let err = map_playwright_status_error("error", "Boom".to_string());
    assert_eq!(config_text(err), "Playwright error (status error): Boom");
}

#[test]
fn spawn_errors_name_the_command() {
    match map_spawn_error(true, "no such file".to_string(), "node") {
        DpcError::Config(m) => assert_eq!(
            m,
            "Unable to spawn Playwright helper; 'node' was not found on PATH"
        ),
        other => panic!("unexpected {other:?}"),
    }
    assert!(matches!(
        map_spawn_error(false, "denied".to_string(), "node"),
        DpcError::Io(m) if m == "denied"
    ));
}

#[test]
fn script_arguments_and_progress_line() {
    let vp = Viewport {
        width: 1280,
        height: 720,
    };
    let args = script_args("run()", "https://x.test", vp, 30000, 10000, "/tmp/s.png", true);
    assert_eq!(
        args,
        vec!["-e", "run()", "https://x.test", "1280", "720", "30000", "10000", "/tmp/s.png", "1"]
    );
    let args = script_args("run()", "u", vp, 1, 2, "p", false);
    assert_eq!(args[8], "0");
    assert_eq!(
        launch_message("https://x.test", vp, 30, 10),
        "Launching headless browser for https://x.test (1280x720, nav 30s, idle 10s)\u{2026}"
    );
}

#[test]
fn script_results_are_checked() {
    assert!(check_script_result("ok", true, None).is_ok());
    match check_script_result("ok", false, None) {
        Err(DpcError::Config(m)) => assert_eq!(m, "Playwright returned ok status but no DOM data"),
        other => panic!("unexpected {other:?}"),
    }
    match check_script_result("weird", true, None) {
        Err(DpcError::Config(m)) => assert_eq!(m, "Playwright returned non-ok status: weird"),
        other => panic!("unexpected {other:?}"),
    }
    match check_script_result("error", true, reported("Cannot find module 'playwright'")) {
        Err(DpcError::Config(m)) => assert!(m.contains("Playwright npm package is missing")),
        other => panic!("unexpected {other:?}"),
    }
}

#[test]
fn render_status_reads_the_script_output() {
    assert!(check_render_status(Some(("ok".to_string(), None)), "{\"status\":\"ok\"}").is_ok());
    assert_eq!(
        config_text(check_render_status(Some(("error".to_string(), Some("boom".to_string()))), "").unwrap_err()),
        "Playwright returned non-ok status error: boom"
    );
    assert_eq!(
        config_text(check_render_status(Some(("busy".to_string(), None)), "").unwrap_err()),
        "Playwright returned non-ok status busy: no additional details"
    );
    assert_eq!(
        config_text(check_render_status(None, "  garbage\n").unwrap_err()),
        "Unexpected Playwright output: garbage"
    );
}
