use dpc_lib::codegen::{
    codegen_backend, command_result, http_result, mock_code_from_file, mock_source, stub_notes, CodegenBackend,
    CodegenFields, CodegenResult, MockSource,
};
use dpc_lib::error::DpcError;

fn config_message(r: Result<CodegenResult, DpcError>) -> String {
    match r {
        Err(DpcError::Config(m)) => m,
        Err(other) => panic!("expected a config error, got {other:?}"),
        Ok(c) => panic!("expected an error, got code {}", c.code),
    }
}

fn ok(r: Result<CodegenResult, DpcError>) -> CodegenResult {
    match r {
        Ok(c) => c,
        Err(e) => panic!("expected code, got {e:?}"),
    }
}

fn fields() -> CodegenFields {
    CodegenFields { code: None, html: None, output: None, warnings: None, summary: None, message: None }
}

#[test]
fn mock_code_wins_and_blank_values_do_not_count() {
    match mock_source(Some("<div/>".into()), Some("code.html".into())) {
        MockSource::Code(c) => {
            assert_eq!(c.code, "<div/>");
            assert_eq!(c.warnings, vec!["Using DPC_MOCK_CODE; external codegen not invoked.".to_string()]);
        }
        _ => panic!("expected the code itself"),
    }
    match mock_source(Some("   ".into()), Some("code.html".into())) {
        MockSource::File(p) => assert_eq!(p, "code.html"),
        _ => panic!("expected the file"),
    }
    assert!(matches!(mock_source(None, Some(" ".into())), MockSource::Absent));
    let c = mock_code_from_file("code.html", "<p/>".into());
    assert_eq!(c.code, "<p/>");
    assert_eq!(c.warnings, vec!["Using mock code from code.html; external codegen not invoked.".to_string()]);
}

#[test]
fn backend_prefers_a_command_then_an_endpoint() {
    match codegen_backend(Some("gen".into()), Some("http://x".into())) {
        CodegenBackend::Command(c) => assert_eq!(c, "gen"),
        _ => panic!("expected the command"),
    }
    match codegen_backend(Some("  ".into()), Some("http://x".into())) {
        CodegenBackend::Http(u) => assert_eq!(u, "http://x"),
        _ => panic!("expected the endpoint"),
    }
    assert!(matches!(codegen_backend(None, None), CodegenBackend::NotConfigured));
    assert!(matches!(codegen_backend(Some(" ".into()), Some("\t".into())), CodegenBackend::NotConfigured));
}

#[test]
fn without_a_backend_the_notes_say_not_implemented() {
    let notes = stub_notes();
    assert_eq!(notes.len(), 1);
    assert!(notes[0].to_ascii_lowercase().contains("not implemented"));
    assert_eq!(
        notes[0],
        "Code generation not implemented: no codegen backend configured (set DPC_CODEGEN_URL, DPC_CODEGEN_CMD, or DPC_MOCK_CODE)."
    );
}

#[test]
fn the_first_present_json_field_decides_even_when_not_a_string() {
    let c = ok(http_result(true, "200 OK", "{\"code\": 5, \"html\": \"<p/>\"}".into(), None));
    assert_eq!(c.code, "{\"code\": 5, \"html\": \"<p/>\"}");
    assert_eq!(c.warnings, vec!["Codegen response was not JSON; using raw body as code.".to_string()]);
    let c = ok(http_result(true, "200 OK", "{\"output\": \"<i/>\", \"result\": \"<b/>\"}".into(), None));
    assert_eq!(c.code, "<i/>");
}

#[test]
fn command_results_cover_failure_blank_output_and_stderr_notes() {
    assert_eq!(
        config_message(command_result(false, "exit status: 1", String::new(), " boom\n")),
        "Codegen command exited with exit status: 1: boom"
    );
    assert_eq!(config_message(command_result(true, "exit status: 0", "  \n".into(), "")), "Codegen command produced no output");
    let c = ok(command_result(true, "exit status: 0", "<p/>".into(), "careful \n"));
    assert_eq!(c.code, "<p/>");
    assert_eq!(c.warnings, vec!["codegen command stderr: careful".to_string()]);
    assert!(ok(command_result(true, "exit status: 0", "<p/>".into(), "")).warnings.is_empty());
}

#[test]
fn http_results_follow_the_fields_then_the_json_value_then_the_raw_body() {
    assert_eq!(
        config_message(http_result(false, "500 Internal Server Error", " oops ".into(), None)),
        "Codegen HTTP 500 Internal Server Error: oops"
    );
    let typed = CodegenFields {
        html: Some("<h1/>".into()),
        output: Some("<ignored/>".into()),
        warnings: Some(vec!["w1".into(), "w2".into()]),
        summary: Some("sum".into()),
        message: Some("msg".into()),
        ..fields()
    };
    let c = ok(http_result(true, "200 OK", "{}".into(), Some(typed)));
    assert_eq!(c.code, "<h1/>");
    assert_eq!(c.warnings, vec!["sum", "w1", "w2", "msg"]);

    let blank = CodegenFields { code: Some("  ".into()), ..fields() };
    assert_eq!(config_message(http_result(true, "200 OK", "{}".into(), Some(blank))), "Codegen response contained empty code");

    let c = ok(http_result(true, "200 OK", "{\"result\":\"<b/>\"}".into(), None));
    assert_eq!(c.code, "<b/>");
    assert!(c.warnings.is_empty());

    let c = ok(http_result(true, "200 OK", "plain html".into(), None));
    assert_eq!(c.code, "plain html");
    assert_eq!(c.warnings, vec!["Codegen response was not JSON; using raw body as code."]);

    assert_eq!(config_message(http_result(true, "200 OK", "   ".into(), None)), "Codegen HTTP response was empty");
}
