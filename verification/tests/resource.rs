use dpc_lib::resource::{parse_resource, ResourceKind, ResourceParseError};
use tempfile::{Builder, NamedTempFile};

fn temp_file_with_extension(ext: &str) -> NamedTempFile {
    Builder::new()
        .suffix(&format!(".{}", ext))
        .tempfile()
        .expect("create temp file")
}

fn parse_path(value: &str, override_type: Option<ResourceKind>) -> Result<dpc_lib::resource::ParsedResource, ResourceParseError> {
    let is_file = std::path::Path::new(value).is_file();
    parse_resource(value, override_type, is_file)
}

#[test]
fn test_parse_http_url() {
    let res = parse_path("http://localhost:3000/dashboard", None).unwrap();
    assert_eq!(res.kind, ResourceKind::Url);
    assert!(res.figma_info.is_none());
}

#[test]
fn test_parse_https_url() {
    let res = parse_path("https://example.com/page", None).unwrap();
    assert_eq!(res.kind, ResourceKind::Url);
}

#[test]
fn test_parse_figma_url() {
    let url = "https://www.figma.com/file/ABC123/My-Design?node-id=12-34";
    let res = parse_path(url, None).unwrap();
    assert_eq!(res.kind, ResourceKind::Figma);
    let info = res.figma_info.unwrap();
    assert_eq!(info.file_key, "ABC123");
    assert_eq!(info.node_id, Some("12:34".to_string()));
}

#[test]
fn test_parse_figma_design_url() {
    let url = "https://www.figma.com/design/XYZ789/Another-Design?node-id=5-10";
    let res = parse_path(url, None).unwrap();
    assert_eq!(res.kind, ResourceKind::Figma);
    let info = res.figma_info.unwrap();
    assert_eq!(info.file_key, "XYZ789");
    assert_eq!(info.node_id, Some("5:10".to_string()));
}

#[test]
fn test_parse_figma_url_no_node_id() {
    let url = "https://www.figma.com/file/ABC123/My-Design";
    let res = parse_path(url, None).unwrap();
    let info = res.figma_info.unwrap();
    assert_eq!(info.file_key, "ABC123");
    assert!(info.node_id.is_none());
}

#[test]
fn test_parse_local_png() {
    let file = temp_file_with_extension("png");
    let res = parse_path(file.path().to_str().unwrap(), None).unwrap();
    assert_eq!(res.kind, ResourceKind::Image);
}

#[test]
fn test_parse_local_jpg() {
    let file = temp_file_with_extension("jpg");
    let res = parse_path(file.path().to_str().unwrap(), None).unwrap();
    assert_eq!(res.kind, ResourceKind::Image);
}

#[test]
fn test_parse_local_webp() {
    let file = temp_file_with_extension("webp");
    let res = parse_path(file.path().to_str().unwrap(), None).unwrap();
    assert_eq!(res.kind, ResourceKind::Image);
}

#[test]
fn test_parse_unsupported_extension() {
    let file = temp_file_with_extension("pdf");
    let res = parse_path(file.path().to_str().unwrap(), None);
    assert!(matches!(
        res,
        Err(ResourceParseError::UnsupportedExtension { extension, .. })
            if extension == "pdf"
    ));
}

#[test]
fn test_missing_local_image_errors() {
    let res = parse_path("/tmp/does-not-exist.png", None);
    assert!(matches!(res, Err(ResourceParseError::FileNotFound { .. })));
}

#[test]
fn test_override_type() {
    let res = parse_path("/some/path", Some(ResourceKind::Url)).unwrap();
    assert_eq!(res.kind, ResourceKind::Url);
}

#[test]
fn figma_url_without_file_key_is_refused() {
    let res = parse_path("https://www.figma.com/", None);
    assert!(matches!(res, Err(ResourceParseError::FigmaMissingFileKey { .. })));
}

#[test]
fn figma_override_reads_node_id() {
    let res = parse_path(
        "https://www.figma.com/file/KEY1/Name?node-id=3-4",
        Some(ResourceKind::Figma),
    )
    .unwrap();
    assert_eq!(res.kind, ResourceKind::Figma);
    let info = res.figma_info.unwrap();
    assert_eq!(info.file_key, "KEY1");
    assert_eq!(info.node_id, Some("3:4".to_string()));
}

#[test]
fn resource_errors_have_messages() {
    let res = parse_path("/tmp/does-not-exist.png", None);
    match res {
        Err(e) => assert!(e.message().contains("does-not-exist.png")),
        Ok(_) => panic!("expected an error"),
    }
}

#[test]
fn local_inputs_check_the_extension_before_the_file() {
    match parse_resource("missing/report.txt", None, false) {
        Err(ResourceParseError::UnsupportedExtension { extension, supported }) => {
            assert_eq!(extension, "txt");
            assert_eq!(supported, "png, jpg, jpeg, webp, gif");
        }
        other => panic!("expected an unsupported extension, got {other:?}"),
    }
    match parse_resource("dir.v2/snapshot", None, false) {
        Err(ResourceParseError::UnsupportedExtension { extension, .. }) => assert_eq!(extension, "no extension"),
        other => panic!("expected no extension, got {other:?}"),
    }
    match parse_resource("shots/Home.PNG", None, false) {
        Err(ResourceParseError::FileNotFound { path }) => assert_eq!(path, "shots/Home.PNG"),
        other => panic!("expected a missing file, got {other:?}"),
    }
    let ok = parse_resource("shots/home.webp", None, true).unwrap();
    assert_eq!(ok.kind, ResourceKind::Image);
    assert_eq!(ok.value, "shots/home.webp");
    assert!(ok.figma_info.is_none());
}
