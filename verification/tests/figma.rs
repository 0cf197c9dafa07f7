use dpc_lib::color::hex_color;
use dpc_lib::resource::FigmaInfo;
use dpc_lib::error::DpcError;
use dpc_lib::figma::{
    api_error, check_render_request, figma_render_request, check_token, download_error, error_message,
    exported_image_url, image_url_for_node, map_figma_error, map_paint_kind, nodes_path,
    response_error, validate_node_ids, FigmaAuth, FigmaError, FigmaImageExport, FigmaImageFormat,
    FigmaImageResponse, FigmaPaintKind, ImageFormat,
};

#[test]
fn test_figma_client_missing_token() {
    let result = check_token(&FigmaAuth::PersonalAccessToken(String::new()));
    assert!(matches!(result.unwrap_err(), FigmaError::MissingToken));
    assert!(check_token(&FigmaAuth::OAuthToken("t".to_string())).is_ok());
}

fn image_formats() {
    assert_eq!(ImageFormat::Png.as_str(), "png");
    assert_eq!(ImageFormat::Jpg.as_str(), "jpg");
    assert_eq!(ImageFormat::Svg.as_str(), "svg");
}

#[test]
fn figma_test_image_format_as_str() {
    image_formats();
}

#[test]
fn tests_test_image_format_as_str() {
    image_formats();
}

#[test]
fn image_format_names_cover_pdf_and_client_formats() {
    assert_eq!(ImageFormat::Pdf.as_str(), "pdf");
    assert_eq!(FigmaImageFormat::Png.as_str(), "png");
    assert_eq!(FigmaImageFormat::Jpg.as_str(), "jpg");
    assert_eq!(FigmaImageFormat::Svg.as_str(), "svg");
}

fn channel(v: f32) -> u8 {
    (v * 255.0) as u8
}

#[test]
fn test_figma_color_to_hex() {
    let rgb = [channel(1.0), channel(0.5), channel(0.0)];
    assert_eq!(hex_color(rgb, false), "#ff7f00");
}

#[test]
fn test_figma_color_to_hex_black() {
    let rgb = [channel(0.0), channel(0.0), channel(0.0)];
    assert_eq!(hex_color(rgb, false), "#000000");
}

#[test]
fn hex_color_upper_case() {
    assert_eq!(hex_color([0xAB, 0x0C, 0xFF], true), "#AB0CFF");
}

#[test]
fn personal_access_token_sets_expected_header() {
    let auth = FigmaAuth::PersonalAccessToken("secret".into());
    let (name, value) = auth.header();
    assert!(name.eq_ignore_ascii_case("X-FIGMA-TOKEN"));
    assert_eq!(value, "secret");
}

#[test]
fn oauth_token_sets_bearer_auth_header() {
    let auth = FigmaAuth::OAuthToken("oauth_secret".into());
    let (name, value) = auth.header();
    assert!(name.eq_ignore_ascii_case("authorization"));
    assert_eq!(value, "Bearer oauth_secret");
}

#[test]
fn export_images_rejects_empty_nodes() {
    let result = validate_node_ids(&vec![], "exporting Figma images");
    assert!(matches!(result, Err(DpcError::Config(_))));
    match result {
        Err(DpcError::Config(m)) => {
            assert_eq!(m, "node_ids cannot be empty when exporting Figma images")
        }
        _ => unreachable!(),
    }
    assert!(validate_node_ids(&vec!["1:2".to_string()], "x").is_ok());
}

#[test]
fn auth_from_env_prefers_figma_token() {
    let auth = FigmaAuth::from_tokens(
        Some("pat_token".to_string()),
        Some("oauth_token".to_string()),
    )
    .expect("auth from env");
    match auth {
        FigmaAuth::PersonalAccessToken(token) => assert_eq!(token, "pat_token"),
        _ => panic!("expected personal access token"),
    }
}

#[test]
fn auth_falls_back_to_oauth_and_skips_empty_tokens() {
    match FigmaAuth::from_tokens(Some(String::new()), Some("oauth".to_string())) {
        Some(FigmaAuth::OAuthToken(t)) => assert_eq!(t, "oauth"),
        other => panic!("unexpected {:?}", other),
    }
    assert!(FigmaAuth::from_tokens(None, Some(String::new())).is_none());
    assert!(FigmaAuth::from_tokens(None, None).is_none());
}

#[test]
fn map_figma_error_covers_every_variant() {
    assert!(matches!(
        map_figma_error(FigmaError::Request("boom".to_string())),
        DpcError::Network(m) if m == "boom"
    ));
    match map_figma_error(FigmaError::Api {
        status: 404,
        message: "nope".to_string(),
    }) {
        DpcError::FigmaApi { status, message } => {
            assert_eq!(status, Some(404));
            assert_eq!(message, "nope");
        }
        other => panic!("unexpected {:?}", other),
    }
    match map_figma_error(FigmaError::Api {
        status: 42,
        message: "odd".to_string(),
    }) {
        DpcError::FigmaApi { status, .. } => assert_eq!(status, Some(500)),
        other => panic!("unexpected {:?}", other),
    }
    match map_figma_error(FigmaError::MissingToken) {
        DpcError::Config(m) => {
            assert_eq!(m, "Missing Figma token; set FIGMA_TOKEN or FIGMA_OAUTH_TOKEN")
        }
        other => panic!("unexpected {:?}", other),
    }
    match map_figma_error(FigmaError::InvalidFileKey("K".to_string())) {
        DpcError::FigmaApi { status, message } => {
            assert_eq!(status, None);
            assert_eq!(message, "Invalid Figma file key: K");
        }
        other => panic!("unexpected {:?}", other),
    }
    match map_figma_error(FigmaError::NodeNotFound("1:2".to_string())) {
        DpcError::FigmaApi { status, message } => {
            assert_eq!(status, None);
            assert_eq!(message, "Node not found: 1:2");
        }
        other => panic!("unexpected {:?}", other),
    }
    match map_figma_error(FigmaError::RateLimited(12)) {
        DpcError::FigmaApi { status, message } => {
            assert_eq!(status, Some(429));
            assert_eq!(message, "Rate limited, retry after 12 seconds");
        }
        other => panic!("unexpected {:?}", other),
    }
}

#[test]
fn figma_error_messages() {
    assert_eq!(
        FigmaError::Api {
            status: 403,
            message: "denied".to_string()
        }
        .message(),
        "Figma API error (403): denied"
    );
    assert_eq!(FigmaError::MissingToken.message(), "Missing access token");
    assert_eq!(
        FigmaError::RateLimited(60).message(),
        "Rate limited, retry after 60 seconds"
    );
}

#[test]
fn response_error_reads_rate_limits_and_failures() {
    assert!(matches!(
        response_error(429, Some("30"), String::new()),
        Some(FigmaError::RateLimited(30))
    ));
    assert!(matches!(
        response_error(429, Some("soon"), String::new()),
        Some(FigmaError::RateLimited(60))
    ));
    assert!(matches!(
        response_error(429, None, String::new()),
        Some(FigmaError::RateLimited(60))
    ));
    match response_error(500, None, "oops".to_string()) {
        Some(FigmaError::Api { status, message }) => {
            assert_eq!(status, 500);
            assert_eq!(message, "oops");
        }
        other => panic!("unexpected {:?}", other),
    }
    assert!(response_error(200, None, String::new()).is_none());
}

#[test]
fn exported_image_url_finds_the_node() {
    let export = FigmaImageExport {
        images: vec![
            ("1:2".to_string(), "https://img/a.png".to_string()),
            ("3:4".to_string(), "https://img/b.png".to_string()),
        ],
    };
    assert_eq!(exported_image_url(&export, "3:4").unwrap(), "https://img/b.png");
    assert!(matches!(
        exported_image_url(&export, "9:9"),
        Err(FigmaError::NodeNotFound(id)) if id == "9:9"
    ));
}

#[test]
fn image_url_for_node_reports_missing_urls() {
    let resp = FigmaImageResponse {
        images: vec![("1:2".to_string(), "https://img/a.png".to_string())],
        err: None,
    };
    assert_eq!(image_url_for_node(&resp, "1:2").unwrap(), "https://img/a.png");
    match image_url_for_node(&resp, "5:6") {
        Err(DpcError::FigmaApi { status, message }) => {
            assert_eq!(status, None);
            assert_eq!(message, "image URL missing for node 5:6");
        }
        other => panic!("unexpected {:?}", other),
    }
}

#[test]
fn render_request_needs_key_node_and_path() {
    assert!(check_render_request("KEY", "1:2", "out.png").is_ok());
    match check_render_request("  ", "1:2", "out.png") {
        Err(DpcError::Config(m)) => assert_eq!(m, "Figma file key is required for export"),
        other => panic!("unexpected {:?}", other),
    }
    match check_render_request("KEY", "", "out.png") {
        Err(DpcError::Config(m)) => assert_eq!(m, "Figma node id is required for export"),
        other => panic!("unexpected {:?}", other),
    }
    match check_render_request("KEY", "1:2", "") {
        Err(DpcError::Config(m)) => assert_eq!(m, "Figma export output_path is required"),
        other => panic!("unexpected {:?}", other),
    }
}

#[test]
fn paint_kinds_by_type() {
    assert_eq!(map_paint_kind("SOLID"), FigmaPaintKind::Solid);
    assert_eq!(map_paint_kind("IMAGE"), FigmaPaintKind::Image);
    assert_eq!(map_paint_kind("GRADIENT_LINEAR"), FigmaPaintKind::Gradient);
    assert_eq!(map_paint_kind("EMOJI"), FigmaPaintKind::Solid);
}

#[test]
fn nodes_path_joins_ids() {
    let ids = vec!["1:2".to_string(), "3:4".to_string()];
    assert_eq!(nodes_path("KEY", &ids).unwrap(), "/v1/files/KEY/nodes?ids=1:2,3:4");
    match nodes_path("KEY", &vec![]) {
        Err(DpcError::Config(m)) => {
            assert_eq!(m, "node_ids cannot be empty when fetching nodes from Figma")
        }
        other => panic!("unexpected {:?}", other),
    }
}

#[test]
fn api_error_messages_use_the_body_and_rate_limits() {
    assert_eq!(error_message(404, r#"{"err":"Not found"}"#, None), "Not found");
    assert_eq!(error_message(400, r#"{"error":"Bad"}"#, None), "Bad");
    assert_eq!(error_message(400, r#"{"err":3,"error":"x"}"#, None), "Figma API returned status 400");
    assert_eq!(error_message(400, r#"{"err":null,"error":"x"}"#, None), "Figma API returned status 400");
    assert_eq!(error_message(400, r#"["err"]"#, None), "Figma API returned status 400");
    assert_eq!(
        error_message(429, r#"{"err":"Slow down"}"#, Some("5")),
        "Slow down (rate limited, retry after 5s)"
    );
    assert_eq!(
        error_message(429, "not json", Some("5")),
        "rate limited by Figma API, retry after 5s"
    );
    assert_eq!(error_message(502, "", None), "Figma API returned status 502");
    match api_error(404, r#"{"err":"Not found"}"#, None) {
        DpcError::FigmaApi { status, message } => {
            assert_eq!(status, Some(404));
            assert_eq!(message, "Not found");
        }
        other => panic!("unexpected {:?}", other),
    }
}

#[test]
fn download_errors_name_the_status() {
    match download_error(403, "forbidden") {
        DpcError::FigmaApi { status, message } => {
            assert_eq!(status, Some(403));
            assert_eq!(message, "failed to download image (status 403): forbidden");
        }
        other => panic!("unexpected {:?}", other),
    }
}

#[test]
fn figma_render_request_names_the_first_missing_piece() {
    let message = |r: Result<(String, String, FigmaAuth), DpcError>| match r {
        Err(DpcError::Config(m)) => m,
        _ => panic!("expected a config error"),
    };
    let token = || Some(FigmaAuth::PersonalAccessToken("t".to_string()));
    assert_eq!(message(figma_render_request(&None, token())), "Missing Figma file key");
    let no_node = Some(FigmaInfo { file_key: "KEY".to_string(), node_id: None });
    assert_eq!(message(figma_render_request(&no_node, token())), "Figma node-id is required");
    let full = Some(FigmaInfo { file_key: "KEY".to_string(), node_id: Some("1:2".to_string()) });
    assert_eq!(
        message(figma_render_request(&full, None)),
        "Figma token missing; set FIGMA_TOKEN or FIGMA_OAUTH_TOKEN"
    );
    match figma_render_request(&full, token()) {
        Ok((key, node, FigmaAuth::PersonalAccessToken(t))) => {
            assert_eq!((key.as_str(), node.as_str(), t.as_str()), ("KEY", "1:2", "t"));
        }
        _ => panic!("expected the request"),
    }
}
