use dpc_lib::viewport::{Viewport, ViewportParseError};

#[test]
fn test_parse_valid() {
    let vp: Viewport = "1440x900".parse().unwrap();
    assert_eq!(vp.width, 1440);
    assert_eq!(vp.height, 900);
}

#[test]
fn test_parse_with_spaces() {
    let vp: Viewport = " 1920 x 1080 ".parse().unwrap();
    assert_eq!(vp.width, 1920);
    assert_eq!(vp.height, 1080);
}

#[test]
fn test_parse_invalid_format() {
    assert!("1440".parse::<Viewport>().is_err());
    assert!("1440x900x600".parse::<Viewport>().is_err());
    assert!("x900".parse::<Viewport>().is_err());
}

#[test]
fn test_parse_invalid_numbers() {
    assert!("abcx900".parse::<Viewport>().is_err());
    assert!("1440xabc".parse::<Viewport>().is_err());
}

#[test]
fn test_parse_zero_dimensions() {
    assert!("0x900".parse::<Viewport>().is_err());
    assert!("1440x0".parse::<Viewport>().is_err());
}

#[test]
fn test_default() {
    let vp = Viewport::default();
    assert_eq!(vp.width, 1440);
    assert_eq!(vp.height, 900);
}

#[test]
fn test_display() {
    let vp = Viewport {
        width: 1920,
        height: 1080,
    };
    assert_eq!(vp.to_string(), "1920x1080");
}

#[test]
fn viewport_text_reads_back() {
    let vp = Viewport {
        width: 800,
        height: 600,
    };
    let text = vp.to_string();
    assert_eq!(Viewport::parse(&text).unwrap(), vp);
}

#[test]
fn viewport_errors_name_the_problem() {
    assert!(matches!(
        Viewport::parse("0x900"),
        Err(ViewportParseError::ZeroWidth)
    ));
    assert!(matches!(
        Viewport::parse("1440x0"),
        Err(ViewportParseError::ZeroHeight)
    ));
    assert!(matches!(
        Viewport::parse("1440"),
        Err(ViewportParseError::InvalidFormat)
    ));
    match Viewport::parse("abcx900") {
        Err(ViewportParseError::InvalidWidth(w)) => assert_eq!(w, "abc"),
        other => panic!("unexpected: {:?}", other),
    }
    match Viewport::parse("1440xabc") {
        Err(ViewportParseError::InvalidHeight(h)) => assert_eq!(h, "abc"),
        other => panic!("unexpected: {:?}", other),
    }
}

#[test]
fn viewport_parse_accepts_plus_sign() {
    let vp = Viewport::parse("+1024x+768").unwrap();
    assert_eq!(vp, Viewport { width: 1024, height: 768 });
}
