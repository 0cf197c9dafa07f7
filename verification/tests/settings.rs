use dpc_lib::settings::{
    flag_present, resolve_limits, validate_limits, AlignmentOffset, CliLimits,
    CompareFlagSources, ImageAlignmentOptions, PixelAlignmentConfig, TimeSpan, Timeouts,
};
use dpc_lib::viewport::Viewport;

fn args(v: &[&str]) -> Vec<String> {
    v.iter().map(|s| s.to_string()).collect()
}

#[test]
fn flag_present_accepts_flag_alone_or_with_value() {
    let a = args(&["dpc", "compare", "--viewport=800x600", "--threshold", "0.9"]);
    assert!(flag_present(&a, "--viewport"));
    assert!(flag_present(&a, "--threshold"));
    assert!(!flag_present(&a, "--nav-timeout"));
    assert!(!flag_present(&args(&["--viewportx"]), "--viewport"));
}

#[test]
fn compare_flag_sources_from_args() {
    let a = args(&["dpc", "--nav-timeout=5", "--process-timeout", "9"]);
    let f = CompareFlagSources::from_args(&a);
    assert!(!f.viewport);
    assert!(!f.threshold);
    assert!(f.nav_timeout);
    assert!(!f.network_idle_timeout);
    assert!(f.process_timeout);
    assert_eq!(CompareFlagSources::default(), CompareFlagSources::from_args(&vec![]));
}

fn cli() -> CliLimits {
    CliLimits {
        viewport: Viewport {
            width: 999,
            height: 999,
        },
        nav_timeout: 30,
        network_idle_timeout: 10,
        process_timeout: 45,
        pixel_align: None,
        pixel_align_max_shift: None,
        pixel_align_downscale: None,
    }
}

#[test]
fn resolve_compare_settings_prefers_config_when_flags_absent() {
    let timeouts = Timeouts {
        navigation: TimeSpan::from_secs(5),
        network_idle: TimeSpan::from_secs(6),
        process: TimeSpan::from_secs(7),
    };
    let flags = CompareFlagSources::default();
    let resolved = resolve_limits(
        &cli(),
        Viewport {
            width: 111,
            height: 222,
        },
        &timeouts,
        &PixelAlignmentConfig::default(),
        &flags,
    );
    assert_eq!(resolved.viewport.width, 111);
    assert_eq!(resolved.viewport.height, 222);
    assert_eq!(resolved.nav_timeout, 5);
    assert_eq!(resolved.network_idle_timeout, 6);
    assert_eq!(resolved.process_timeout, 7);
    assert!(!resolved.pixel_alignment.enabled);
}

#[test]
fn resolve_compare_settings_prefers_cli_when_flags_present() {
    let flags = CompareFlagSources {
        viewport: true,
        threshold: true,
        nav_timeout: true,
        network_idle_timeout: true,
        process_timeout: true,
    };
    let given = CliLimits {
        viewport: Viewport {
            width: 10,
            height: 20,
        },
        nav_timeout: 50,
        network_idle_timeout: 60,
        process_timeout: 70,
        pixel_align: Some(true),
        pixel_align_max_shift: Some(12),
        pixel_align_downscale: Some(128),
    };
    let resolved = resolve_limits(
        &given,
        Viewport::default(),
        &Timeouts::default(),
        &PixelAlignmentConfig::default(),
        &flags,
    );
    assert_eq!(resolved.viewport.width, 10);
    assert_eq!(resolved.viewport.height, 20);
    assert_eq!(resolved.nav_timeout, 50);
    assert_eq!(resolved.network_idle_timeout, 60);
    assert_eq!(resolved.process_timeout, 70);
    assert!(resolved.pixel_alignment.enabled);
    assert_eq!(resolved.pixel_alignment.max_shift, 12);
    assert_eq!(resolved.pixel_alignment.downscale_max_dim, 128);
}

#[test]
fn default_values_match_expected() {
    let t = Timeouts::default();
    assert_eq!(t.navigation, TimeSpan::from_secs(30));
    assert_eq!(t.network_idle, TimeSpan::from_secs(10));
    assert_eq!(t.process, TimeSpan::from_secs(45));
    let p = PixelAlignmentConfig::default();
    assert!(!p.enabled);
    assert_eq!(p.max_shift, 16);
    assert_eq!(p.downscale_max_dim, 256);
    let o = ImageAlignmentOptions::default();
    assert!(!o.enabled);
    assert_eq!(o.max_shift, 16);
    assert_eq!(o.downscale_max_dim, 256);
    assert!(validate_limits(&t, &Viewport::default(), &p).is_ok());
}

#[test]
fn validate_rejects_zero_viewport_dimensions() {
    let r = validate_limits(
        &Timeouts::default(),
        &Viewport {
            width: 0,
            height: 0,
        },
        &PixelAlignmentConfig::default(),
    );
    assert_eq!(
        r.unwrap_err(),
        "viewport width and height must be greater than zero"
    );
}

#[test]
fn validate_checks_timeouts_then_alignment() {
    let mut t = Timeouts::default();
    t.process = TimeSpan::from_secs(0);
    assert_eq!(
        validate_limits(&t, &Viewport::default(), &PixelAlignmentConfig::default()).unwrap_err(),
        "timeouts must be greater than zero seconds"
    );
    let p = PixelAlignmentConfig {
        enabled: true,
        max_shift: 0,
        downscale_max_dim: 0,
    };
    assert_eq!(
        validate_limits(&Timeouts::default(), &Viewport::default(), &p).unwrap_err(),
        "pixel_alignment.max_shift must be greater than zero when enabled"
    );
    let p = PixelAlignmentConfig {
        enabled: true,
        max_shift: 4,
        downscale_max_dim: 0,
    };
    assert_eq!(
        validate_limits(&Timeouts::default(), &Viewport::default(), &p).unwrap_err(),
        "pixel_alignment.downscale_max_dim must be greater than zero when enabled"
    );
}

#[test]
fn defaults_fill_empty_settings() {
    let t = Timeouts {
        navigation: TimeSpan::from_secs(0),
        network_idle: TimeSpan::from_secs(5),
        process: TimeSpan::from_secs(0),
    }
    .with_defaults();
    assert_eq!(t.navigation, TimeSpan::from_secs(30));
    assert_eq!(t.network_idle, TimeSpan::from_secs(5));
    assert_eq!(t.process, TimeSpan::from_secs(45));
    let p = PixelAlignmentConfig {
        enabled: true,
        max_shift: 0,
        downscale_max_dim: 64,
    }
    .with_defaults();
    assert_eq!(p.max_shift, 16);
    assert_eq!(p.downscale_max_dim, 64);
    assert!(p.enabled);
}

#[test]
fn alignment_offsets_compare_by_value() {
    assert_eq!(AlignmentOffset { dx: 1, dy: -2 }, AlignmentOffset { dx: 1, dy: -2 });
    assert_ne!(AlignmentOffset { dx: 1, dy: -2 }, AlignmentOffset { dx: 0, dy: -2 });
}
