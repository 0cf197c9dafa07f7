use dpc_lib::browser::{session_permits_for, BrowserManager, BrowserOptions, UrlToViewOptions};
use dpc_lib::settings::{
    TimeSpan, DEFAULT_NAVIGATION_SECS, DEFAULT_NETWORK_IDLE_SECS, DEFAULT_PROCESS_SECS,
};
use dpc_lib::viewport::Viewport;

fn default_navigation() -> TimeSpan {
    TimeSpan::from_secs(DEFAULT_NAVIGATION_SECS)
}

fn default_network_idle() -> TimeSpan {
    TimeSpan::from_secs(DEFAULT_NETWORK_IDLE_SECS)
}

fn default_process() -> TimeSpan {
    TimeSpan::from_secs(DEFAULT_PROCESS_SECS)
}

fn check_browser_defaults() {
    let opts = BrowserOptions::default();
    assert_eq!(opts.node_command, "node");
    assert!(opts.headless);
    assert_eq!(opts.max_concurrent_sessions, 1);
    assert_eq!(opts.viewport.width, 1440);
    assert_eq!(opts.viewport.height, 900);
    assert_eq!(opts.navigation_timeout, default_navigation());
    assert_eq!(opts.network_idle_timeout, default_network_idle());
    assert_eq!(opts.process_timeout, default_process());
}

#[test]
fn browser_browser_options_default_values() {
    check_browser_defaults();
}

#[test]
fn manager_browser_options_default_values() {
    check_browser_defaults();
}

fn check_semaphore() {
    let manager = BrowserManager::new(BrowserOptions {
        max_concurrent_sessions: 0,
        ..BrowserOptions::default()
    });

    assert_eq!(manager.available_permits(), 1);
    assert_eq!(manager.max_sessions(), 1);
}

#[test]
fn browser_semaphore_never_zero() {
    check_semaphore();
}

#[test]
fn manager_semaphore_never_zero() {
    check_semaphore();
}

#[test]
fn manager_keeps_the_configured_session_limit() {
    let manager = BrowserManager::new(BrowserOptions {
        max_concurrent_sessions: 3,
        ..BrowserOptions::default()
    });
    assert_eq!(manager.available_permits(), 3);
    assert_eq!(manager.session_options().max_concurrent_sessions, 3);
    assert_eq!(session_permits_for(0), 1);
    assert_eq!(session_permits_for(7), 7);
}

fn check_view_defaults() {
    let opts = UrlToViewOptions::default();
    assert_eq!(opts.node_command, "node");
    assert!(opts.headless);
    assert_eq!(opts.viewport.width, 1440);
    assert_eq!(opts.viewport.height, 900);
    assert_eq!(opts.navigation_timeout, default_navigation());
    assert_eq!(opts.network_idle_timeout, default_network_idle());
    assert_eq!(opts.process_timeout, default_process());
    assert!(opts.progress.is_none());
}

#[test]
fn browser_url_to_view_options_default_values() {
    check_view_defaults();
}

#[test]
fn manager_url_to_view_options_default_values() {
    check_view_defaults();
}

fn check_from_browser_options() {
    let browser_opts = BrowserOptions {
        node_command: "custom-node".to_string(),
        viewport: Viewport {
            width: 1920,
            height: 1080,
        },
        headless: false,
        navigation_timeout: TimeSpan::from_secs(30),
        network_idle_timeout: TimeSpan::from_secs(10),
        process_timeout: TimeSpan::from_secs(60),
        max_concurrent_sessions: 4,
    };

    let view_opts: UrlToViewOptions = browser_opts.into();
    assert_eq!(view_opts.node_command, "custom-node");
    assert!(!view_opts.headless);
    assert_eq!(view_opts.viewport.width, 1920);
    assert_eq!(view_opts.viewport.height, 1080);
    assert_eq!(view_opts.navigation_timeout, TimeSpan::from_secs(30));
    assert_eq!(view_opts.network_idle_timeout, TimeSpan::from_secs(10));
    assert_eq!(view_opts.process_timeout, TimeSpan::from_secs(60));
    assert!(view_opts.progress.is_none());
}

#[test]
fn browser_url_to_view_options_from_browser_options() {
    check_from_browser_options();
}

#[test]
fn manager_url_to_view_options_from_browser_options() {
    check_from_browser_options();
}

#[test]
fn time_span_reports_seconds_and_millis() {
    let t = TimeSpan {
        secs: 2,
        nanos: 345_000_000,
    };
    assert_eq!(t.as_secs(), 2);
    assert_eq!(t.as_millis(), 2345);
    assert!(!t.is_zero());
    assert!(TimeSpan::from_secs(0).is_zero());
}
