//! Settings of a comparison: time spans, timeouts, pixel alignment, and
//! merging the command line with the configuration file.
use vstd::prelude::*;

use crate::text::{chars_of, eq_chars, owned, push_str, starts_with, starts_with_chars};
use crate::viewport::Viewport;

verus! {

/// A span of time: whole seconds and the nanoseconds beyond them.
#[derive(Debug, Clone, Copy, PartialEq, Eq, Structural)]
pub struct TimeSpan {
    pub secs: u64,
    pub nanos: u32,
}

impl TimeSpan {
    /// A span of whole seconds.
    pub fn from_secs(secs: u64) -> (r: TimeSpan)
        ensures
            r.secs == secs,
            r.nanos == 0,
    {
        TimeSpan { secs, nanos: 0 }
    }

    /// The whole seconds of the span.
    pub fn as_secs(&self) -> (r: u64)
        ensures
            r == self.secs,
    {
        self.secs
    }

    /// The span is empty.
    pub fn is_zero(&self) -> (b: bool)
        ensures
            b == (self.secs == 0 && self.nanos == 0),
    {
        self.secs == 0 && self.nanos == 0
    }

    /// The whole milliseconds of the span.
    pub fn as_millis(&self) -> (r: u128)
        ensures
            r == self.secs * 1000 + self.nanos / 1_000_000,
    {
        (self.secs as u128) * 1000 + (self.nanos / 1_000_000) as u128
    }
}

/// Default timeout for page navigation, in seconds.
pub const DEFAULT_NAVIGATION_SECS: u64 = 30;

/// Default timeout for waiting for network idle, in seconds.
pub const DEFAULT_NETWORK_IDLE_SECS: u64 = 10;

/// Default timeout for the whole browser process, in seconds.
pub const DEFAULT_PROCESS_SECS: u64 = 45;

/// Timeouts of the browser session.
#[derive(Debug, Clone, Copy, PartialEq, Eq, Structural)]
pub struct Timeouts {
    pub navigation: TimeSpan,
    pub network_idle: TimeSpan,
    pub process: TimeSpan,
}

impl Default for Timeouts {
    fn default() -> (r: Timeouts)
        ensures
            r.navigation == (TimeSpan { secs: DEFAULT_NAVIGATION_SECS, nanos: 0 }),
            r.network_idle == (TimeSpan { secs: DEFAULT_NETWORK_IDLE_SECS, nanos: 0 }),
            r.process == (TimeSpan { secs: DEFAULT_PROCESS_SECS, nanos: 0 }),
    {
        Timeouts {
            navigation: TimeSpan::from_secs(DEFAULT_NAVIGATION_SECS),
            network_idle: TimeSpan::from_secs(DEFAULT_NETWORK_IDLE_SECS),
            process: TimeSpan::from_secs(DEFAULT_PROCESS_SECS),
        }
    }
}

pub open spec fn or_default(t: TimeSpan, d: u64) -> TimeSpan {
    if t.secs == 0 && t.nanos == 0 {
        TimeSpan { secs: d, nanos: 0 }
    } else {
        t
    }
}

impl Timeouts {
    /// The timeouts with every empty one replaced by its default.
    pub fn with_defaults(self) -> (r: Timeouts)
        ensures
            r.navigation == or_default(self.navigation, DEFAULT_NAVIGATION_SECS),
            r.network_idle == or_default(self.network_idle, DEFAULT_NETWORK_IDLE_SECS),
            r.process == or_default(self.process, DEFAULT_PROCESS_SECS),
    {
        Timeouts {
            navigation: if self.navigation.is_zero() {
                TimeSpan::from_secs(DEFAULT_NAVIGATION_SECS)
            } else {
                self.navigation
            },
            network_idle: if self.network_idle.is_zero() {
                TimeSpan::from_secs(DEFAULT_NETWORK_IDLE_SECS)
            } else {
                self.network_idle
            },
            process: if self.process.is_zero() {
                TimeSpan::from_secs(DEFAULT_PROCESS_SECS)
            } else {
                self.process
            },
        }
    }
}

/// Default largest shift tried when aligning screenshots, in pixels.
pub const DEFAULT_MAX_SHIFT: u32 = 16;

/// Default size to which screenshots are scaled down for alignment.
pub const DEFAULT_DOWNSCALE_MAX_DIM: u32 = 256;

/// Pixel alignment as configured.
#[derive(Debug, Clone, Copy, PartialEq, Eq, Structural)]
pub struct PixelAlignmentConfig {
    pub enabled: bool,
    pub max_shift: u32,
    pub downscale_max_dim: u32,
}

impl Default for PixelAlignmentConfig {
    fn default() -> (r: PixelAlignmentConfig)
        ensures
            !r.enabled,
            r.max_shift == DEFAULT_MAX_SHIFT,
            r.downscale_max_dim == DEFAULT_DOWNSCALE_MAX_DIM,
    {
        PixelAlignmentConfig {
            enabled: false,
            max_shift: DEFAULT_MAX_SHIFT,
            downscale_max_dim: DEFAULT_DOWNSCALE_MAX_DIM,
        }
    }
}

impl PixelAlignmentConfig {
    /// The configuration with every zero limit replaced by its default.
    pub fn with_defaults(self) -> (r: PixelAlignmentConfig)
        ensures
            r.enabled == self.enabled,
            r.max_shift == (if self.max_shift == 0 { DEFAULT_MAX_SHIFT } else { self.max_shift }),
            r.downscale_max_dim == (if self.downscale_max_dim == 0 {
                DEFAULT_DOWNSCALE_MAX_DIM
            } else {
                self.downscale_max_dim
            }),
    {
        PixelAlignmentConfig {
            enabled: self.enabled,
            max_shift: if self.max_shift == 0 {
                DEFAULT_MAX_SHIFT
            } else {
                self.max_shift
            },
            downscale_max_dim: if self.downscale_max_dim == 0 {
                DEFAULT_DOWNSCALE_MAX_DIM
            } else {
                self.downscale_max_dim
            },
        }
    }
}

/// Pixel alignment as applied to a comparison.
#[derive(Debug, Clone, Copy, PartialEq, Eq, Structural)]
pub struct ImageAlignmentOptions {
    pub enabled: bool,
    pub max_shift: u32,
    pub downscale_max_dim: u32,
}

impl Default for ImageAlignmentOptions {
    fn default() -> (r: ImageAlignmentOptions)
        ensures
            !r.enabled,
            r.max_shift == DEFAULT_MAX_SHIFT,
            r.downscale_max_dim == DEFAULT_DOWNSCALE_MAX_DIM,
    {
        ImageAlignmentOptions {
            enabled: false,
            max_shift: DEFAULT_MAX_SHIFT,
            downscale_max_dim: DEFAULT_DOWNSCALE_MAX_DIM,
        }
    }
}

/// The shift that aligns the implementation with the reference.
#[derive(Debug, Clone, Copy, PartialEq, Eq, Structural)]
pub struct AlignmentOffset {
    pub dx: i32,
    pub dy: i32,
}

/// The checks of a configuration beyond its threshold and weights, in
/// order: timeouts, viewport, then pixel alignment when it is enabled.
pub open spec fn limits_problem(
    timeouts: Timeouts,
    viewport: Viewport,
    alignment: PixelAlignmentConfig,
) -> Option<Seq<char>> {
    let zero = |t: TimeSpan| t.secs == 0 && t.nanos == 0;
    if zero(timeouts.navigation) || zero(timeouts.network_idle) || zero(timeouts.process) {
        Some("timeouts must be greater than zero seconds"@)
    } else if viewport.width == 0 || viewport.height == 0 {
        Some("viewport width and height must be greater than zero"@)
    } else if alignment.enabled && alignment.max_shift == 0 {
        Some("pixel_alignment.max_shift must be greater than zero when enabled"@)
    } else if alignment.enabled && alignment.downscale_max_dim == 0 {
        Some("pixel_alignment.downscale_max_dim must be greater than zero when enabled"@)
    } else {
        None
    }
}

/// Checks the timeouts, the viewport and the pixel alignment of a
/// configuration; the first problem found is the error.
pub fn validate_limits(
    timeouts: &Timeouts,
    viewport: &Viewport,
    alignment: &PixelAlignmentConfig,
) -> (r: Result<(), String>)
    ensures
        match limits_problem(*timeouts, *viewport, *alignment) {
            Some(m) => r matches Err(e) && e@ == m,
            None => r is Ok,
        },
{
    if timeouts.navigation.is_zero() || timeouts.network_idle.is_zero()
        || timeouts.process.is_zero() {
        return Err(owned("timeouts must be greater than zero seconds"));
    }
    if viewport.width == 0 || viewport.height == 0 {
        return Err(owned("viewport width and height must be greater than zero"));
    }
    if alignment.enabled && alignment.max_shift == 0 {
        return Err(owned("pixel_alignment.max_shift must be greater than zero when enabled"));
    }
    if alignment.enabled && alignment.downscale_max_dim == 0 {
        return Err(
            owned("pixel_alignment.downscale_max_dim must be greater than zero when enabled"),
        );
    }
    Ok(())
}

/// Once defaults are applied, no timeout is empty.
pub proof fn lemma_defaults_fill_timeouts(t: Timeouts)
    ensures
        !(or_default(t.navigation, DEFAULT_NAVIGATION_SECS).secs == 0 && or_default(
            t.navigation,
            DEFAULT_NAVIGATION_SECS,
        ).nanos == 0),
        !(or_default(t.network_idle, DEFAULT_NETWORK_IDLE_SECS).secs == 0 && or_default(
            t.network_idle,
            DEFAULT_NETWORK_IDLE_SECS,
        ).nanos == 0),
        !(or_default(t.process, DEFAULT_PROCESS_SECS).secs == 0 && or_default(
            t.process,
            DEFAULT_PROCESS_SECS,
        ).nanos == 0),
{
}

/// The default timeouts, viewport and pixel alignment pass the checks; so
/// does any configuration whose timeouts had their defaults applied, whose
/// viewport is not empty and whose alignment had its defaults applied.
pub proof fn lemma_defaults_are_valid(t: Timeouts, v: Viewport, p: PixelAlignmentConfig)
    requires
        v.width > 0,
        v.height > 0,
    ensures
        limits_problem(
            Timeouts {
                navigation: or_default(t.navigation, DEFAULT_NAVIGATION_SECS),
                network_idle: or_default(t.network_idle, DEFAULT_NETWORK_IDLE_SECS),
                process: or_default(t.process, DEFAULT_PROCESS_SECS),
            },
            v,
            PixelAlignmentConfig {
                enabled: p.enabled,
                max_shift: if p.max_shift == 0 { DEFAULT_MAX_SHIFT } else { p.max_shift },
                downscale_max_dim: if p.downscale_max_dim == 0 {
                    DEFAULT_DOWNSCALE_MAX_DIM
                } else {
                    p.downscale_max_dim
                },
            },
        ) is None,
{
}

// ---------------------------------------------------------------------------
// Command line against configuration
// ---------------------------------------------------------------------------

/// The argument is the flag, or the flag with a value after `=`.
pub open spec fn is_flag_arg(arg: Seq<char>, flag: Seq<char>) -> bool {
    arg == flag || starts_with(arg, flag + "="@)
}

/// The flag was given on the command line.
pub open spec fn flag_given(args: Seq<String>, flag: Seq<char>) -> bool {
    exists|k: int| 0 <= k < args.len() && is_flag_arg(#[trigger] args[k]@, flag)
}

/// Whether a flag was given, alone or with `=value`.
pub fn flag_present(args: &Vec<String>, flag: &str) -> (b: bool)
    ensures
        b == flag_given(args@, flag@),
{
    let f = chars_of(flag);
    let mut fe: Vec<char> = Vec::new();
    push_str(&mut fe, flag);
    push_str(&mut fe, "=");
    for k in 0..args.len()
        invariant
            f@ == flag@,
            fe@ == flag@ + "="@,
            forall|q: int| 0 <= q < k ==> !is_flag_arg(#[trigger] args@[q]@, flag@),
    {
        let a = chars_of(args[k].as_str());
        if eq_chars(a.as_slice(), f.as_slice()) || starts_with_chars(a.as_slice(), fe.as_slice()) {
            return true;
        }
    }
    false
}

/// Which settings were given on the command line rather than left to
/// their defaults.
#[derive(Debug, Clone, Copy, PartialEq, Eq, Structural)]
pub struct CompareFlagSources {
    pub viewport: bool,
    pub threshold: bool,
    pub nav_timeout: bool,
    pub network_idle_timeout: bool,
    pub process_timeout: bool,
}

impl Default for CompareFlagSources {
    fn default() -> (r: CompareFlagSources)
        ensures
            !r.viewport && !r.threshold && !r.nav_timeout && !r.network_idle_timeout
                && !r.process_timeout,
    {
        CompareFlagSources {
            viewport: false,
            threshold: false,
            nav_timeout: false,
            network_idle_timeout: false,
            process_timeout: false,
        }
    }
}

impl CompareFlagSources {
    /// Which settings the arguments give.
    pub fn from_args(args: &Vec<String>) -> (r: CompareFlagSources)
        ensures
            r.viewport == flag_given(args@, "--viewport"@),
            r.threshold == flag_given(args@, "--threshold"@),
            r.nav_timeout == flag_given(args@, "--nav-timeout"@),
            r.network_idle_timeout == flag_given(args@, "--network-idle-timeout"@),
            r.process_timeout == flag_given(args@, "--process-timeout"@),
    {
        CompareFlagSources {
            viewport: flag_present(args, "--viewport"),
            threshold: flag_present(args, "--threshold"),
            nav_timeout: flag_present(args, "--nav-timeout"),
            network_idle_timeout: flag_present(args, "--network-idle-timeout"),
            process_timeout: flag_present(args, "--process-timeout"),
        }
    }
}

/// The integral settings of a comparison once the command line and the
/// configuration are merged.
#[derive(Debug, Clone, Copy, PartialEq, Eq, Structural)]
pub struct ResolvedLimits {
    pub viewport: Viewport,
    pub nav_timeout: u64,
    pub network_idle_timeout: u64,
    pub process_timeout: u64,
    pub pixel_alignment: ImageAlignmentOptions,
}

/// What the command line gave for the integral settings.
#[derive(Debug, Clone, Copy)]
pub struct CliLimits {
    pub viewport: Viewport,
    pub nav_timeout: u64,
    pub network_idle_timeout: u64,
    pub process_timeout: u64,
    pub pixel_align: Option<bool>,
    pub pixel_align_max_shift: Option<u32>,
    pub pixel_align_downscale: Option<u32>,
}

pub open spec fn opt_or<T>(o: Option<T>, d: T) -> T {
    match o {
        Some(v) => v,
        None => d,
    }
}

/// Merges the command line with the configuration: a setting given on the
/// command line wins, others come from the configuration (timeouts in whole
/// seconds); each pixel alignment setting comes from the command line when
/// it is there.
pub fn resolve_limits(
    cli: &CliLimits,
    viewport: Viewport,
    timeouts: &Timeouts,
    alignment: &PixelAlignmentConfig,
    flags: &CompareFlagSources,
) -> (r: ResolvedLimits)
    ensures
        r.viewport == (if flags.viewport { cli.viewport } else { viewport }),
        r.nav_timeout == (if flags.nav_timeout { cli.nav_timeout } else { timeouts.navigation.secs }),
        r.network_idle_timeout == (if flags.network_idle_timeout {
            cli.network_idle_timeout
        } else {
            timeouts.network_idle.secs
        }),
        r.process_timeout == (if flags.process_timeout {
            cli.process_timeout
        } else {
            timeouts.process.secs
        }),
        r.pixel_alignment.enabled == opt_or(cli.pixel_align, alignment.enabled),
        r.pixel_alignment.max_shift == opt_or(cli.pixel_align_max_shift, alignment.max_shift),
        r.pixel_alignment.downscale_max_dim == opt_or(
            cli.pixel_align_downscale,
            alignment.downscale_max_dim,
        ),
{
    let enabled = match cli.pixel_align {
        Some(v) => v,
        None => alignment.enabled,
    };
    let max_shift = match cli.pixel_align_max_shift {
        Some(v) => v,
        None => alignment.max_shift,
    };
    let downscale = match cli.pixel_align_downscale {
        Some(v) => v,
        None => alignment.downscale_max_dim,
    };
    ResolvedLimits {
        viewport: if flags.viewport {
            cli.viewport
        } else {
            viewport
        },
        nav_timeout: if flags.nav_timeout {
            cli.nav_timeout
        } else {
            timeouts.navigation.as_secs()
        },
        network_idle_timeout: if flags.network_idle_timeout {
            cli.network_idle_timeout
        } else {
            timeouts.network_idle.as_secs()
        },
        process_timeout: if flags.process_timeout {
            cli.process_timeout
        } else {
            timeouts.process.as_secs()
        },
        pixel_alignment: ImageAlignmentOptions {
            enabled,
            max_shift,
            downscale_max_dim: downscale,
        },
    }
}

} // verus!
