//! Options of the headless browser sessions, and the manager that limits
//! how many run at once.
use vstd::prelude::*;

use std::sync::Arc;

use crate::settings::{
    TimeSpan, DEFAULT_NAVIGATION_SECS, DEFAULT_NETWORK_IDLE_SECS, DEFAULT_PROCESS_SECS,
};
use crate::text::owned;
use crate::viewport::Viewport;

verus! {

/// Options of a browser session.
#[derive(Debug, Clone)]
pub struct BrowserOptions {
    /// The Node.js command.
    pub node_command: String,
    pub viewport: Viewport,
    pub headless: bool,
    pub navigation_timeout: TimeSpan,
    pub network_idle_timeout: TimeSpan,
    pub process_timeout: TimeSpan,
    /// How many sessions may run at once.
    pub max_concurrent_sessions: usize,
}

impl Default for BrowserOptions {
    fn default() -> (r: BrowserOptions)
        ensures
            r.node_command@ == "node"@,
            r.viewport == (Viewport { width: 1440, height: 900 }),
            r.headless,
            r.navigation_timeout == (TimeSpan { secs: DEFAULT_NAVIGATION_SECS, nanos: 0 }),
            r.network_idle_timeout == (TimeSpan { secs: DEFAULT_NETWORK_IDLE_SECS, nanos: 0 }),
            r.process_timeout == (TimeSpan { secs: DEFAULT_PROCESS_SECS, nanos: 0 }),
            r.max_concurrent_sessions == 1,
    {
        BrowserOptions {
            node_command: owned("node"),
            viewport: Viewport::default_viewport(),
            headless: true,
            navigation_timeout: TimeSpan::from_secs(DEFAULT_NAVIGATION_SECS),
            network_idle_timeout: TimeSpan::from_secs(DEFAULT_NETWORK_IDLE_SECS),
            process_timeout: TimeSpan::from_secs(DEFAULT_PROCESS_SECS),
            max_concurrent_sessions: 1,
        }
    }
}

/// Receives progress messages while a page is captured.
pub trait ProgressSink {
    fn report(&self, message: &str);
}

/// Options of the conversion of a URL into a view, with an optional
/// callback that receives progress messages.
#[derive(Clone)]
pub struct UrlToViewOptions {
    pub node_command: String,
    pub viewport: Viewport,
    pub headless: bool,
    pub navigation_timeout: TimeSpan,
    pub network_idle_timeout: TimeSpan,
    pub process_timeout: TimeSpan,
    pub progress: Option<Arc<dyn ProgressSink>>,
}

impl Default for UrlToViewOptions {
    fn default() -> (r: UrlToViewOptions)
        ensures
            r.node_command@ == "node"@,
            r.viewport == (Viewport { width: 1440, height: 900 }),
            r.headless,
            r.navigation_timeout == (TimeSpan { secs: DEFAULT_NAVIGATION_SECS, nanos: 0 }),
            r.network_idle_timeout == (TimeSpan { secs: DEFAULT_NETWORK_IDLE_SECS, nanos: 0 }),
            r.process_timeout == (TimeSpan { secs: DEFAULT_PROCESS_SECS, nanos: 0 }),
            r.progress is None,
    {
        UrlToViewOptions {
            node_command: owned("node"),
            viewport: Viewport::default_viewport(),
            headless: true,
            navigation_timeout: TimeSpan::from_secs(DEFAULT_NAVIGATION_SECS),
            network_idle_timeout: TimeSpan::from_secs(DEFAULT_NETWORK_IDLE_SECS),
            process_timeout: TimeSpan::from_secs(DEFAULT_PROCESS_SECS),
            progress: None,
        }
    }
}

impl From<BrowserOptions> for UrlToViewOptions {
    fn from(opts: BrowserOptions) -> (r: UrlToViewOptions) {
        UrlToViewOptions {
            node_command: opts.node_command,
            viewport: opts.viewport,
            headless: opts.headless,
            navigation_timeout: opts.navigation_timeout,
            network_idle_timeout: opts.network_idle_timeout,
            process_timeout: opts.process_timeout,
            progress: None,
        }
    }
}

impl vstd::std_specs::convert::FromSpecImpl<BrowserOptions> for UrlToViewOptions {
    open spec fn obeys_from_spec() -> bool {
        true
    }

    open spec fn from_spec(opts: BrowserOptions) -> UrlToViewOptions {
        UrlToViewOptions {
            node_command: opts.node_command,
            viewport: opts.viewport,
            headless: opts.headless,
            navigation_timeout: opts.navigation_timeout,
            network_idle_timeout: opts.network_idle_timeout,
            process_timeout: opts.process_timeout,
            progress: None,
        }
    }
}

/// Hands a progress message to the callback, when there is one.
pub fn log_progress(progress: &Option<Arc<dyn ProgressSink>>, message: &str) {
    if let Some(sink) = progress {
        sink.report(message);
    }
}

/// The result of rendering a page: where its screenshot was saved, the
/// viewport it was rendered in, and how long it took.
#[derive(Debug, Clone)]
pub struct PageRenderResult {
    pub screenshot_path: Option<String>,
    pub viewport: Viewport,
    pub elapsed: TimeSpan,
}

#[verifier::external_type_specification]
#[verifier::external_body]
pub struct ExSemaphore(tokio::sync::Semaphore);

/// The number of permits a semaphore was made with.
pub uninterp spec fn initial_permits(s: tokio::sync::Semaphore) -> usize;

/// `tokio::sync::Semaphore::new`, which panics above `MAX_PERMITS`
/// (`usize::MAX >> 3`). Claimed, as its documentation says: the semaphore
/// starts with exactly the permits it is given. How many are free later
/// changes as permits are taken and given back, and is not claimed.
#[verifier::external_body]
fn new_semaphore(permits: usize) -> (r: tokio::sync::Semaphore)
    requires
        permits <= usize::MAX / 8,
    ensures
        initial_permits(r) == permits,
{
    tokio::sync::Semaphore::new(permits)
}

/// `tokio::sync::Semaphore::available_permits`. It changes as permits are
/// taken and given back, so nothing is claimed of it.
#[verifier::external_body]
fn semaphore_permits(s: &tokio::sync::Semaphore) -> (r: usize) {
    s.available_permits()
}

/// How many sessions may run at once: the configured number, at least one.
pub open spec fn session_permits(max_concurrent_sessions: usize) -> usize {
    if max_concurrent_sessions == 0 {
        1
    } else {
        max_concurrent_sessions
    }
}

/// How many sessions may run at once for a configured limit.
pub fn session_permits_for(max_concurrent_sessions: usize) -> (r: usize)
    ensures
        r == session_permits(max_concurrent_sessions),
        r >= 1,
{
    if max_concurrent_sessions == 0 {
        1
    } else {
        max_concurrent_sessions
    }
}

/// Runs browser sessions with a limit on how many run at once.
#[derive(Debug, Clone)]
pub struct BrowserManager {
    options: BrowserOptions,
    permits: usize,
    semaphore: Arc<tokio::sync::Semaphore>,
}

impl BrowserManager {
    /// A manager with the given options; it lets at least one session run.
    pub fn new(options: BrowserOptions) -> (r: BrowserManager)
        requires
            options.max_concurrent_sessions <= usize::MAX / 8,
        ensures
            r.permits() == session_permits(options.max_concurrent_sessions),
            initial_permits(*r.session_semaphore()) == session_permits(
                options.max_concurrent_sessions,
            ),
            r.options().node_command@ == options.node_command@,
            r.options().viewport == options.viewport,
            r.options().headless == options.headless,
            r.options().navigation_timeout == options.navigation_timeout,
            r.options().network_idle_timeout == options.network_idle_timeout,
            r.options().process_timeout == options.process_timeout,
            r.options().max_concurrent_sessions == options.max_concurrent_sessions,
    {
        let permits = session_permits_for(options.max_concurrent_sessions);
        let semaphore = Arc::new(new_semaphore(permits));
        BrowserManager { options, permits, semaphore }
    }

    pub closed spec fn permits(&self) -> usize {
        self.permits
    }

    pub closed spec fn options(&self) -> BrowserOptions {
        self.options
    }

    /// The options of the sessions.
    pub fn session_options(&self) -> (r: &BrowserOptions)
        ensures
            *r == self.options(),
    {
        &self.options
    }

    /// How many sessions the manager lets run at once.
    pub fn max_sessions(&self) -> (r: usize)
        ensures
            r == self.permits(),
    {
        self.permits
    }

    /// The semaphore that the manager made for its session permits.
    pub closed spec fn session_semaphore(&self) -> Arc<tokio::sync::Semaphore> {
        self.semaphore
    }

    /// The semaphore that holds the session permits: the manager's own,
    /// the same one at every call.
    pub fn semaphore(&self) -> (r: &Arc<tokio::sync::Semaphore>)
        ensures
            *r == self.session_semaphore(),
    {
        &self.semaphore
    }

    /// How many session permits are free now.
    pub fn available_permits(&self) -> usize {
        semaphore_permits(&self.semaphore)
    }
}

} // verus!
