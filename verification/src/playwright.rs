//! The headless browser helper: how it is invoked, and what its failures
//! are reported as.
use vstd::prelude::*;

use crate::error::DpcError;
use crate::text::{
    ascii_lowercase, chars_of, contains, contains_chars, decimal, eq_chars, lower_seq, owned,
    push_decimal, push_str, string_from_chars, trim, trim_chars,
};
use crate::viewport::Viewport;

verus! {

/// The failure the helper script reports as JSON: its status and message.
#[derive(Debug, Clone)]
pub struct ScriptError {
    pub status: String,
    pub message: String,
}

pub open spec fn missing_module_text() -> Seq<char> {
    "Playwright npm package is missing; install with `npm install playwright`."@
}

pub open spec fn plain_timeout_text() -> Seq<char> {
    "Playwright timed out; try increasing --nav-timeout/--network-idle-timeout or --process-timeout, and ensure the page finishes loading."@
}

/// The message of a failure status reported by the script.
pub open spec fn status_error_text(status: Seq<char>, message: Seq<char>) -> Seq<char> {
    let l = lower_seq(message);
    if contains(l, "cannot find module 'playwright'"@) {
        missing_module_text()
    } else if contains(l, "timeout"@) {
        "Playwright error (status "@ + status + "): "@ + message
            + ". Hint: increase --nav-timeout/--network-idle-timeout or --process-timeout, and ensure the page finishes loading."@
    } else {
        "Playwright error (status "@ + status + "): "@ + message
    }
}

/// The message of a failed run of the script, from its exit status, its
/// standard error, and the failure that standard error reports as JSON
/// when it does.
pub open spec fn exit_error_text(
    status_text: Seq<char>,
    stderr: Seq<char>,
    reported: Option<(Seq<char>, Seq<char>)>,
) -> Seq<char> {
    match reported {
        Some((status, message)) => status_error_text(status, message),
        None => {
            let l = lower_seq(stderr);
            if contains(l, "cannot find module 'playwright'"@) {
                missing_module_text()
            } else if contains(l, "timeout"@) {
                plain_timeout_text()
            } else {
                "Playwright exited with status "@ + status_text + ": "@ + trim(stderr)
            }
        },
    }
}

fn lowered(s: &str) -> (r: Vec<char>)
    ensures
        r@ == lower_seq(s@),
{
    let cs = chars_of(s);
    ascii_lowercase(cs.as_slice())
}

fn mentions(l: &Vec<char>, p: &str) -> (b: bool)
    ensures
        b == contains(l@, p@),
{
    let cs = chars_of(p);
    contains_chars(l.as_slice(), cs.as_slice())
}

/// The error for a failure status reported by the script: a missing
/// Playwright package, a timeout (with a hint on the timeout flags), or the
/// status and message as they are.
pub fn map_playwright_status_error(status: &str, message: String) -> (r: DpcError)
    ensures
        r matches DpcError::Config(m) && m@ == status_error_text(status@, message@),
{
    let l = lowered(message.as_str());
    if mentions(&l, "cannot find module 'playwright'") {
        return DpcError::Config(
            owned("Playwright npm package is missing; install with `npm install playwright`."),
        );
    }
    let mut v: Vec<char> = Vec::new();
    push_str(&mut v, "Playwright error (status ");
    push_str(&mut v, status);
    push_str(&mut v, "): ");
    push_str(&mut v, message.as_str());
    if mentions(&l, "timeout") {
        push_str(
            &mut v,
            ". Hint: increase --nav-timeout/--network-idle-timeout or --process-timeout, and ensure the page finishes loading.",
        );
    }
    proof {
        assert(v@ =~= status_error_text(status@, message@));
    }
    DpcError::Config(string_from_chars(v.as_slice()))
}

pub open spec fn reported_view(e: Option<ScriptError>) -> Option<(Seq<char>, Seq<char>)> {
    match e {
        Some(s) => Some((s.status@, s.message@)),
        None => None,
    }
}

/// The error for a failed run of the script. `reported` is the failure
/// read from standard error as JSON, when it reads as one.
pub fn map_playwright_error(status_text: &str, stderr: &str, reported: Option<ScriptError>) -> (r:
    DpcError)
    ensures
        r matches DpcError::Config(m) && m@ == exit_error_text(
            status_text@,
            stderr@,
            reported_view(reported),
        ),
{
    match reported {
        Some(e) => {
            return map_playwright_status_error(e.status.as_str(), e.message);
        },
        None => {},
    }
    let l = lowered(stderr);
    if mentions(&l, "cannot find module 'playwright'") {
        return DpcError::Config(
            owned("Playwright npm package is missing; install with `npm install playwright`."),
        );
    }
    if mentions(&l, "timeout") {
        return DpcError::Config(
            owned(
                "Playwright timed out; try increasing --nav-timeout/--network-idle-timeout or --process-timeout, and ensure the page finishes loading.",
            ),
        );
    }
    let cs = chars_of(stderr);
    let t = trim_chars(cs.as_slice());
    let mut v: Vec<char> = Vec::new();
    push_str(&mut v, "Playwright exited with status ");
    push_str(&mut v, status_text);
    push_str(&mut v, ": ");
    crate::text::push_all(&mut v, t.as_slice());
    proof {
        assert(v@ =~= exit_error_text(status_text@, stderr@, reported_view(reported)));
    }
    DpcError::Config(string_from_chars(v.as_slice()))
}

/// The error for a helper that could not be started: a command that is
/// not found is a configuration error naming it; any other failure is an
/// I/O error with its message.
pub fn map_spawn_error(not_found: bool, io_message: String, command: &str) -> (r: DpcError)
    ensures
        not_found ==> (r matches DpcError::Config(m) && m@
            == "Unable to spawn Playwright helper; '"@ + command@ + "' was not found on PATH"@),
        !not_found ==> r == DpcError::Io(io_message),
{
    if not_found {
        let mut v: Vec<char> = Vec::new();
        push_str(&mut v, "Unable to spawn Playwright helper; '");
        push_str(&mut v, command);
        push_str(&mut v, "' was not found on PATH");
        proof {
            assert(v@ =~= "Unable to spawn Playwright helper; '"@ + command@ + "' was not found on PATH"@);
        }
        DpcError::Config(string_from_chars(v.as_slice()))
    } else {
        DpcError::Io(io_message)
    }
}

fn decimal_string(n: u64) -> (r: String)
    ensures
        r@ == decimal(n as nat),
{
    let mut v: Vec<char> = Vec::new();
    push_decimal(&mut v, n);
    proof {
        assert(v@ =~= decimal(n as nat));
    }
    string_from_chars(v.as_slice())
}

/// The arguments of the helper process: the script, then the URL, the
/// viewport, the two timeouts in milliseconds, the screenshot path, and
/// whether to run headless (`1`) or not (`0`).
pub fn script_args(
    script: &str,
    url: &str,
    viewport: Viewport,
    navigation_ms: u64,
    network_idle_ms: u64,
    screenshot_path: &str,
    headless: bool,
) -> (r: Vec<String>)
    ensures
        r@.len() == 9,
        r@[0]@ == "-e"@,
        r@[1]@ == script@,
        r@[2]@ == url@,
        r@[3]@ == decimal(viewport.width as nat),
        r@[4]@ == decimal(viewport.height as nat),
        r@[5]@ == decimal(navigation_ms as nat),
        r@[6]@ == decimal(network_idle_ms as nat),
        r@[7]@ == screenshot_path@,
        r@[8]@ == (if headless { "1"@ } else { "0"@ }),
{
    let mut r: Vec<String> = Vec::new();
    r.push(owned("-e"));
    r.push(owned(script));
    r.push(owned(url));
    r.push(decimal_string(viewport.width as u64));
    r.push(decimal_string(viewport.height as u64));
    r.push(decimal_string(navigation_ms));
    r.push(decimal_string(network_idle_ms));
    r.push(owned(screenshot_path));
    r.push(
        if headless {
            owned("1")
        } else {
            owned("0")
        },
    );
    r
}

/// The progress line printed when the browser is launched.
pub fn launch_message(url: &str, viewport: Viewport, navigation_secs: u64, idle_secs: u64) -> (r:
    String)
    ensures
        r@ == "Launching headless browser for "@ + url@ + " ("@ + decimal(viewport.width as nat)
            + "x"@ + decimal(viewport.height as nat) + ", nav "@ + decimal(navigation_secs as nat)
            + "s, idle "@ + decimal(idle_secs as nat) + "s)\u{2026}"@,
{
    let mut v: Vec<char> = Vec::new();
    push_str(&mut v, "Launching headless browser for ");
    push_str(&mut v, url);
    push_str(&mut v, " (");
    push_decimal(&mut v, viewport.width as u64);
    push_str(&mut v, "x");
    push_decimal(&mut v, viewport.height as u64);
    push_str(&mut v, ", nav ");
    push_decimal(&mut v, navigation_secs);
    push_str(&mut v, "s, idle ");
    push_decimal(&mut v, idle_secs);
    push_str(&mut v, "s)\u{2026}");
    proof {
        assert(v@ =~= "Launching headless browser for "@ + url@ + " ("@ + decimal(
            viewport.width as nat,
        ) + "x"@ + decimal(viewport.height as nat) + ", nav "@ + decimal(navigation_secs as nat)
            + "s, idle "@ + decimal(idle_secs as nat) + "s)\u{2026}"@);
    }
    string_from_chars(v.as_slice())
}

/// What a finished run of the script means: `ok` with a DOM is success;
/// `ok` without one is an error; another status is the failure the output
/// reports as JSON, or else an error naming the status.
pub fn check_script_result(status: &str, has_dom: bool, reported: Option<ScriptError>) -> (r:
    Result<(), DpcError>)
    ensures
        status@ == "ok"@ && has_dom ==> r is Ok,
        status@ == "ok"@ && !has_dom ==> (r matches Err(DpcError::Config(m)) && m@
            == "Playwright returned ok status but no DOM data"@),
        status@ != "ok"@ ==> match reported {
            Some(e) => r matches Err(DpcError::Config(m)) && m@ == status_error_text(
                e.status@,
                e.message@,
            ),
            None => r matches Err(DpcError::Config(m)) && m@
                == "Playwright returned non-ok status: "@ + status@,
        },
{
    let cs = chars_of(status);
    let ok = chars_of("ok");
    if !eq_chars(cs.as_slice(), ok.as_slice()) {
        match reported {
            Some(e) => {
                return Err(map_playwright_status_error(e.status.as_str(), e.message));
            },
            None => {
                let mut v: Vec<char> = Vec::new();
                push_str(&mut v, "Playwright returned non-ok status: ");
                push_str(&mut v, status);
                return Err(DpcError::Config(string_from_chars(v.as_slice())));
            },
        }
    }
    if !has_dom {
        return Err(DpcError::Config(owned("Playwright returned ok status but no DOM data")));
    }
    Ok(())
}

/// What the output of a screenshot-only run means: output that does not
/// read as the script's JSON is an error quoting it; a status other than
/// `ok` is an error with the message, or a note that there is none.
pub fn check_render_status(parsed: Option<(String, Option<String>)>, stdout: &str) -> (r: Result<
    (),
    DpcError,
>)
    ensures
        parsed is None ==> (r matches Err(DpcError::Config(m)) && m@ == "Unexpected Playwright output: "@
            + trim(stdout@)),
        parsed matches Some((status, message)) ==> if status@ == "ok"@ {
            r is Ok
        } else {
            r matches Err(DpcError::Config(m)) && m@ == "Playwright returned non-ok status "@ + status@
                + ": "@ + match message {
                Some(t) => t@,
                None => "no additional details"@,
            }
        },
{
    match parsed {
        None => {
            let cs = chars_of(stdout);
            let t = trim_chars(cs.as_slice());
            let mut v: Vec<char> = Vec::new();
            push_str(&mut v, "Unexpected Playwright output: ");
            crate::text::push_all(&mut v, t.as_slice());
            Err(DpcError::Config(string_from_chars(v.as_slice())))
        },
        Some((status, message)) => {
            let cs = chars_of(status.as_str());
            let ok = chars_of("ok");
            if eq_chars(cs.as_slice(), ok.as_slice()) {
                return Ok(());
            }
            let mut v: Vec<char> = Vec::new();
            push_str(&mut v, "Playwright returned non-ok status ");
            push_str(&mut v, status.as_str());
            push_str(&mut v, ": ");
            match message {
                Some(m) => push_str(&mut v, m.as_str()),
                None => push_str(&mut v, "no additional details"),
            }
            Err(DpcError::Config(string_from_chars(v.as_slice())))
        },
    }
}

} // verus!
