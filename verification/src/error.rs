//! Errors, and the payload with a remediation hint that is reported for each.
use vstd::prelude::*;

use crate::text::{
    ascii_lowercase, chars_of, contains, contains_chars, decimal, lower_seq, owned, push_decimal,
    push_str, string_from_chars,
};

verus! {

/// Everything that can go wrong. Errors raised by outside libraries (I/O,
/// HTTP, URL parsing, image decoding, JSON) are carried as their message.
#[derive(Debug)]
pub enum DpcError {
    Io(String),
    Network(String),
    InvalidUrl(String),
    FigmaApi { status: Option<u16>, message: String },
    Image(String),
    Serialization(String),
    Metric(String),
    Config(String),
    Unknown(String),
}

/// The class of an error, as reported to users.
#[derive(Debug, Clone, Copy, PartialEq, Eq, Structural)]
pub enum ErrorCategory {
    Config,
    Network,
    Figma,
    Image,
    Metric,
    Unknown,
}

/// An error as reported: its class, its message and a hint on what to do.
#[derive(Debug)]
pub struct ErrorPayload {
    pub category: ErrorCategory,
    pub message: String,
    pub remediation: Option<String>,
}

impl ErrorPayload {
    pub fn new(category: ErrorCategory, message: String, remediation: &str) -> (r: ErrorPayload)
        ensures
            r.category == category,
            r.message == message,
            r.remediation matches Some(h) && h@ == remediation@,
    {
        ErrorPayload { category, message, remediation: Some(owned(remediation)) }
    }
}

/// `{:?}` of an optional HTTP status: `Some(<code>)` or `None`.
pub open spec fn status_debug(status: Option<u16>) -> Seq<char> {
    match status {
        Some(code) => "Some("@ + decimal(code as nat) + ")"@,
        None => "None"@,
    }
}

pub open spec fn error_category(e: DpcError) -> ErrorCategory {
    match e {
        DpcError::Io(_) => ErrorCategory::Config,
        DpcError::Network(_) => ErrorCategory::Network,
        DpcError::InvalidUrl(_) => ErrorCategory::Config,
        DpcError::FigmaApi { .. } => ErrorCategory::Figma,
        DpcError::Image(_) => ErrorCategory::Image,
        DpcError::Serialization(_) => ErrorCategory::Config,
        DpcError::Metric(_) => ErrorCategory::Metric,
        DpcError::Config(_) => ErrorCategory::Config,
        DpcError::Unknown(_) => ErrorCategory::Unknown,
    }
}

/// The message of the payload of an error.
pub open spec fn payload_message(e: DpcError) -> Seq<char> {
    match e {
        DpcError::FigmaApi { status, message } => "Figma API error (status "@ + status_debug(
            status,
        ) + "): "@ + message@,
        DpcError::Io(m) => m@,
        DpcError::Network(m) => m@,
        DpcError::InvalidUrl(m) => m@,
        DpcError::Image(m) => m@,
        DpcError::Serialization(m) => m@,
        DpcError::Metric(m) => m@,
        DpcError::Config(m) => m@,
        DpcError::Unknown(m) => m@,
    }
}

/// The hint for a configuration error, chosen by what its message mentions
/// (ignoring ASCII case); the first matching rule wins.
pub open spec fn config_remediation(msg: Seq<char>) -> Seq<char> {
    let l = lower_seq(msg);
    if contains(l, "playwright npm package is missing"@) {
        "Install Playwright (e.g., `npm install playwright` and `npx playwright install chromium`)."@
    } else if contains(l, "chromium executable"@) {
        "Run `npx playwright install chromium` (or `playwright install chromium`) to download the browser."@
    } else if contains(l, "figma_token"@) || contains(l, "figma token"@) {
        "Set FIGMA_TOKEN (or FIGMA_OAUTH_TOKEN) before running Figma inputs."@
    } else if contains(l, "node-id"@) {
        "Include a Figma node-id in the URL (e.g., ?node-id=1-2) or pass --ref-type/--impl-type explicitly."@
    } else if contains(l, "file key"@) && contains(l, "figma"@) {
        "Use a Figma URL with a file key: https://www.figma.com/file/<FILE_KEY>/... with node-id if needed."@
    } else if contains(l, "spawn playwright helper"@) || contains(l, "node command"@) || contains(
        l,
        "not found on path"@,
    ) {
        "Install Node.js and ensure the node binary is on PATH; rerun after installing Playwright if needed."@
    } else if contains(l, "timeout while waiting for navigation"@) || contains(
        l,
        "network idle timeout"@,
    ) || contains(l, "timeout"@) {
        "Try increasing --nav-timeout/--network-idle-timeout or ensure the page loads without blocking."@
    } else if contains(l, "unsupported file extension"@) {
        "Use a supported image type (png, jpg, jpeg, webp, gif) or override type with --ref-type/--impl-type."@
    } else if contains(l, "local file not found"@) || contains(l, "file not found"@) {
        "Verify the file exists; use an absolute path or run from the working directory, and ensure the extension is supported (png, jpg, jpeg, webp, gif)."@
    } else {
        "Check flags/paths (e.g., --viewport WIDTHxHEIGHT) and required tokens."@
    }
}

pub open spec fn error_remediation(e: DpcError) -> Seq<char> {
    match e {
        DpcError::Io(_) => "Check file paths/permissions."@,
        DpcError::Network(_) => "Check connectivity/proxy/VPN and retry."@,
        DpcError::InvalidUrl(_) => "Verify URL/format (e.g., https://example.com)."@,
        DpcError::FigmaApi { .. } =>
            "Check FIGMA_TOKEN/URL and rate limits; retry after waiting."@,
        DpcError::Image(_) => "Verify image path/format and readability."@,
        DpcError::Serialization(_) =>
            "Check JSON/serialization inputs; run with --verbose for details."@,
        DpcError::Metric(_) => "Inspect metric inputs; try rerunning with --verbose."@,
        DpcError::Config(m) => config_remediation(m@),
        DpcError::Unknown(_) => "Re-run with --verbose; file an issue if persistent."@,
    }
}

/// The `Display` text of an error.
pub open spec fn error_text(e: DpcError) -> Seq<char> {
    match e {
        DpcError::Io(m) => "IO error: "@ + m@,
        DpcError::Network(m) => "Network error: "@ + m@,
        DpcError::InvalidUrl(m) => "Invalid URL: "@ + m@,
        DpcError::FigmaApi { status, message } => "Figma API error (status: "@ + status_debug(
            status,
        ) + "): "@ + message@,
        DpcError::Image(m) => "Image processing error: "@ + m@,
        DpcError::Serialization(m) => "Serialization error: "@ + m@,
        DpcError::Metric(m) => "Metric computation error: "@ + m@,
        DpcError::Config(m) => "Configuration error: "@ + m@,
        DpcError::Unknown(m) => "Unexpected error: "@ + m@,
    }
}

fn push_status_debug(out: &mut Vec<char>, status: Option<u16>)
    ensures
        final(out)@ == old(out)@ + status_debug(status),
{
    match status {
        Some(code) => {
            push_str(out, "Some(");
            push_decimal(out, code as u64);
            push_str(out, ")");
        },
        None => push_str(out, "None"),
    }
    proof {
        assert(out@ =~= old(out)@ + status_debug(status));
    }
}

fn mentions(lower: &Vec<char>, pattern: &str) -> (b: bool)
    ensures
        b == contains(lower@, pattern@),
{
    let p = chars_of(pattern);
    contains_chars(lower.as_slice(), p.as_slice())
}

fn config_remediation_exec(msg: &str) -> (r: &'static str)
    ensures
        r@ == config_remediation(msg@),
{
    let cs = chars_of(msg);
    let l = ascii_lowercase(cs.as_slice());
    if mentions(&l, "playwright npm package is missing") {
        "Install Playwright (e.g., `npm install playwright` and `npx playwright install chromium`)."
    } else if mentions(&l, "chromium executable") {
        "Run `npx playwright install chromium` (or `playwright install chromium`) to download the browser."
    } else if mentions(&l, "figma_token") || mentions(&l, "figma token") {
        "Set FIGMA_TOKEN (or FIGMA_OAUTH_TOKEN) before running Figma inputs."
    } else if mentions(&l, "node-id") {
        "Include a Figma node-id in the URL (e.g., ?node-id=1-2) or pass --ref-type/--impl-type explicitly."
    } else if mentions(&l, "file key") && mentions(&l, "figma") {
        "Use a Figma URL with a file key: https://www.figma.com/file/<FILE_KEY>/... with node-id if needed."
    } else if mentions(&l, "spawn playwright helper") || mentions(&l, "node command") || mentions(
        &l,
        "not found on path",
    ) {
        "Install Node.js and ensure the node binary is on PATH; rerun after installing Playwright if needed."
    } else if mentions(&l, "timeout while waiting for navigation") || mentions(
        &l,
        "network idle timeout",
    ) || mentions(&l, "timeout") {
        "Try increasing --nav-timeout/--network-idle-timeout or ensure the page loads without blocking."
    } else if mentions(&l, "unsupported file extension") {
        "Use a supported image type (png, jpg, jpeg, webp, gif) or override type with --ref-type/--impl-type."
    } else if mentions(&l, "local file not found") || mentions(&l, "file not found") {
        "Verify the file exists; use an absolute path or run from the working directory, and ensure the extension is supported (png, jpg, jpeg, webp, gif)."
    } else {
        "Check flags/paths (e.g., --viewport WIDTHxHEIGHT) and required tokens."
    }
}

fn prefixed(prefix: &str, text: &str) -> (r: String)
    ensures
        r@ == prefix@ + text@,
{
    let mut out: Vec<char> = Vec::new();
    push_str(&mut out, prefix);
    push_str(&mut out, text);
    string_from_chars(out.as_slice())
}

fn figma_text(head: &str, status: Option<u16>, message: &str) -> (r: String)
    ensures
        r@ == head@ + status_debug(status) + "): "@ + message@,
{
    let mut out: Vec<char> = Vec::new();
    push_str(&mut out, head);
    push_status_debug(&mut out, status);
    push_str(&mut out, "): ");
    push_str(&mut out, message);
    string_from_chars(out.as_slice())
}

impl DpcError {
    /// A Figma API error with the given status and message.
    pub fn figma_api(status: Option<u16>, message: String) -> (r: DpcError)
        ensures
            r == (DpcError::FigmaApi { status, message }),
    {
        DpcError::FigmaApi { status, message }
    }

    /// A metric computation error.
    pub fn metric(message: String) -> (r: DpcError)
        ensures
            r == DpcError::Metric(message),
    {
        DpcError::Metric(message)
    }

    /// The error as reported to users: its category, its message, and a
    /// remediation hint (for configuration errors, chosen by the message).
    pub fn to_payload(&self) -> (r: ErrorPayload)
        ensures
            r.category == error_category(*self),
            r.message@ == payload_message(*self),
            r.remediation matches Some(h) && h@ == error_remediation(*self),
    {
        match self {
            DpcError::Io(m) => ErrorPayload::new(
                ErrorCategory::Config,
                owned(m.as_str()),
                "Check file paths/permissions.",
            ),
            DpcError::Network(m) => ErrorPayload::new(
                ErrorCategory::Network,
                owned(m.as_str()),
                "Check connectivity/proxy/VPN and retry.",
            ),
            DpcError::InvalidUrl(m) => ErrorPayload::new(
                ErrorCategory::Config,
                owned(m.as_str()),
                "Verify URL/format (e.g., https://example.com).",
            ),
            DpcError::FigmaApi { status, message } => ErrorPayload::new(
                ErrorCategory::Figma,
                figma_text("Figma API error (status ", *status, message.as_str()),
                "Check FIGMA_TOKEN/URL and rate limits; retry after waiting.",
            ),
            DpcError::Image(m) => ErrorPayload::new(
                ErrorCategory::Image,
                owned(m.as_str()),
                "Verify image path/format and readability.",
            ),
            DpcError::Serialization(m) => ErrorPayload::new(
                ErrorCategory::Config,
                owned(m.as_str()),
                "Check JSON/serialization inputs; run with --verbose for details.",
            ),
            DpcError::Metric(m) => ErrorPayload::new(
                ErrorCategory::Metric,
                owned(m.as_str()),
                "Inspect metric inputs; try rerunning with --verbose.",
            ),
            DpcError::Config(m) => ErrorPayload::new(
                ErrorCategory::Config,
                owned(m.as_str()),
                config_remediation_exec(m.as_str()),
            ),
            DpcError::Unknown(m) => ErrorPayload::new(
                ErrorCategory::Unknown,
                owned(m.as_str()),
                "Re-run with --verbose; file an issue if persistent.",
            ),
        }
    }

    /// The text that describes the error.
    pub fn message(&self) -> (r: String)
        ensures
            r@ == error_text(*self),
    {
        match self {
            DpcError::Io(m) => prefixed("IO error: ", m.as_str()),
            DpcError::Network(m) => prefixed("Network error: ", m.as_str()),
            DpcError::InvalidUrl(m) => prefixed("Invalid URL: ", m.as_str()),
            DpcError::FigmaApi { status, message } => figma_text(
                "Figma API error (status: ",
                *status,
                message.as_str(),
            ),
            DpcError::Image(m) => prefixed("Image processing error: ", m.as_str()),
            DpcError::Serialization(m) => prefixed("Serialization error: ", m.as_str()),
            DpcError::Metric(m) => prefixed("Metric computation error: ", m.as_str()),
            DpcError::Config(m) => prefixed("Configuration error: ", m.as_str()),
            DpcError::Unknown(m) => prefixed("Unexpected error: ", m.as_str()),
        }
    }
}

} // verus!
