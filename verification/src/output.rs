//! The documents the command line writes, the text forms of some of them,
//! and its exit codes.
use vstd::prelude::*;

use crate::error::{error_category, error_remediation, payload_message, DpcError, ErrorPayload};
use crate::resource::ResourceKind;
use crate::text::{owned, push_str, string_from_chars};
use crate::viewport::Viewport;

verus! {

/// Schema version of the output documents.
pub const DPC_OUTPUT_VERSION: &'static str = "0.2.0";

/// Which command produced a document.
#[derive(Debug, Clone, Copy, PartialEq, Eq, Structural)]
pub enum OutputMode {
    Compare,
    GenerateCode,
    Quality,
    Error,
}

/// An input as given: its kind and the text that named it.
#[derive(Debug, Clone)]
pub struct ResourceDescriptor {
    pub kind: ResourceKind,
    pub value: String,
}

/// The most important issues, as lines of text.
#[derive(Debug, Clone)]
pub struct Summary {
    pub top_issues: Vec<String>,
}

/// The document of a code generation.
#[derive(Debug, Clone)]
pub struct GenerateCodeOutput {
    pub version: String,
    pub input: ResourceDescriptor,
    pub viewport: Option<Viewport>,
    pub stack: Option<String>,
    pub output_path: Option<String>,
    pub code: Option<String>,
    pub summary: Option<Summary>,
}

/// How serious a quality finding is.
#[derive(Debug, Clone, Copy, PartialEq, Eq, Structural)]
pub enum FindingSeverity {
    Info,
    Warning,
    Error,
}

/// What a quality finding is about.
#[derive(Debug, Clone, Copy, PartialEq, Eq, Structural)]
pub enum QualityFindingType {
    AlignmentInconsistent,
    SpacingInconsistent,
    LowContrast,
    MissingHierarchy,
}

/// A finding of the quality check.
#[derive(Debug, Clone)]
pub struct QualityFinding {
    pub severity: FindingSeverity,
    pub finding_type: QualityFindingType,
    pub message: String,
}

/// Where the files kept from a comparison are.
#[derive(Debug, Clone)]
pub struct CompareArtifacts {
    pub directory: String,
    pub kept: bool,
    pub ref_screenshot: Option<String>,
    pub impl_screenshot: Option<String>,
    pub diff_image: Option<String>,
    pub ref_dom_snapshot: Option<String>,
    pub impl_dom_snapshot: Option<String>,
    pub ref_figma_snapshot: Option<String>,
    pub impl_figma_snapshot: Option<String>,
}

/// The document of a failure.
#[derive(Debug)]
pub struct ErrorOutput {
    pub version: String,
    /// The message again at the top level, for pipelines that look there.
    pub message: Option<String>,
    pub error: ErrorPayload,
}

/// The document that reports an error: the current version, the payload of
/// the error, and its message at the top level too.
pub fn error_output(err: &DpcError) -> (r: ErrorOutput)
    ensures
        r.version@ == DPC_OUTPUT_VERSION@,
        r.message matches Some(m) && m@ == payload_message(*err),
        r.error.category == error_category(*err),
        r.error.message@ == payload_message(*err),
        r.error.remediation matches Some(h) && h@ == error_remediation(*err),
{
    let payload = err.to_payload();
    let message = owned(payload.message.as_str());
    ErrorOutput { version: owned(DPC_OUTPUT_VERSION), message: Some(message), error: payload }
}

/// The exit code of a comparison: 0 when it passed, 1 when it did not.
pub fn exit_code_for_compare(passed: bool) -> (r: u8)
    ensures
        r == (if passed { 0u8 } else { 1u8 }),
{
    if passed {
        0
    } else {
        1
    }
}

/// The exit code of a run that failed with an error.
pub fn exit_code_for_error() -> (r: u8)
    ensures
        r == 2,
{
    2
}

/// The text in the given ANSI color when colors are on.
pub open spec fn colored(text: Seq<char>, code: Seq<char>, colorize: bool) -> Seq<char> {
    if colorize {
        "\u{1b}["@ + code + "m"@ + text + "\u{1b}[0m"@
    } else {
        text
    }
}

/// Wraps a text in an ANSI color when colors are on.
pub fn color(text: &str, code: &str, colorize: bool) -> (r: String)
    ensures
        r@ == colored(text@, code@, colorize),
{
    if colorize {
        let mut v: Vec<char> = Vec::new();
        push_str(&mut v, "\u{1b}[");
        push_str(&mut v, code);
        push_str(&mut v, "m");
        push_str(&mut v, text);
        push_str(&mut v, "\u{1b}[0m");
        proof {
            assert(v@ =~= colored(text@, code@, colorize));
        }
        string_from_chars(v.as_slice())
    } else {
        owned(text)
    }
}

/// The human-readable form of an error document: a colored header with the
/// message, and the hint on a line of its own when there is one.
pub open spec fn pretty_error_text(out: ErrorOutput, colorize: bool) -> Seq<char> {
    let message = match out.message {
        Some(m) => m@,
        None => out.error.message@,
    };
    colored("[ERROR]"@, "31"@, colorize) + " "@ + message + "\n"@ + match out.error.remediation {
        Some(h) => "Hint: "@ + h@ + "\n"@,
        None => Seq::empty(),
    }
}

/// Formats an error document for a terminal.
pub fn format_pretty_error(out: &ErrorOutput, colorize: bool) -> (r: String)
    ensures
        r@ == pretty_error_text(*out, colorize),
{
    let header = color("[ERROR]", "31", colorize);
    let mut v: Vec<char> = Vec::new();
    push_str(&mut v, header.as_str());
    push_str(&mut v, " ");
    match &out.message {
        Some(m) => push_str(&mut v, m.as_str()),
        None => push_str(&mut v, out.error.message.as_str()),
    }
    push_str(&mut v, "\n");
    match &out.error.remediation {
        Some(h) => {
            push_str(&mut v, "Hint: ");
            push_str(&mut v, h.as_str());
            push_str(&mut v, "\n");
        },
        None => {},
    }
    proof {
        assert(v@ =~= pretty_error_text(*out, colorize));
    }
    string_from_chars(v.as_slice())
}

/// `{:?}` of a resource kind.
pub open spec fn kind_debug(k: ResourceKind) -> Seq<char> {
    match k {
        ResourceKind::Url => "Url"@,
        ResourceKind::Image => "Image"@,
        ResourceKind::Figma => "Figma"@,
    }
}

fn kind_debug_str(k: ResourceKind) -> (r: &'static str)
    ensures
        r@ == kind_debug(k),
{
    match k {
        ResourceKind::Url => "Url",
        ResourceKind::Image => "Image",
        ResourceKind::Figma => "Figma",
    }
}

pub open spec fn note_lines(notes: Seq<String>) -> Seq<char>
    decreases notes.len(),
{
    if notes.len() == 0 {
        Seq::empty()
    } else {
        note_lines(notes.drop_last()) + "- "@ + notes.last()@ + "\n"@
    }
}

/// The human-readable form of a code generation document: a colored
/// header, the input and its kind, and the notes of its summary.
pub open spec fn pretty_generate_text(out: GenerateCodeOutput, colorize: bool) -> Seq<char> {
    colored("[GENERATE]"@, "36"@, colorize) + " Code generation (stub)\n"@ + "Input: "@
        + out.input.value@ + " (kind: "@ + kind_debug(out.input.kind) + ")\n"@ + match out.summary {
        Some(s) => if s.top_issues@.len() > 0 {
            "Notes:\n"@ + note_lines(s.top_issues@)
        } else {
            Seq::empty()
        },
        None => Seq::empty(),
    }
}

/// Formats a code generation document for a terminal.
pub fn format_pretty_generate(out: &GenerateCodeOutput, colorize: bool) -> (r: String)
    ensures
        r@ == pretty_generate_text(*out, colorize),
{
    let header = color("[GENERATE]", "36", colorize);
    let mut v: Vec<char> = Vec::new();
    push_str(&mut v, header.as_str());
    push_str(&mut v, " Code generation (stub)\n");
    push_str(&mut v, "Input: ");
    push_str(&mut v, out.input.value.as_str());
    push_str(&mut v, " (kind: ");
    push_str(&mut v, kind_debug_str(out.input.kind));
    push_str(&mut v, ")\n");
    let ghost head = v@;
    match &out.summary {
        Some(s) => {
            if s.top_issues.len() > 0 {
                push_str(&mut v, "Notes:\n");
                let ghost notes_head = v@;
                for k in 0..s.top_issues.len()
                    invariant
                        v@ == notes_head + note_lines(s.top_issues@.take(k as int)),
                {
                    push_str(&mut v, "- ");
                    push_str(&mut v, s.top_issues[k].as_str());
                    push_str(&mut v, "\n");
                    proof {
                        assert(s.top_issues@.take(k + 1).drop_last() =~= s.top_issues@.take(
                            k as int,
                        ));
                        assert(v@ =~= notes_head + note_lines(s.top_issues@.take(k + 1)));
                    }
                }
                proof {
                    assert(s.top_issues@.take(s.top_issues@.len() as int) =~= s.top_issues@);
                }
            }
        },
        None => {},
    }
    proof {
        assert(v@ =~= pretty_generate_text(*out, colorize));
    }
    string_from_chars(v.as_slice())
}

/// `n` spaces.
pub open spec fn spaces(n: nat) -> Seq<char> {
    Seq::new(n, |_i: int| ' ')
}

/// `{:w}` of a text: padded on the right with spaces to `w` characters.
pub open spec fn padded(s: Seq<char>, w: nat) -> Seq<char> {
    if s.len() < w {
        s + spaces((w - s.len()) as nat)
    } else {
        s
    }
}

fn push_padded(v: &mut Vec<char>, s: &str, w: usize)
    ensures
        final(v)@ == old(v)@ + padded(s@, w as nat),
{
    push_str(v, s);
    let ghost head = v@;
    let n = s.unicode_len();
    let mut k = n;
    while k < w
        invariant
            n == s@.len(),
            n <= k,
            k <= w || k == n,
            head == old(v)@ + s@,
            v@ == head + spaces((k - n) as nat),
        decreases w - k,
    {
        v.push(' ');
        k = k + 1;
        proof {
            assert(v@ =~= head + spaces((k - n) as nat));
        }
    }
    proof {
        if n < w {
            assert(k == w);
            assert(v@ =~= old(v)@ + padded(s@, w as nat));
        } else {
            assert(spaces(0) =~= Seq::<char>::empty());
            assert(v@ =~= old(v)@ + padded(s@, w as nat));
        }
    }
}

/// The color a score is shown in.
#[derive(Debug, Clone, Copy, PartialEq, Eq, Structural)]
pub enum ScoreColor {
    Green,
    Yellow,
    Red,
}

/// The ANSI code of a score color.
pub open spec fn score_color_code(c: ScoreColor) -> Seq<char> {
    match c {
        ScoreColor::Green => "32"@,
        ScoreColor::Yellow => "33"@,
        ScoreColor::Red => "31"@,
    }
}

/// The ANSI code of a score color.
pub fn color_code(c: ScoreColor) -> (r: &'static str)
    ensures
        r@ == score_color_code(c),
{
    match c {
        ScoreColor::Green => "32",
        ScoreColor::Yellow => "33",
        ScoreColor::Red => "31",
    }
}

/// A metric of the terminal summary: its name, its score as text and the
/// color of the score.
pub struct ScoreLine {
    pub name: String,
    pub score: String,
    pub color: ScoreColor,
}

/// What the terminal summary of a comparison shows; the numbers come as
/// text with their colors.
pub struct PrettyCompare {
    pub passed: bool,
    pub similarity: String,
    pub similarity_color: ScoreColor,
    pub threshold: String,
    pub issues: Vec<String>,
    pub metrics: Vec<ScoreLine>,
    pub artifacts: Option<CompareArtifacts>,
}

pub open spec fn metric_lines(m: Seq<ScoreLine>, colorize: bool) -> Seq<char>
    decreases m.len(),
{
    if m.len() == 0 {
        Seq::empty()
    } else {
        metric_lines(m.drop_last(), colorize) + "- "@ + padded(m.last().name@, 12) + " "@ + colored(
            m.last().score@,
            score_color_code(m.last().color),
            colorize,
        ) + "\n"@
    }
}

pub open spec fn opt_entry(label: Seq<char>, path: Option<String>) -> Seq<(Seq<char>, Seq<char>)> {
    match path {
        Some(p) => seq![(label, p@)],
        None => Seq::empty(),
    }
}

/// The artifacts the summary lists: the directory, the screenshots, the
/// diff image and the DOM snapshots that there are.
pub open spec fn artifact_entries(a: CompareArtifacts) -> Seq<(Seq<char>, Seq<char>)> {
    seq![("directory"@, a.directory@)] + opt_entry("refScreenshot"@, a.ref_screenshot) + opt_entry(
        "implScreenshot"@,
        a.impl_screenshot,
    ) + opt_entry("diffImage"@, a.diff_image) + opt_entry("refDomSnapshot"@, a.ref_dom_snapshot)
        + opt_entry("implDomSnapshot"@, a.impl_dom_snapshot)
}

pub open spec fn entry_lines(e: Seq<(Seq<char>, Seq<char>)>) -> Seq<char>
    decreases e.len(),
{
    if e.len() == 0 {
        Seq::empty()
    } else {
        entry_lines(e.drop_last()) + "- "@ + padded(e.last().0, 16) + " "@ + e.last().1 + "\n"@
    }
}

/// The verdict and the similarity against the threshold.
pub open spec fn compare_header(p: PrettyCompare, colorize: bool) -> Seq<char> {
    colored(
        if p.passed {
            "PASS"@
        } else {
            "FAIL"@
        },
        if p.passed {
            "32"@
        } else {
            "31"@
        },
        colorize,
    ) + " Design parity check\n"@ + "Similarity: "@ + colored(
        p.similarity@,
        score_color_code(p.similarity_color),
        colorize,
    )
        + " (threshold "@ + p.threshold@ + ")\n"@
}

/// At most five issues, under a heading, when there are any.
pub open spec fn issue_block(issues: Seq<String>) -> Seq<char> {
    if issues.len() > 0 {
        "Top issues (max 5):\n"@ + note_lines(
            issues.take(
                if issues.len() > 5 {
                    5
                } else {
                    issues.len() as int
                },
            ),
        )
    } else {
        Seq::empty()
    }
}

pub open spec fn metric_block(metrics: Seq<ScoreLine>, colorize: bool) -> Seq<char> {
    if metrics.len() > 0 {
        "Metrics:\n"@ + metric_lines(metrics, colorize)
    } else {
        Seq::empty()
    }
}

pub open spec fn artifact_block(artifacts: Option<CompareArtifacts>) -> Seq<char> {
    match artifacts {
        Some(a) => "Artifacts:\n"@ + entry_lines(artifact_entries(a)),
        None => Seq::empty(),
    }
}

/// The terminal summary of a comparison: the verdict, the similarity
/// against the threshold, at most five issues, the metric scores and the
/// kept artifacts.
pub open spec fn pretty_compare_text(p: PrettyCompare, colorize: bool) -> Seq<char> {
    compare_header(p, colorize) + issue_block(p.issues@) + metric_block(p.metrics@, colorize)
        + artifact_block(p.artifacts)
}

fn push_entry(v: &mut Vec<char>, label: &str, path: &str)
    ensures
        final(v)@ == old(v)@ + "- "@ + padded(label@, 16) + " "@ + path@ + "\n"@,
{
    push_str(v, "- ");
    push_padded(v, label, 16);
    push_str(v, " ");
    push_str(v, path);
    push_str(v, "\n");
}

fn push_opt_entry(v: &mut Vec<char>, label: &str, path: &Option<String>, Ghost(done): Ghost<
    Seq<(Seq<char>, Seq<char>)>,
>)
    requires
        old(v)@ == entry_lines(done),
    ensures
        final(v)@ == entry_lines(done + opt_entry(label@, *path)),
{
    match path {
        Some(p) => {
            push_entry(v, label, p.as_str());
            proof {
                let e = done + opt_entry(label@, *path);
                assert(e.drop_last() =~= done);
            }
        },
        None => {
            proof {
                assert(done + opt_entry(label@, *path) =~= done);
            }
        },
    }
}

fn artifact_text(a: &CompareArtifacts) -> (r: Vec<char>)
    ensures
        r@ == entry_lines(artifact_entries(*a)),
{
    let mut v: Vec<char> = Vec::new();
    push_entry(&mut v, "directory", a.directory.as_str());
    let ghost e0 = seq![("directory"@, a.directory@)];
    proof {
        assert(e0.drop_last() =~= Seq::<(Seq<char>, Seq<char>)>::empty());
        assert(entry_lines(Seq::<(Seq<char>, Seq<char>)>::empty()) == Seq::<char>::empty());
        assert(e0.last() == ("directory"@, a.directory@));
        assert(v@ =~= entry_lines(e0));
    }
    push_opt_entry(&mut v, "refScreenshot", &a.ref_screenshot, Ghost(e0));
    let ghost e1 = e0 + opt_entry("refScreenshot"@, a.ref_screenshot);
    push_opt_entry(&mut v, "implScreenshot", &a.impl_screenshot, Ghost(e1));
    let ghost e2 = e1 + opt_entry("implScreenshot"@, a.impl_screenshot);
    push_opt_entry(&mut v, "diffImage", &a.diff_image, Ghost(e2));
    let ghost e3 = e2 + opt_entry("diffImage"@, a.diff_image);
    push_opt_entry(&mut v, "refDomSnapshot", &a.ref_dom_snapshot, Ghost(e3));
    let ghost e4 = e3 + opt_entry("refDomSnapshot"@, a.ref_dom_snapshot);
    push_opt_entry(&mut v, "implDomSnapshot", &a.impl_dom_snapshot, Ghost(e4));
    v
}

fn header_chars(p: &PrettyCompare, colorize: bool) -> (r: Vec<char>)
    ensures
        r@ == compare_header(*p, colorize),
{
    let mut v: Vec<char> = Vec::new();
    let status = if p.passed {
        color("PASS", "32", colorize)
    } else {
        color("FAIL", "31", colorize)
    };
    push_str(&mut v, status.as_str());
    push_str(&mut v, " Design parity check\n");
    push_str(&mut v, "Similarity: ");
    let sim = color(p.similarity.as_str(), color_code(p.similarity_color), colorize);
    push_str(&mut v, sim.as_str());
    push_str(&mut v, " (threshold ");
    push_str(&mut v, p.threshold.as_str());
    push_str(&mut v, ")\n");
    proof {
        assert(v@ =~= compare_header(*p, colorize));
    }
    v
}

fn issue_chars(issues: &Vec<String>) -> (r: Vec<char>)
    ensures
        r@ == issue_block(issues@),
{
    let mut v: Vec<char> = Vec::new();
    if issues.len() > 0 {
        push_str(&mut v, "Top issues (max 5):\n");
        let shown = if issues.len() > 5 {
            5
        } else {
            issues.len()
        };
        let ghost head = v@;
        for k in 0..shown
            invariant
                shown <= issues@.len(),
                v@ == head + note_lines(issues@.take(k as int)),
        {
            push_str(&mut v, "- ");
            push_str(&mut v, issues[k].as_str());
            push_str(&mut v, "\n");
            proof {
                assert(issues@.take(k + 1).drop_last() =~= issues@.take(k as int));
                assert(v@ =~= head + note_lines(issues@.take(k + 1)));
            }
        }
    }
    v
}

fn metric_chars(metrics: &Vec<ScoreLine>, colorize: bool) -> (r: Vec<char>)
    ensures
        r@ == metric_block(metrics@, colorize),
{
    let mut v: Vec<char> = Vec::new();
    if metrics.len() > 0 {
        push_str(&mut v, "Metrics:\n");
        let ghost head = v@;
        for k in 0..metrics.len()
            invariant
                v@ == head + metric_lines(metrics@.take(k as int), colorize),
        {
            let m = &metrics[k];
            push_str(&mut v, "- ");
            push_padded(&mut v, m.name.as_str(), 12);
            push_str(&mut v, " ");
            let styled = color(m.score.as_str(), color_code(m.color), colorize);
            push_str(&mut v, styled.as_str());
            push_str(&mut v, "\n");
            proof {
                assert(metrics@.take(k + 1).drop_last() =~= metrics@.take(k as int));
                assert(v@ =~= head + metric_lines(metrics@.take(k + 1), colorize));
            }
        }
        proof {
            assert(metrics@.take(metrics@.len() as int) =~= metrics@);
        }
    }
    v
}

/// Formats the terminal summary of a comparison.
pub fn format_pretty_compare(p: &PrettyCompare, colorize: bool) -> (r: String)
    ensures
        r@ == pretty_compare_text(*p, colorize),
{
    let mut v = header_chars(p, colorize);
    let issues = issue_chars(&p.issues);
    crate::text::push_all(&mut v, issues.as_slice());
    let metrics = metric_chars(&p.metrics, colorize);
    crate::text::push_all(&mut v, metrics.as_slice());
    match &p.artifacts {
        Some(a) => {
            push_str(&mut v, "Artifacts:\n");
            let t = artifact_text(a);
            crate::text::push_all(&mut v, t.as_slice());
        },
        None => {},
    }
    proof {
        assert(v@ =~= pretty_compare_text(*p, colorize));
    }
    string_from_chars(v.as_slice())
}

/// `{:?}` of a finding severity.
pub open spec fn severity_debug(s: FindingSeverity) -> Seq<char> {
    match s {
        FindingSeverity::Info => "Info"@,
        FindingSeverity::Warning => "Warning"@,
        FindingSeverity::Error => "Error"@,
    }
}

fn severity_debug_str(s: FindingSeverity) -> (r: &'static str)
    ensures
        r@ == severity_debug(s),
{
    match s {
        FindingSeverity::Info => "Info",
        FindingSeverity::Warning => "Warning",
        FindingSeverity::Error => "Error",
    }
}

pub open spec fn finding_lines(f: Seq<QualityFinding>) -> Seq<char>
    decreases f.len(),
{
    if f.len() == 0 {
        Seq::empty()
    } else {
        finding_lines(f.drop_last()) + "- ["@ + severity_debug(f.last().severity) + "] "@
            + f.last().message@ + "\n"@
    }
}

/// The terminal summary of a quality score: a colored header with the
/// score, the input and its kind, and the findings.
pub open spec fn pretty_quality_text(
    score: Seq<char>,
    input: ResourceDescriptor,
    findings: Seq<QualityFinding>,
    colorize: bool,
) -> Seq<char> {
    colored("[QUALITY]"@, "34"@, colorize) + " Score "@ + score + "\n"@ + "Input: "@ + input.value@
        + " (kind: "@ + kind_debug(input.kind) + ")\n"@ + if findings.len() > 0 {
        "Findings:\n"@ + finding_lines(findings)
    } else {
        Seq::empty()
    }
}

/// Formats the terminal summary of a quality score given as text.
pub fn format_pretty_quality(
    score: &str,
    input: &ResourceDescriptor,
    findings: &Vec<QualityFinding>,
    colorize: bool,
) -> (r: String)
    ensures
        r@ == pretty_quality_text(score@, *input, findings@, colorize),
{
    let header = color("[QUALITY]", "34", colorize);
    let mut v: Vec<char> = Vec::new();
    push_str(&mut v, header.as_str());
    push_str(&mut v, " Score ");
    push_str(&mut v, score);
    push_str(&mut v, "\n");
    push_str(&mut v, "Input: ");
    push_str(&mut v, input.value.as_str());
    push_str(&mut v, " (kind: ");
    push_str(&mut v, kind_debug_str(input.kind));
    push_str(&mut v, ")\n");
    let ghost head = v@;
    if findings.len() > 0 {
        push_str(&mut v, "Findings:\n");
        let ghost findings_head = v@;
        for k in 0..findings.len()
            invariant
                v@ == findings_head + finding_lines(findings@.take(k as int)),
        {
            push_str(&mut v, "- [");
            push_str(&mut v, severity_debug_str(findings[k].severity));
            push_str(&mut v, "] ");
            push_str(&mut v, findings[k].message.as_str());
            push_str(&mut v, "\n");
            proof {
                assert(findings@.take(k + 1).drop_last() =~= findings@.take(k as int));
                assert(v@ =~= findings_head + finding_lines(findings@.take(k + 1)));
            }
        }
        proof {
            assert(findings@.take(findings@.len() as int) =~= findings@);
        }
    }
    proof {
        assert(v@ =~= pretty_quality_text(score@, *input, findings@, colorize));
    }
    string_from_chars(v.as_slice())
}

/// A document in the form its terminal text is written from.
pub enum PrettyDocument {
    Compare(PrettyCompare),
    GenerateCode(GenerateCodeOutput),
    /// The score as text, the input and the findings.
    Quality { score: String, input: ResourceDescriptor, findings: Vec<QualityFinding> },
    Error(ErrorOutput),
}

/// The terminal text of a document, by its kind.
pub open spec fn pretty_text(d: PrettyDocument, colorize: bool) -> Seq<char> {
    match d {
        PrettyDocument::Compare(p) => pretty_compare_text(p, colorize),
        PrettyDocument::GenerateCode(g) => pretty_generate_text(g, colorize),
        PrettyDocument::Quality { score, input, findings } => pretty_quality_text(
            score@,
            input,
            findings@,
            colorize,
        ),
        PrettyDocument::Error(e) => pretty_error_text(e, colorize),
    }
}

/// Formats any document for a terminal.
pub fn format_pretty(d: &PrettyDocument, colorize: bool) -> (r: String)
    ensures
        r@ == pretty_text(*d, colorize),
{
    match d {
        PrettyDocument::Compare(p) => format_pretty_compare(p, colorize),
        PrettyDocument::GenerateCode(g) => format_pretty_generate(g, colorize),
        PrettyDocument::Quality { score, input, findings } => format_pretty_quality(
            score.as_str(),
            input,
            findings,
            colorize,
        ),
        PrettyDocument::Error(e) => format_pretty_error(e, colorize),
    }
}

} // verus!
