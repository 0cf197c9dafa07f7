//! ANSI color sequences in the terminal texts: what removing them leaves.
use vstd::prelude::*;

use crate::output::{
    artifact_block, artifact_entries, colored, compare_header, entry_lines, finding_lines,
    issue_block, kind_debug, metric_block, metric_lines, note_lines, padded, pretty_compare_text,
    pretty_error_text, pretty_generate_text, pretty_quality_text, pretty_text, severity_debug,
    score_color_code, spaces, PrettyDocument, ScoreColor,
    CompareArtifacts, ErrorOutput, GenerateCodeOutput, PrettyCompare, QualityFinding,
    ResourceDescriptor, ScoreLine,
};

verus! {

/// `s` holds no escape character.
pub open spec fn no_escape(s: Seq<char>) -> bool {
    forall|i: int| 0 <= i < s.len() ==> s[i] != '\u{1b}'
}

/// `s` is made of ASCII digits only.
pub open spec fn ascii_digits(s: Seq<char>) -> bool {
    forall|i: int| 0 <= i < s.len() ==> '0' <= #[trigger] s[i] <= '9'
}

/// How many ASCII digits `s` starts with.
pub open spec fn digit_run(s: Seq<char>) -> nat
    decreases s.len(),
{
    if s.len() > 0 && '0' <= s[0] <= '9' {
        1 + digit_run(s.drop_first())
    } else {
        0
    }
}

/// `s` starts with an escape, `[`, ASCII digits and `m`: a color sequence.
pub open spec fn starts_with_color(s: Seq<char>) -> bool {
    &&& s.len() >= 3
    &&& s[0] == '\u{1b}'
    &&& s[1] == '['
    &&& 2 + digit_run(s.skip(2)) < s.len()
    &&& s[2 + digit_run(s.skip(2)) as int] == 'm'
}

/// `s` without its color sequences: every escape, `[`, run of ASCII digits
/// and `m` taken out, read from the left.
pub open spec fn strip_ansi(s: Seq<char>) -> Seq<char>
    decreases s.len(),
{
    if s.len() == 0 {
        s
    } else if starts_with_color(s) {
        strip_ansi(s.skip(3 + digit_run(s.skip(2)) as int))
    } else {
        seq![s[0]] + strip_ansi(s.drop_first())
    }
}

/// Text without escapes passes through unchanged, whatever follows it.
pub proof fn lemma_strip_plain_prefix(t: Seq<char>, u: Seq<char>)
    requires
        no_escape(t),
    ensures
        strip_ansi(t + u) == t + strip_ansi(u),
    decreases t.len(),
{
    if t.len() == 0 {
        assert(t + u =~= u);
        assert(t + strip_ansi(u) =~= strip_ansi(u));
    } else {
        let rest = t.drop_first();
        lemma_strip_plain_prefix(rest, u);
        assert((t + u)[0] == t[0]);
        assert((t + u).drop_first() =~= rest + u);
        assert(seq![t[0]] + (rest + strip_ansi(u)) =~= t + strip_ansi(u));
    }
}

/// Text without escapes is left as it is.
pub proof fn lemma_strip_plain(t: Seq<char>)
    requires
        no_escape(t),
    ensures
        strip_ansi(t) == t,
{
    lemma_strip_plain_prefix(t, Seq::empty());
    assert(t + Seq::<char>::empty() =~= t);
    assert(strip_ansi(Seq::<char>::empty()) =~= Seq::<char>::empty());
}

proof fn lemma_digit_run(code: Seq<char>, rest: Seq<char>)
    requires
        ascii_digits(code),
    ensures
        digit_run(code + rest) == code.len() + digit_run(rest),
    decreases code.len(),
{
    if code.len() == 0 {
        assert(code + rest =~= rest);
    } else {
        assert('0' <= code[0] <= '9');
        assert((code + rest)[0] == code[0]);
        assert((code + rest).drop_first() =~= code.drop_first() + rest);
        assert(ascii_digits(code.drop_first())) by {
            assert forall|i: int| 0 <= i < code.drop_first().len() implies '0' <= #[trigger] code.drop_first()[i]
                <= '9' by {
                assert(code.drop_first()[i] == code[i + 1]);
            }
        }
        lemma_digit_run(code.drop_first(), rest);
    }
}

/// A color sequence is taken out, whatever follows it.
pub proof fn lemma_strip_color(code: Seq<char>, u: Seq<char>)
    requires
        ascii_digits(code),
    ensures
        strip_ansi("\u{1b}["@ + code + "m"@ + u) == strip_ansi(u),
{
    reveal_strlit("\u{1b}[");
    reveal_strlit("m");
    let s = "\u{1b}["@ + code + "m"@ + u;
    let tail = "m"@ + u;
    assert(s.skip(2) =~= code + tail);
    lemma_digit_run(code, tail);
    assert(digit_run(tail) == 0);
    assert(digit_run(s.skip(2)) == code.len());
    assert(s[2 + code.len() as int] == 'm');
    assert(starts_with_color(s));
    assert(s.skip(3 + code.len() as int) =~= u);
}

/// A colored text loses its color and keeps its text.
pub proof fn lemma_strip_colored(text: Seq<char>, code: Seq<char>, u: Seq<char>)
    requires
        no_escape(text),
        ascii_digits(code),
    ensures
        strip_ansi(colored(text, code, true) + u) == text + strip_ansi(u),
        colored(text, code, false) == text,
{
    reveal_strlit("0");
    let reset = "\u{1b}[0m"@;
    assert(reset =~= "\u{1b}["@ + "0"@ + "m"@) by {
        reveal_strlit("\u{1b}[0m");
        reveal_strlit("\u{1b}[");
        reveal_strlit("m");
    }
    assert(ascii_digits("0"@));
    assert(colored(text, code, true) + u =~= "\u{1b}["@ + code + "m"@ + (text + reset + u));
    lemma_strip_color(code, text + reset + u);
    assert(text + reset + u =~= text + (reset + u));
    lemma_strip_plain_prefix(text, reset + u);
    assert(reset + u =~= "\u{1b}["@ + "0"@ + "m"@ + u);
    lemma_strip_color("0"@, u);
}

/// Joined texts hold no escape exactly when each holds none.
pub proof fn lemma_no_escape_add(a: Seq<char>, b: Seq<char>)
    ensures
        no_escape(a + b) == (no_escape(a) && no_escape(b)),
{
    if no_escape(a + b) {
        assert forall|i: int| 0 <= i < a.len() implies a[i] != '\u{1b}' by {
            assert((a + b)[i] == a[i]);
        }
        assert forall|i: int| 0 <= i < b.len() implies b[i] != '\u{1b}' by {
            assert((a + b)[a.len() + i] == b[i]);
        }
    }
}

/// An optional text holds no escape when it is there.
pub open spec fn opt_plain(o: Option<String>) -> bool {
    match o {
        Some(s) => no_escape(s@),
        None => true,
    }
}

/// Every text of the sequence holds no escape.
pub open spec fn all_plain(v: Seq<String>) -> bool {
    forall|k: int| 0 <= k < v.len() ==> no_escape(#[trigger] v[k]@)
}

proof fn lemma_literals_plain()
    ensures
        no_escape(" "@),
        no_escape("\n"@),
        no_escape("- "@),
        no_escape("Hint: "@),
        no_escape("[ERROR]"@),
        no_escape("[GENERATE]"@),
        no_escape("[QUALITY]"@),
        no_escape(" Code generation (stub)\n"@),
        no_escape("Input: "@),
        no_escape(" (kind: "@),
        no_escape(")\n"@),
        no_escape("Notes:\n"@),
        no_escape(" Score "@),
        no_escape("Findings:\n"@),
        no_escape("- ["@),
        no_escape("] "@),
        no_escape("PASS"@),
        no_escape("FAIL"@),
        no_escape(" Design parity check\n"@),
        no_escape("Similarity: "@),
        no_escape(" (threshold "@),
        no_escape("Top issues (max 5):\n"@),
        no_escape("Metrics:\n"@),
        no_escape("Artifacts:\n"@),
        ascii_digits("31"@),
        ascii_digits("32"@),
        ascii_digits("34"@),
        ascii_digits("36"@),
{
    reveal_strlit(" ");
    reveal_strlit("\n");
    reveal_strlit("- ");
    reveal_strlit("Hint: ");
    reveal_strlit("[ERROR]");
    reveal_strlit("[GENERATE]");
    reveal_strlit("[QUALITY]");
    reveal_strlit(" Code generation (stub)\n");
    reveal_strlit("Input: ");
    reveal_strlit(" (kind: ");
    reveal_strlit(")\n");
    reveal_strlit("Notes:\n");
    reveal_strlit(" Score ");
    reveal_strlit("Findings:\n");
    reveal_strlit("- [");
    reveal_strlit("] ");
    reveal_strlit("PASS");
    reveal_strlit("FAIL");
    reveal_strlit(" Design parity check\n");
    reveal_strlit("Similarity: ");
    reveal_strlit(" (threshold ");
    reveal_strlit("Top issues (max 5):\n");
    reveal_strlit("Metrics:\n");
    reveal_strlit("Artifacts:\n");
    reveal_strlit("31");
    reveal_strlit("32");
    reveal_strlit("34");
    reveal_strlit("36");
}

/// With colors on, the error text without its color sequences is the
/// error text with colors off; that text holds no escape of its own when
/// the error's texts hold none.
#[verifier::spinoff_prover]
#[verifier::rlimit(50)]
pub proof fn lemma_pretty_error_plain(out: ErrorOutput)
    requires
        opt_plain(out.message),
        no_escape(out.error.message@),
        opt_plain(out.error.remediation),
    ensures
        strip_ansi(pretty_error_text(out, true)) == pretty_error_text(out, false),
        no_escape(pretty_error_text(out, false)),
{
    lemma_literals_plain();
    let message = match out.message {
        Some(m) => m@,
        None => out.error.message@,
    };
    let hint = match out.error.remediation {
        Some(h) => "Hint: "@ + h@ + "\n"@,
        None => Seq::<char>::empty(),
    };
    match out.error.remediation {
        Some(h) => {
            lemma_no_escape_add("Hint: "@, h@);
            lemma_no_escape_add("Hint: "@ + h@, "\n"@);
        },
        None => {},
    }
    let rest = " "@ + message + "\n"@ + hint;
    lemma_no_escape_add(" "@, message);
    lemma_no_escape_add(" "@ + message, "\n"@);
    lemma_no_escape_add(" "@ + message + "\n"@, hint);
    assert(pretty_error_text(out, true) =~= colored("[ERROR]"@, "31"@, true) + rest);
    assert(pretty_error_text(out, false) =~= "[ERROR]"@ + rest);
    lemma_strip_colored("[ERROR]"@, "31"@, rest);
    lemma_strip_plain(rest);
    lemma_no_escape_add("[ERROR]"@, rest);
}

proof fn lemma_note_lines_plain(notes: Seq<String>)
    requires
        all_plain(notes),
    ensures
        no_escape(note_lines(notes)),
    decreases notes.len(),
{
    if notes.len() > 0 {
        let init = notes.drop_last();
        assert forall|k: int| 0 <= k < init.len() implies no_escape(#[trigger] init[k]@) by {
            assert(init[k] == notes[k]);
        }
        lemma_note_lines_plain(init);
        lemma_literals_plain();
        let last = notes.last()@;
        assert(no_escape(notes[notes.len() - 1]@));
        lemma_no_escape_add(note_lines(init), "- "@);
        lemma_no_escape_add(note_lines(init) + "- "@, last);
        lemma_no_escape_add(note_lines(init) + "- "@ + last, "\n"@);
    }
}

proof fn lemma_kind_plain(input: ResourceDescriptor)
    ensures
        no_escape(kind_debug(input.kind)),
{
    reveal_strlit("Url");
    reveal_strlit("Image");
    reveal_strlit("Figma");
}

/// The input line of a document: its value and kind.
proof fn lemma_input_line_plain(input: ResourceDescriptor)
    requires
        no_escape(input.value@),
    ensures
        no_escape("Input: "@ + input.value@ + " (kind: "@ + kind_debug(input.kind) + ")\n"@),
{
    lemma_literals_plain();
    lemma_kind_plain(input);
    lemma_no_escape_add("Input: "@, input.value@);
    lemma_no_escape_add("Input: "@ + input.value@, " (kind: "@);
    lemma_no_escape_add("Input: "@ + input.value@ + " (kind: "@, kind_debug(input.kind));
    lemma_no_escape_add(
        "Input: "@ + input.value@ + " (kind: "@ + kind_debug(input.kind),
        ")\n"@,
    );
}

/// With colors on, the code generation text without its color sequences
/// is the text with colors off; that text holds no escape of its own when
/// the input and the notes hold none.
#[verifier::spinoff_prover]
#[verifier::rlimit(50)]
pub proof fn lemma_pretty_generate_plain(out: GenerateCodeOutput)
    requires
        no_escape(out.input.value@),
        out.summary matches Some(s) ==> all_plain(s.top_issues@),
    ensures
        strip_ansi(pretty_generate_text(out, true)) == pretty_generate_text(out, false),
        no_escape(pretty_generate_text(out, false)),
{
    lemma_literals_plain();
    let notes = match out.summary {
        Some(s) => if s.top_issues@.len() > 0 {
            "Notes:\n"@ + note_lines(s.top_issues@)
        } else {
            Seq::<char>::empty()
        },
        None => Seq::<char>::empty(),
    };
    match out.summary {
        Some(s) => {
            lemma_note_lines_plain(s.top_issues@);
            lemma_no_escape_add("Notes:\n"@, note_lines(s.top_issues@));
        },
        None => {},
    }
    let line = "Input: "@ + out.input.value@ + " (kind: "@ + kind_debug(out.input.kind) + ")\n"@;
    lemma_input_line_plain(out.input);
    let rest = " Code generation (stub)\n"@ + line + notes;
    lemma_no_escape_add(" Code generation (stub)\n"@, line);
    lemma_no_escape_add(" Code generation (stub)\n"@ + line, notes);
    assert(pretty_generate_text(out, true) =~= colored("[GENERATE]"@, "36"@, true) + rest);
    assert(pretty_generate_text(out, false) =~= "[GENERATE]"@ + rest);
    lemma_strip_colored("[GENERATE]"@, "36"@, rest);
    lemma_strip_plain(rest);
    lemma_no_escape_add("[GENERATE]"@, rest);
}

proof fn lemma_finding_lines_plain(f: Seq<QualityFinding>)
    requires
        forall|k: int| 0 <= k < f.len() ==> no_escape(#[trigger] f[k].message@),
    ensures
        no_escape(finding_lines(f)),
    decreases f.len(),
{
    if f.len() > 0 {
        let init = f.drop_last();
        assert forall|k: int| 0 <= k < init.len() implies no_escape(#[trigger] init[k].message@) by {
            assert(init[k] == f[k]);
        }
        lemma_finding_lines_plain(init);
        lemma_literals_plain();
        reveal_strlit("Info");
        reveal_strlit("Warning");
        reveal_strlit("Error");
        let sev = severity_debug(f.last().severity);
        let msg = f.last().message@;
        assert(no_escape(f[f.len() - 1].message@));
        assert(no_escape(sev));
        let a = finding_lines(init);
        lemma_no_escape_add(a, "- ["@);
        lemma_no_escape_add(a + "- ["@, sev);
        lemma_no_escape_add(a + "- ["@ + sev, "] "@);
        lemma_no_escape_add(a + "- ["@ + sev + "] "@, msg);
        lemma_no_escape_add(a + "- ["@ + sev + "] "@ + msg, "\n"@);
    }
}

/// With colors on, the quality text without its color sequences is the
/// text with colors off; that text holds no escape of its own when the
/// score, the input and the findings hold none.
#[verifier::spinoff_prover]
#[verifier::rlimit(50)]
pub proof fn lemma_pretty_quality_plain(
    score: Seq<char>,
    input: ResourceDescriptor,
    findings: Seq<QualityFinding>,
)
    requires
        no_escape(score),
        no_escape(input.value@),
        forall|k: int| 0 <= k < findings.len() ==> no_escape(#[trigger] findings[k].message@),
    ensures
        strip_ansi(pretty_quality_text(score, input, findings, true)) == pretty_quality_text(
            score,
            input,
            findings,
            false,
        ),
        no_escape(pretty_quality_text(score, input, findings, false)),
{
    lemma_literals_plain();
    let list = if findings.len() > 0 {
        "Findings:\n"@ + finding_lines(findings)
    } else {
        Seq::<char>::empty()
    };
    lemma_finding_lines_plain(findings);
    lemma_no_escape_add("Findings:\n"@, finding_lines(findings));
    let line = "Input: "@ + input.value@ + " (kind: "@ + kind_debug(input.kind) + ")\n"@;
    lemma_input_line_plain(input);
    let rest = " Score "@ + score + "\n"@ + line + list;
    lemma_no_escape_add(" Score "@, score);
    lemma_no_escape_add(" Score "@ + score, "\n"@);
    lemma_no_escape_add(" Score "@ + score + "\n"@, line);
    lemma_no_escape_add(" Score "@ + score + "\n"@ + line, list);
    assert(pretty_quality_text(score, input, findings, true) =~= colored(
        "[QUALITY]"@,
        "34"@,
        true,
    ) + rest);
    assert(pretty_quality_text(score, input, findings, false) =~= "[QUALITY]"@ + rest);
    lemma_strip_colored("[QUALITY]"@, "34"@, rest);
    lemma_strip_plain(rest);
    lemma_no_escape_add("[QUALITY]"@, rest);
}

proof fn lemma_padded_plain(t: Seq<char>, w: nat)
    requires
        no_escape(t),
    ensures
        no_escape(padded(t, w)),
{
    if t.len() < w {
        let n = (w - t.len()) as nat;
        assert(no_escape(spaces(n))) by {
            assert forall|i: int| 0 <= i < n implies spaces(n)[i] != '\u{1b}' by {
                assert(spaces(n)[i] == ' ');
            }
        }
        lemma_no_escape_add(t, spaces(n));
    }
}

/// The metrics a comparison shows hold no escape in their names and
/// scores.
pub open spec fn metrics_plain(m: Seq<ScoreLine>) -> bool {
    forall|k: int| 0 <= k < m.len() ==> no_escape(#[trigger] m[k].name@) && no_escape(m[k].score@)
}

/// Every score color has a code of ASCII digits.
proof fn lemma_score_color_digits(c: ScoreColor)
    ensures
        ascii_digits(score_color_code(c)),
{
    reveal_strlit("31");
    reveal_strlit("32");
    reveal_strlit("33");
}

#[verifier::spinoff_prover]
#[verifier::rlimit(50)]
proof fn lemma_metric_lines_strip(m: Seq<ScoreLine>, u: Seq<char>)
    requires
        metrics_plain(m),
    ensures
        strip_ansi(metric_lines(m, true) + u) == metric_lines(m, false) + strip_ansi(u),
        no_escape(metric_lines(m, false)),
    decreases m.len(),
{
    if m.len() == 0 {
        assert(metric_lines(m, true) + u =~= u);
        assert(metric_lines(m, false) + strip_ansi(u) =~= strip_ansi(u));
    } else {
        let init = m.drop_last();
        let l = m.last();
        assert(no_escape(m[m.len() - 1].name@) && no_escape(m[m.len() - 1].score@));
        lemma_score_color_digits(l.color);
        assert forall|k: int| 0 <= k < init.len() implies no_escape(#[trigger] init[k].name@)
            && no_escape(init[k].score@) by {
            assert(init[k] == m[k]);
        }
        lemma_literals_plain();
        lemma_padded_plain(l.name@, 12);
        let pre = "- "@ + padded(l.name@, 12) + " "@;
        lemma_no_escape_add("- "@, padded(l.name@, 12));
        lemma_no_escape_add("- "@ + padded(l.name@, 12), " "@);
        let line_t = pre + colored(l.score@, score_color_code(l.color), true) + "\n"@;
        let line_f = pre + l.score@ + "\n"@;
        lemma_metric_lines_strip(init, line_t + u);
        assert(metric_lines(m, true) + u =~= metric_lines(init, true) + (line_t + u));
        assert(line_t + u =~= pre + (colored(l.score@, score_color_code(l.color), true) + ("\n"@ + u)));
        lemma_strip_plain_prefix(pre, colored(l.score@, score_color_code(l.color), true) + ("\n"@ + u));
        lemma_strip_colored(l.score@, score_color_code(l.color), "\n"@ + u);
        lemma_strip_plain_prefix("\n"@, u);
        assert(metric_lines(m, false) =~= metric_lines(init, false) + line_f);
        assert(metric_lines(init, false) + (pre + (l.score@ + ("\n"@ + strip_ansi(u)))) =~= metric_lines(
            m,
            false,
        ) + strip_ansi(u));
        lemma_no_escape_add(pre, l.score@);
        lemma_no_escape_add(pre + l.score@, "\n"@);
        lemma_no_escape_add(metric_lines(init, false), line_f);
    }
}

proof fn lemma_entry_lines_plain(e: Seq<(Seq<char>, Seq<char>)>)
    requires
        forall|k: int| 0 <= k < e.len() ==> no_escape((#[trigger] e[k]).0) && no_escape(e[k].1),
    ensures
        no_escape(entry_lines(e)),
    decreases e.len(),
{
    if e.len() > 0 {
        let init = e.drop_last();
        assert forall|k: int| 0 <= k < init.len() implies no_escape((#[trigger] init[k]).0)
            && no_escape(init[k].1) by {
            assert(init[k] == e[k]);
        }
        lemma_entry_lines_plain(init);
        lemma_literals_plain();
        let l = e[e.len() - 1];
        lemma_padded_plain(l.0, 16);
        let a = entry_lines(init);
        lemma_no_escape_add(a, "- "@);
        lemma_no_escape_add(a + "- "@, padded(l.0, 16));
        lemma_no_escape_add(a + "- "@ + padded(l.0, 16), " "@);
        lemma_no_escape_add(a + "- "@ + padded(l.0, 16) + " "@, l.1);
        lemma_no_escape_add(a + "- "@ + padded(l.0, 16) + " "@ + l.1, "\n"@);
    }
}

/// The artifacts a comparison lists hold no escape in their paths.
pub open spec fn artifacts_plain(a: CompareArtifacts) -> bool {
    &&& no_escape(a.directory@)
    &&& opt_plain(a.ref_screenshot)
    &&& opt_plain(a.impl_screenshot)
    &&& opt_plain(a.diff_image)
    &&& opt_plain(a.ref_dom_snapshot)
    &&& opt_plain(a.impl_dom_snapshot)
}

proof fn lemma_artifact_block_plain(artifacts: Option<CompareArtifacts>)
    requires
        artifacts matches Some(a) ==> artifacts_plain(a),
    ensures
        no_escape(artifact_block(artifacts)),
{
    if let Some(a) = artifacts {
        reveal_strlit("directory");
        reveal_strlit("refScreenshot");
        reveal_strlit("implScreenshot");
        reveal_strlit("diffImage");
        reveal_strlit("refDomSnapshot");
        reveal_strlit("implDomSnapshot");
        let e = artifact_entries(a);
        assert forall|k: int| 0 <= k < e.len() implies no_escape((#[trigger] e[k]).0) && no_escape(
            e[k].1,
        ) by {}
        lemma_entry_lines_plain(e);
        lemma_literals_plain();
        lemma_no_escape_add("Artifacts:\n"@, entry_lines(e));
    }
}

/// What a comparison shows in its terminal summary holds no escape.
pub open spec fn compare_plain(p: PrettyCompare) -> bool {
    &&& no_escape(p.similarity@)
    &&& no_escape(p.threshold@)
    &&& all_plain(p.issues@)
    &&& metrics_plain(p.metrics@)
    &&& (p.artifacts matches Some(a) ==> artifacts_plain(a))
}

#[verifier::spinoff_prover]
#[verifier::rlimit(50)]
proof fn lemma_compare_header_strip(p: PrettyCompare, u: Seq<char>)
    requires
        compare_plain(p),
    ensures
        strip_ansi(compare_header(p, true) + u) == compare_header(p, false) + strip_ansi(u),
        no_escape(compare_header(p, false)),
{
    lemma_literals_plain();
    let verdict = if p.passed {
        "PASS"@
    } else {
        "FAIL"@
    };
    let vcode = if p.passed {
        "32"@
    } else {
        "31"@
    };
    let mid = " Design parity check\n"@ + "Similarity: "@;
    let tail = " (threshold "@ + p.threshold@ + ")\n"@;
    lemma_no_escape_add(" Design parity check\n"@, "Similarity: "@);
    lemma_no_escape_add(" (threshold "@, p.threshold@);
    lemma_no_escape_add(" (threshold "@ + p.threshold@, ")\n"@);
    let sim_code = score_color_code(p.similarity_color);
    lemma_score_color_digits(p.similarity_color);
    let sim_t = colored(p.similarity@, sim_code, true);
    assert(compare_header(p, true) + u =~= colored(verdict, vcode, true) + (mid + (sim_t + (tail
        + u))));
    lemma_strip_colored(verdict, vcode, mid + (sim_t + (tail + u)));
    lemma_strip_plain_prefix(mid, sim_t + (tail + u));
    lemma_strip_colored(p.similarity@, sim_code, tail + u);
    lemma_strip_plain_prefix(tail, u);
    assert(compare_header(p, false) =~= verdict + mid + p.similarity@ + tail);
    assert(verdict + (mid + (p.similarity@ + (tail + strip_ansi(u)))) =~= compare_header(p, false)
        + strip_ansi(u));
    lemma_no_escape_add(verdict, mid);
    lemma_no_escape_add(verdict + mid, p.similarity@);
    lemma_no_escape_add(verdict + mid + p.similarity@, tail);
}

/// With colors on, the terminal summary of a comparison without its color
/// sequences is the summary with colors off; that summary holds no escape
/// of its own when what it shows holds none.
#[verifier::spinoff_prover]
#[verifier::rlimit(50)]
pub proof fn lemma_pretty_compare_plain(p: PrettyCompare)
    requires
        compare_plain(p),
    ensures
        strip_ansi(pretty_compare_text(p, true)) == pretty_compare_text(p, false),
        no_escape(pretty_compare_text(p, false)),
{
    lemma_literals_plain();
    let issues = issue_block(p.issues@);
    let arts = artifact_block(p.artifacts);
    lemma_artifact_block_plain(p.artifacts);
    if p.issues@.len() > 0 {
        let n: int = if p.issues@.len() > 5 {
            5
        } else {
            p.issues@.len() as int
        };
        let shown = p.issues@.take(n);
        assert forall|k: int| 0 <= k < shown.len() implies no_escape(#[trigger] shown[k]@) by {
            assert(shown[k] == p.issues@[k]);
        }
        lemma_note_lines_plain(shown);
        lemma_no_escape_add("Top issues (max 5):\n"@, note_lines(shown));
    }
    assert(no_escape(issues));
    lemma_metric_lines_strip(p.metrics@, arts);
    if p.metrics@.len() > 0 {
        assert(metric_block(p.metrics@, true) + arts =~= "Metrics:\n"@ + (metric_lines(
            p.metrics@,
            true,
        ) + arts));
        lemma_strip_plain_prefix("Metrics:\n"@, metric_lines(p.metrics@, true) + arts);
        lemma_no_escape_add("Metrics:\n"@, metric_lines(p.metrics@, false));
    } else {
        assert(metric_block(p.metrics@, true) + arts =~= arts);
    }
    let mb_t = metric_block(p.metrics@, true);
    let mb_f = metric_block(p.metrics@, false);
    lemma_strip_plain(arts);
    assert(strip_ansi(mb_t + arts) == mb_f + arts);
    assert(no_escape(mb_f));
    lemma_compare_header_strip(p, issues + (mb_t + arts));
    lemma_strip_plain_prefix(issues, mb_t + arts);
    assert(pretty_compare_text(p, true) =~= compare_header(p, true) + (issues + (mb_t + arts)));
    assert(pretty_compare_text(p, false) =~= compare_header(p, false) + (issues + (mb_f + arts)));
    lemma_no_escape_add(mb_f, arts);
    lemma_no_escape_add(issues, mb_f + arts);
    lemma_no_escape_add(compare_header(p, false), issues + (mb_f + arts));
}

/// What a document shows in its terminal text holds no escape.
pub open spec fn document_plain(d: PrettyDocument) -> bool {
    match d {
        PrettyDocument::Compare(p) => compare_plain(p),
        PrettyDocument::GenerateCode(g) => no_escape(g.input.value@) && (g.summary matches Some(s)
            ==> all_plain(s.top_issues@)),
        PrettyDocument::Quality { score, input, findings } => no_escape(score@) && no_escape(
            input.value@,
        ) && forall|k: int| 0 <= k < findings@.len() ==> no_escape(#[trigger] findings@[k].message@),
        PrettyDocument::Error(e) => opt_plain(e.message) && no_escape(e.error.message@) && opt_plain(
            e.error.remediation,
        ),
    }
}

/// For every kind of document: with colors on, the terminal text without
/// its color sequences is the text with colors off, and that text holds no
/// escape of its own, when what the document shows holds none.
pub proof fn lemma_pretty_plain(d: PrettyDocument)
    requires
        document_plain(d),
    ensures
        strip_ansi(pretty_text(d, true)) == pretty_text(d, false),
        no_escape(pretty_text(d, false)),
{
    match d {
        PrettyDocument::Compare(p) => lemma_pretty_compare_plain(p),
        PrettyDocument::GenerateCode(g) => lemma_pretty_generate_plain(g),
        PrettyDocument::Quality { score, input, findings } => lemma_pretty_quality_plain(
            score@,
            input,
            findings@,
        ),
        PrettyDocument::Error(e) => lemma_pretty_error_plain(e),
    }
}

} // verus!
