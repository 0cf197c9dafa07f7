//! The summary of a comparison: one line per kind of problem that the
//! metrics found, with how often it occurs.
use vstd::prelude::*;

use crate::issues::{
    count_severity, count_severity_exec, lemma_count_severity_total, severity_total, DiffSeverity,
    LayoutDiffKind, TypographyIssue,
};
use crate::text::{
    decimal, is_digit, lemma_decimal_digits, lemma_decimal_then_text, push_decimal, push_str,
    string_from_chars,
};

verus! {

/// What the pixel metric found: whether its score is below the line, the
/// share of the image that differs in whole percent, and the severity of
/// each region.
pub struct PixelSummary {
    pub low_score: bool,
    pub diff_percent: u32,
    pub severities: Vec<DiffSeverity>,
}

/// What the layout metric found: whether its score is below the line, and
/// the kind of each difference.
pub struct LayoutSummary {
    pub low_score: bool,
    pub kinds: Vec<LayoutDiffKind>,
}

/// What the typography metric found: whether its score is below the line,
/// and the issues of each difference.
pub struct TypographySummary {
    pub low_score: bool,
    pub issues: Vec<Vec<TypographyIssue>>,
}

/// What the color metric found: whether its score is below the line, and
/// how many palette differences there are.
pub struct ColorSummary {
    pub low_score: bool,
    pub diff_count: usize,
}

/// What the content metric found: whether its score is below the line, and
/// how many texts are missing and extra.
pub struct ContentSummary {
    pub low_score: bool,
    pub missing: usize,
    pub extra: usize,
}

/// The findings of the metrics that ran.
pub struct SummaryInputs {
    pub pixel: Option<PixelSummary>,
    pub layout: Option<LayoutSummary>,
    pub typography: Option<TypographySummary>,
    pub color: Option<ColorSummary>,
    pub content: Option<ContentSummary>,
}

pub open spec fn is_kind(k: LayoutDiffKind) -> spec_fn(LayoutDiffKind) -> bool {
    |x: LayoutDiffKind| x == k
}

pub open spec fn count_kind(s: Seq<LayoutDiffKind>, k: LayoutDiffKind) -> nat {
    s.filter(is_kind(k)).len()
}

pub open spec fn issue_views(s: Seq<Vec<TypographyIssue>>) -> Seq<Seq<TypographyIssue>> {
    s.map_values(|v: Vec<TypographyIssue>| v@)
}

pub open spec fn count_having(s: Seq<Seq<TypographyIssue>>, i: TypographyIssue) -> nat {
    s.filter(|d: Seq<TypographyIssue>| d.contains(i)).len()
}

/// `line` when `n` is positive.
pub open spec fn count_line(n: nat, tail: Seq<char>) -> Seq<Seq<char>> {
    if n > 0 {
        seq![decimal(n) + tail]
    } else {
        Seq::empty()
    }
}

pub open spec fn pixel_lines(p: PixelSummary) -> Seq<Seq<char>> {
    (if p.low_score {
        seq!["Pixel differences detected in ~"@ + decimal(p.diff_percent as nat) + "% of the image"@]
    } else {
        Seq::empty()
    }) + count_line(
        count_severity(p.severities@, DiffSeverity::Major),
        " major visual difference region(s) found"@,
    )
}

pub open spec fn layout_lines(l: LayoutSummary) -> Seq<Seq<char>> {
    if l.low_score {
        count_line(
            count_kind(l.kinds@, LayoutDiffKind::MissingElement),
            " element(s) missing from implementation"@,
        ) + count_line(
            count_kind(l.kinds@, LayoutDiffKind::ExtraElement),
            " extra element(s) in implementation"@,
        ) + count_line(
            count_kind(l.kinds@, LayoutDiffKind::PositionShift),
            " element(s) shifted from expected position"@,
        )
    } else {
        Seq::empty()
    }
}

pub open spec fn typography_lines(t: TypographySummary) -> Seq<Seq<char>> {
    if t.low_score && t.issues@.len() > 0 {
        count_line(
            count_having(issue_views(t.issues@), TypographyIssue::FontFamilyMismatch),
            " element(s) have mismatched font families"@,
        ) + count_line(
            count_having(issue_views(t.issues@), TypographyIssue::FontSizeDiff),
            " element(s) have incorrect font sizes"@,
        )
    } else {
        Seq::empty()
    }
}

pub open spec fn color_lines(c: ColorSummary) -> Seq<Seq<char>> {
    if c.low_score && c.diff_count > 0 {
        count_line(c.diff_count as nat, " color difference(s) detected in palette"@)
    } else {
        Seq::empty()
    }
}

pub open spec fn content_lines(c: ContentSummary) -> Seq<Seq<char>> {
    if c.low_score {
        count_line(c.missing as nat, " text element(s) missing from implementation"@) + count_line(
            c.extra as nat,
            " extra text element(s) in implementation"@,
        )
    } else {
        Seq::empty()
    }
}

pub open spec fn opt_lines<T>(o: Option<T>, f: spec_fn(T) -> Seq<Seq<char>>) -> Seq<Seq<char>> {
    match o {
        Some(v) => f(v),
        None => Seq::empty(),
    }
}

/// The lines of the summary, in the order of the metrics.
pub open spec fn summary_lines(s: SummaryInputs) -> Seq<Seq<char>> {
    opt_lines(s.pixel, |p: PixelSummary| pixel_lines(p)) + opt_lines(
        s.layout,
        |l: LayoutSummary| layout_lines(l),
    ) + opt_lines(s.typography, |t: TypographySummary| typography_lines(t)) + opt_lines(
        s.color,
        |c: ColorSummary| color_lines(c),
    ) + opt_lines(s.content, |c: ContentSummary| content_lines(c))
}

pub open spec fn line_views(v: Seq<String>) -> Seq<Seq<char>> {
    v.map_values(|s: String| s@)
}

fn push_line(out: &mut Vec<String>, text: Vec<char>)
    ensures
        line_views(final(out)@) == line_views(old(out)@).push(text@),
{
    out.push(string_from_chars(text.as_slice()));
    proof {
        assert(line_views(out@) =~= line_views(old(out)@).push(text@));
    }
}

fn push_count_line(out: &mut Vec<String>, n: usize, tail: &str)
    ensures
        line_views(final(out)@) == line_views(old(out)@) + count_line(n as nat, tail@),
{
    if n > 0 {
        let mut v: Vec<char> = Vec::new();
        push_decimal(&mut v, n as u64);
        push_str(&mut v, tail);
        push_line(out, v);
        proof {
            assert(line_views(out@) =~= line_views(old(out)@) + count_line(n as nat, tail@));
        }
    } else {
        proof {
            assert(line_views(out@) =~= line_views(old(out)@) + count_line(n as nat, tail@));
        }
    }
}

fn count_kind_exec(s: &Vec<LayoutDiffKind>, k: LayoutDiffKind) -> (n: usize)
    ensures
        n == count_kind(s@, k),
{
    let mut n: usize = 0;
    for i in 0..s.len()
        invariant
            n == s@.take(i as int).filter(is_kind(k)).len(),
            n <= i,
    {
        proof {
            assert(s@.take(i + 1).drop_last() =~= s@.take(i as int));
            reveal_with_fuel(Seq::<_>::filter, 1);
        }
        if s[i] == k {
            n = n + 1;
        }
    }
    proof {
        assert(s@.take(s@.len() as int) =~= s@);
    }
    n
}

fn has_issue(v: &Vec<TypographyIssue>, x: TypographyIssue) -> (b: bool)
    ensures
        b == v@.contains(x),
{
    for i in 0..v.len()
        invariant
            forall|j: int| 0 <= j < i ==> v@[j] != x,
    {
        if v[i] == x {
            return true;
        }
    }
    false
}

fn count_having_exec(s: &Vec<Vec<TypographyIssue>>, x: TypographyIssue) -> (n: usize)
    ensures
        n == count_having(issue_views(s@), x),
{
    let ghost v = issue_views(s@);
    let ghost pred = |d: Seq<TypographyIssue>| d.contains(x);
    let mut n: usize = 0;
    for i in 0..s.len()
        invariant
            v == issue_views(s@),
            pred == (|d: Seq<TypographyIssue>| d.contains(x)),
            n == v.take(i as int).filter(pred).len(),
            n <= i,
    {
        proof {
            assert(v.take(i + 1).drop_last() =~= v.take(i as int));
            assert(v.take(i + 1).last() == s@[i as int]@);
            reveal_with_fuel(Seq::<_>::filter, 1);
        }
        if has_issue(&s[i], x) {
            n = n + 1;
        }
    }
    proof {
        assert(v.take(s@.len() as int) =~= v);
    }
    n
}

fn append_pixel(out: &mut Vec<String>, o: &Option<PixelSummary>)
    ensures
        line_views(final(out)@) == line_views(old(out)@) + opt_lines(
            *o,
            |p: PixelSummary| pixel_lines(p),
        ),
{
    let ghost start = line_views(out@);
    if let Some(p) = o {
        if p.low_score {
            let mut v: Vec<char> = Vec::new();
            push_str(&mut v, "Pixel differences detected in ~");
            push_decimal(&mut v, p.diff_percent as u64);
            push_str(&mut v, "% of the image");
            push_line(out, v);
        }
        let major = count_severity_exec(&p.severities, DiffSeverity::Major);
        push_count_line(out, major, " major visual difference region(s) found");
    }
    proof {
        assert(line_views(out@) =~= start + opt_lines(*o, |p: PixelSummary| pixel_lines(p)));
    }
}

fn append_layout(out: &mut Vec<String>, o: &Option<LayoutSummary>)
    ensures
        line_views(final(out)@) == line_views(old(out)@) + opt_lines(
            *o,
            |l: LayoutSummary| layout_lines(l),
        ),
{
    let ghost start = line_views(out@);
    if let Some(l) = o {
        if l.low_score {
            let missing = count_kind_exec(&l.kinds, LayoutDiffKind::MissingElement);
            let extra = count_kind_exec(&l.kinds, LayoutDiffKind::ExtraElement);
            let shifted = count_kind_exec(&l.kinds, LayoutDiffKind::PositionShift);
            push_count_line(out, missing, " element(s) missing from implementation");
            push_count_line(out, extra, " extra element(s) in implementation");
            push_count_line(out, shifted, " element(s) shifted from expected position");
        }
    }
    proof {
        assert(line_views(out@) =~= start + opt_lines(*o, |l: LayoutSummary| layout_lines(l)));
    }
}

fn append_typography(out: &mut Vec<String>, o: &Option<TypographySummary>)
    ensures
        line_views(final(out)@) == line_views(old(out)@) + opt_lines(
            *o,
            |t: TypographySummary| typography_lines(t),
        ),
{
    let ghost start = line_views(out@);
    if let Some(t) = o {
        if t.low_score && t.issues.len() > 0 {
            let font = count_having_exec(&t.issues, TypographyIssue::FontFamilyMismatch);
            let size = count_having_exec(&t.issues, TypographyIssue::FontSizeDiff);
            push_count_line(out, font, " element(s) have mismatched font families");
            push_count_line(out, size, " element(s) have incorrect font sizes");
        }
    }
    proof {
        assert(line_views(out@) =~= start + opt_lines(
            *o,
            |t: TypographySummary| typography_lines(t),
        ));
    }
}

fn append_color(out: &mut Vec<String>, o: &Option<ColorSummary>)
    ensures
        line_views(final(out)@) == line_views(old(out)@) + opt_lines(
            *o,
            |c: ColorSummary| color_lines(c),
        ),
{
    let ghost start = line_views(out@);
    if let Some(c) = o {
        if c.low_score && c.diff_count > 0 {
            push_count_line(out, c.diff_count, " color difference(s) detected in palette");
        }
    }
    proof {
        assert(line_views(out@) =~= start + opt_lines(*o, |c: ColorSummary| color_lines(c)));
    }
}

fn append_content(out: &mut Vec<String>, o: &Option<ContentSummary>)
    ensures
        line_views(final(out)@) == line_views(old(out)@) + opt_lines(
            *o,
            |c: ContentSummary| content_lines(c),
        ),
{
    let ghost start = line_views(out@);
    if let Some(c) = o {
        if c.low_score {
            push_count_line(out, c.missing, " text element(s) missing from implementation");
            push_count_line(out, c.extra, " extra text element(s) in implementation");
        }
    }
    proof {
        assert(line_views(out@) =~= start + opt_lines(*o, |c: ContentSummary| content_lines(c)));
    }
}

/// The tail of the summary line about shifted elements.
pub open spec fn shifted_tail() -> Seq<char> {
    " element(s) shifted from expected position"@
}

/// How many layout differences are of the given kind.
pub open spec fn kind_total(kinds: Seq<LayoutDiffKind>, k: LayoutDiffKind) -> nat {
    kinds.filter(|x: LayoutDiffKind| x == k).len()
}

/// How many layout differences are position shifts.
pub open spec fn shift_count(kinds: Seq<LayoutDiffKind>) -> nat {
    kind_total(kinds, LayoutDiffKind::PositionShift)
}

/// How many typography differences list the issue.
pub open spec fn having_total(issues: Seq<Vec<TypographyIssue>>, i: TypographyIssue) -> nat {
    issues.filter(|d: Vec<TypographyIssue>| d@.contains(i)).len()
}

proof fn lemma_count_line_has(k: nat, tail: Seq<char>, n: nat, u: Seq<char>)
    requires
        tail.len() > 0,
        !is_digit(tail[0]),
        u.len() > 0,
        !is_digit(u[0]),
    ensures
        count_line(k, tail).contains(decimal(n) + u) <==> (k > 0 && k == n && tail == u),
{
    let x = decimal(n) + u;
    if k > 0 {
        assert(count_line(k, tail) =~= seq![decimal(k) + tail]);
        if count_line(k, tail).contains(x) {
            assert(count_line(k, tail)[0] == x);
            lemma_decimal_then_text(k, tail, n, u);
        }
        if k == n && tail == u {
            assert(count_line(k, tail)[0] == x);
        }
    }
}

proof fn lemma_kind_total(kinds: Seq<LayoutDiffKind>, k: LayoutDiffKind)
    ensures
        count_kind(kinds, k) == kind_total(kinds, k),
{
    assert(is_kind(k) =~= (|x: LayoutDiffKind| x == k));
}

proof fn lemma_having_total(issues: Seq<Vec<TypographyIssue>>, i: TypographyIssue)
    ensures
        count_having(issue_views(issues), i) == having_total(issues, i),
    decreases issues.len(),
{
    reveal_with_fuel(Seq::<_>::filter, 1);
    if issues.len() > 0 {
        lemma_having_total(issues.drop_last(), i);
        assert(issue_views(issues).drop_last() =~= issue_views(issues.drop_last()));
    }
}

/// Which summary line a text ending in `u` can be: the count line of each
/// kind of finding whose tail is `u`, with its count.
proof fn lemma_summary_count_lines(s: SummaryInputs, n: nat, u: Seq<char>)
    requires
        u.len() > 0,
        u[0] == ' ',
    ensures
        summary_lines(s).contains(decimal(n) + u) <==> n > 0 && {
        ||| (u == " major visual difference region(s) found"@ && (s.pixel matches Some(p) && n == severity_total(
            p.severities@,
            DiffSeverity::Major,
        )))
        ||| (u == " element(s) missing from implementation"@ && (s.layout matches Some(l) && l.low_score && n
            == kind_total(l.kinds@, LayoutDiffKind::MissingElement)))
        ||| (u == " extra element(s) in implementation"@ && (s.layout matches Some(l) && l.low_score && n
            == kind_total(l.kinds@, LayoutDiffKind::ExtraElement)))
        ||| (u == " element(s) shifted from expected position"@ && (s.layout matches Some(l) && l.low_score && n
            == kind_total(l.kinds@, LayoutDiffKind::PositionShift)))
        ||| (u == " element(s) have mismatched font families"@ && (s.typography matches Some(t) && t.low_score
            && t.issues@.len() > 0 && n == having_total(t.issues@, TypographyIssue::FontFamilyMismatch)))
        ||| (u == " element(s) have incorrect font sizes"@ && (s.typography matches Some(t) && t.low_score
            && t.issues@.len() > 0 && n == having_total(t.issues@, TypographyIssue::FontSizeDiff)))
        ||| (u == " color difference(s) detected in palette"@ && (s.color matches Some(c) && c.low_score && n == c.diff_count))
        ||| (u == " text element(s) missing from implementation"@ && (s.content matches Some(c) && c.low_score && n
            == c.missing))
        ||| (u == " extra text element(s) in implementation"@ && (s.content matches Some(c) && c.low_score && n
            == c.extra))
        },
{
    broadcast use vstd::seq_lib::lemma_seq_concat_contains_all_elements;

    reveal_strlit(" major visual difference region(s) found");
    reveal_strlit(" element(s) missing from implementation");
    reveal_strlit(" extra element(s) in implementation");
    reveal_strlit(" element(s) shifted from expected position");
    reveal_strlit(" element(s) have mismatched font families");
    reveal_strlit(" element(s) have incorrect font sizes");
    reveal_strlit(" color difference(s) detected in palette");
    reveal_strlit(" text element(s) missing from implementation");
    reveal_strlit(" extra text element(s) in implementation");
    reveal_strlit("Pixel differences detected in ~");
    let x = decimal(n) + u;
    lemma_decimal_digits(n);
    assert(is_digit(x[0]));
    assert(!is_digit(u[0]));
    if let Some(p) = s.pixel {
        lemma_count_severity_total(p.severities@, DiffSeverity::Major);
        lemma_count_line_has(
            count_severity(p.severities@, DiffSeverity::Major),
            " major visual difference region(s) found"@,
            n,
            u,
        );
        if p.low_score {
            let line = "Pixel differences detected in ~"@ + decimal(p.diff_percent as nat)
                + "% of the image"@;
            assert(line[0] == 'P');
            if seq![line].contains(x) {
                assert(seq![line][0] == x);
            }
        }
        assert(pixel_lines(p).contains(x) <==> (n > 0 && n == severity_total(
            p.severities@,
            DiffSeverity::Major,
        ) && u == " major visual difference region(s) found"@));
    }
    if let Some(l) = s.layout {
        lemma_kind_total(l.kinds@, LayoutDiffKind::MissingElement);
        lemma_kind_total(l.kinds@, LayoutDiffKind::ExtraElement);
        lemma_kind_total(l.kinds@, LayoutDiffKind::PositionShift);
        lemma_count_line_has(
            count_kind(l.kinds@, LayoutDiffKind::MissingElement),
            " element(s) missing from implementation"@,
            n,
            u,
        );
        lemma_count_line_has(
            count_kind(l.kinds@, LayoutDiffKind::ExtraElement),
            " extra element(s) in implementation"@,
            n,
            u,
        );
        lemma_count_line_has(
            count_kind(l.kinds@, LayoutDiffKind::PositionShift),
            " element(s) shifted from expected position"@,
            n,
            u,
        );
    }
    if let Some(t) = s.typography {
        lemma_having_total(t.issues@, TypographyIssue::FontFamilyMismatch);
        lemma_having_total(t.issues@, TypographyIssue::FontSizeDiff);
        lemma_count_line_has(
            count_having(issue_views(t.issues@), TypographyIssue::FontFamilyMismatch),
            " element(s) have mismatched font families"@,
            n,
            u,
        );
        lemma_count_line_has(
            count_having(issue_views(t.issues@), TypographyIssue::FontSizeDiff),
            " element(s) have incorrect font sizes"@,
            n,
            u,
        );
    }
    if let Some(c) = s.color {
        lemma_count_line_has(c.diff_count as nat, " color difference(s) detected in palette"@, n, u);
    }
    if let Some(c) = s.content {
        lemma_count_line_has(c.missing as nat, " text element(s) missing from implementation"@, n, u);
        lemma_count_line_has(c.extra as nat, " extra text element(s) in implementation"@, n, u);
    }
}

/// A summary of a layout that scored low has the line `"<n> element(s)
/// shifted from expected position"` exactly when `n` of its differences are
/// position shifts and `n` is positive; a layout that did not score low has
/// no such line.
pub proof fn lemma_shifted_line(s: SummaryInputs, n: nat)
    requires
        s.layout is Some,
    ensures
        summary_lines(s).contains(decimal(n) + shifted_tail()) <==> (s.layout->0.low_score && n > 0
            && n == shift_count(s.layout->0.kinds@)),
{
    reveal_strlit(" major visual difference region(s) found");
    reveal_strlit(" element(s) missing from implementation");
    reveal_strlit(" extra element(s) in implementation");
    reveal_strlit(" element(s) shifted from expected position");
    reveal_strlit(" element(s) have mismatched font families");
    reveal_strlit(" element(s) have incorrect font sizes");
    reveal_strlit(" color difference(s) detected in palette");
    reveal_strlit(" text element(s) missing from implementation");
    reveal_strlit(" extra text element(s) in implementation");
    lemma_summary_count_lines(s, n, shifted_tail());
}

/// Each count line of the summary carries the number of findings of its
/// kind: `"<n>" + tail` is a line exactly when the metric of that tail ran
/// (and, but for the pixel count, scored low), `n` of its findings are of
/// that kind, and `n` is positive. The kinds: major pixel regions, missing,
/// extra and shifted layout elements, font family and font size
/// differences, palette differences, missing and extra texts.
pub proof fn lemma_summary_counts(s: SummaryInputs, n: nat)
    ensures
        summary_lines(s).contains(decimal(n) + " major visual difference region(s) found"@) <==> (n > 0
            && (s.pixel matches Some(p) && n == severity_total(p.severities@, DiffSeverity::Major))),
        summary_lines(s).contains(decimal(n) + " element(s) missing from implementation"@) <==> (n > 0
            && (s.layout matches Some(l) && l.low_score && n == kind_total(
            l.kinds@,
            LayoutDiffKind::MissingElement,
        ))),
        summary_lines(s).contains(decimal(n) + " extra element(s) in implementation"@) <==> (n > 0
            && (s.layout matches Some(l) && l.low_score && n == kind_total(
            l.kinds@,
            LayoutDiffKind::ExtraElement,
        ))),
        summary_lines(s).contains(decimal(n) + " element(s) shifted from expected position"@) <==> (n > 0
            && (s.layout matches Some(l) && l.low_score && n == kind_total(
            l.kinds@,
            LayoutDiffKind::PositionShift,
        ))),
        summary_lines(s).contains(decimal(n) + " element(s) have mismatched font families"@) <==> (n > 0
            && (s.typography matches Some(t) && t.low_score && n == having_total(
            t.issues@,
            TypographyIssue::FontFamilyMismatch,
        ))),
        summary_lines(s).contains(decimal(n) + " element(s) have incorrect font sizes"@) <==> (n > 0
            && (s.typography matches Some(t) && t.low_score && n == having_total(
            t.issues@,
            TypographyIssue::FontSizeDiff,
        ))),
        summary_lines(s).contains(decimal(n) + " color difference(s) detected in palette"@) <==> (n > 0
            && (s.color matches Some(c) && c.low_score && n == c.diff_count)),
        summary_lines(s).contains(decimal(n) + " text element(s) missing from implementation"@) <==> (n > 0
            && (s.content matches Some(c) && c.low_score && n == c.missing)),
        summary_lines(s).contains(decimal(n) + " extra text element(s) in implementation"@) <==> (n > 0
            && (s.content matches Some(c) && c.low_score && n == c.extra)),
{
    reveal_strlit(" major visual difference region(s) found");
    reveal_strlit(" element(s) missing from implementation");
    reveal_strlit(" extra element(s) in implementation");
    reveal_strlit(" element(s) shifted from expected position");
    reveal_strlit(" element(s) have mismatched font families");
    reveal_strlit(" element(s) have incorrect font sizes");
    reveal_strlit(" color difference(s) detected in palette");
    reveal_strlit(" text element(s) missing from implementation");
    reveal_strlit(" extra text element(s) in implementation");
    lemma_summary_count_lines(s, n, " major visual difference region(s) found"@);
    lemma_summary_count_lines(s, n, " element(s) missing from implementation"@);
    lemma_summary_count_lines(s, n, " extra element(s) in implementation"@);
    lemma_summary_count_lines(s, n, " element(s) shifted from expected position"@);
    lemma_summary_count_lines(s, n, " element(s) have mismatched font families"@);
    lemma_summary_count_lines(s, n, " element(s) have incorrect font sizes"@);
    lemma_summary_count_lines(s, n, " color difference(s) detected in palette"@);
    lemma_summary_count_lines(s, n, " text element(s) missing from implementation"@);
    lemma_summary_count_lines(s, n, " extra text element(s) in implementation"@);
    assert(" major visual difference region(s) found"@[1] == 'm' && " color difference(s) detected in palette"@[1] == 'c' && " extra text element(s) in implementation"@[1] == 'e');
    assert(" major visual difference region(s) found"@ != " color difference(s) detected in palette"@ && " major visual difference region(s) found"@ != " extra text element(s) in implementation"@ && " color difference(s) detected in palette"@ != " extra text element(s) in implementation"@);
    if let Some(t) = s.typography {
        if t.issues@.len() == 0 {
            reveal_with_fuel(Seq::<_>::filter, 1);
            assert(having_total(t.issues@, TypographyIssue::FontFamilyMismatch) == 0);
            assert(having_total(t.issues@, TypographyIssue::FontSizeDiff) == 0);
        }
    }
}

/// The lines of the summary of a comparison: for each metric that ran, in
/// order, what it found and how often.
pub fn summary_issue_lines(s: &SummaryInputs) -> (r: Vec<String>)
    ensures
        line_views(r@) == summary_lines(*s),
{
    let mut out: Vec<String> = Vec::new();
    append_pixel(&mut out, &s.pixel);
    append_layout(&mut out, &s.layout);
    append_typography(&mut out, &s.typography);
    append_color(&mut out, &s.color);
    append_content(&mut out, &s.content);
    proof {
        assert(line_views(out@) =~= summary_lines(*s));
    }
    out
}

} // verus!
