//! Ranking the differences that the metrics found into a short list of
//! human-readable issues.
use vstd::prelude::*;
use vstd::multiset::Multiset;

use crate::text::{decimal, lemma_decimal_then_text, push_all, push_decimal, push_str, string_from_chars};

verus! {

broadcast use vstd::seq_lib::group_to_multiset_ensures;

// ---------------------------------------------------------------------------
// What the metrics report
// ---------------------------------------------------------------------------

/// Severity level of a difference.
#[derive(Debug, Clone, Copy, PartialEq, Eq, Structural)]
pub enum DiffSeverity {
    Minor,
    Moderate,
    Major,
}

/// Reason for a pixel difference.
#[derive(Debug, Clone, Copy, PartialEq, Eq, Structural)]
pub enum PixelDiffReason {
    PixelChange,
    AntiAliasing,
    RenderingNoise,
}

/// Type of layout difference.
#[derive(Debug, Clone, Copy, PartialEq, Eq, Structural)]
pub enum LayoutDiffKind {
    MissingElement,
    ExtraElement,
    PositionShift,
    SizeChange,
}

/// Type of typography issue.
#[derive(Debug, Clone, Copy, PartialEq, Eq, Structural)]
pub enum TypographyIssue {
    FontFamilyMismatch,
    FontSizeDiff,
    FontWeightDiff,
    LineHeightDiff,
    LetterSpacingDiff,
}

/// Type of color difference.
#[derive(Debug, Clone, Copy, PartialEq, Eq, Structural)]
pub enum ColorDiffKind {
    PrimaryColorShift,
    AccentColorShift,
    BackgroundColorShift,
}

/// A layout difference, as far as the issue list reads it.
pub struct LayoutFinding {
    pub kind: LayoutDiffKind,
    pub element_type: Option<String>,
    pub label: Option<String>,
}

/// A typography difference between two text elements.
pub struct TypographyFinding {
    pub element_id_ref: Option<String>,
    pub element_id_impl: Option<String>,
    pub issues: Vec<TypographyIssue>,
}

/// A color difference between the two palettes.
pub struct ColorFinding {
    pub kind: ColorDiffKind,
    pub ref_color: String,
    pub impl_color: String,
}

/// Texts found in only one of the two views.
pub struct ContentFinding {
    pub missing_text: Vec<String>,
    pub extra_text: Vec<String>,
}

/// The findings of each metric that ran (`None` where it did not run):
/// the severities of the pixel diff regions, and the diffs of the others.
pub struct IssueInputs {
    pub pixel: Option<Vec<DiffSeverity>>,
    pub layout: Option<Vec<LayoutFinding>>,
    pub typography: Option<Vec<TypographyFinding>>,
    pub color: Option<Vec<ColorFinding>>,
    pub content: Option<ContentFinding>,
}

// ---------------------------------------------------------------------------
// Issues and their order
// ---------------------------------------------------------------------------

/// An issue: severity rank (0 major, 1 moderate, 2 minor), priority rank of
/// the metric (pixel, layout, content, color, typography), and message.
pub type Issue = (nat, nat, Seq<char>);

pub open spec fn char_lt(a: char, b: char) -> bool {
    a < b
}

/// `Ord` of `String`: lexicographic on the characters (which orders UTF-8
/// bytes the same way).
pub open spec fn text_le(a: Seq<char>, b: Seq<char>) -> bool
    decreases a.len(),
{
    if a.len() == 0 {
        true
    } else if b.len() == 0 {
        false
    } else if char_lt(a[0], b[0]) {
        true
    } else if char_lt(b[0], a[0]) {
        false
    } else {
        text_le(a.drop_first(), b.drop_first())
    }
}

/// Issues are ordered by severity rank, then priority rank, then message.
pub open spec fn issue_le(x: Issue, y: Issue) -> bool {
    ||| x.0 < y.0
    ||| x.0 == y.0 && x.1 < y.1
    ||| x.0 == y.0 && x.1 == y.1 && text_le(x.2, y.2)
}

pub open spec fn sorted_issues(s: Seq<Issue>) -> bool {
    forall|i: int, j: int| 0 <= i < j < s.len() ==> issue_le(#[trigger] s[i], #[trigger] s[j])
}

pub proof fn lemma_text_le_total(a: Seq<char>, b: Seq<char>)
    ensures
        text_le(a, b) || text_le(b, a),
    decreases a.len(),
{
    if a.len() > 0 && b.len() > 0 && !char_lt(a[0], b[0]) && !char_lt(b[0], a[0]) {
        lemma_text_le_total(a.drop_first(), b.drop_first());
    }
}

pub proof fn lemma_text_le_trans(a: Seq<char>, b: Seq<char>, c: Seq<char>)
    requires
        text_le(a, b),
        text_le(b, c),
    ensures
        text_le(a, c),
    decreases a.len(),
{
    if a.len() > 0 && b.len() > 0 && c.len() > 0 {
        if !char_lt(a[0], b[0]) && !char_lt(b[0], c[0]) {
            lemma_text_le_trans(a.drop_first(), b.drop_first(), c.drop_first());
        }
    }
}

pub proof fn lemma_text_le_antisym(a: Seq<char>, b: Seq<char>)
    requires
        text_le(a, b),
        text_le(b, a),
    ensures
        a == b,
    decreases a.len(),
{
    if a.len() == 0 {
        assert(b.len() == 0);
        assert(a =~= b);
    } else {
        lemma_text_le_antisym(a.drop_first(), b.drop_first());
        assert(a =~= seq![a[0]] + a.drop_first());
        assert(b =~= seq![b[0]] + b.drop_first());
        assert(b.len() > 0);
        assert(a[0] == b[0]);
        assert(a.drop_first() == b.drop_first());
    }
}

pub proof fn lemma_issue_le_total(x: Issue, y: Issue)
    ensures
        issue_le(x, y) || issue_le(y, x),
{
    lemma_text_le_total(x.2, y.2);
}

pub proof fn lemma_issue_le_trans(x: Issue, y: Issue, z: Issue)
    requires
        issue_le(x, y),
        issue_le(y, z),
    ensures
        issue_le(x, z),
{
    if x.0 == y.0 && x.1 == y.1 && y.0 == z.0 && y.1 == z.1 {
        lemma_text_le_trans(x.2, y.2, z.2);
    }
}

pub proof fn lemma_issue_le_antisym(x: Issue, y: Issue)
    requires
        issue_le(x, y),
        issue_le(y, x),
    ensures
        x == y,
{
    lemma_text_le_antisym(x.2, y.2);
}

/// The order on issues leaves no choice: two sorted arrangements of the same
/// issues are the same sequence, so the ranked list is determined by the
/// issues alone.
pub proof fn lemma_issue_order_unique(a: Seq<Issue>, b: Seq<Issue>)
    requires
        sorted_issues(a),
        sorted_issues(b),
        a.to_multiset() == b.to_multiset(),
    ensures
        a == b,
    decreases a.len(),
{
    a.to_multiset_ensures();
    b.to_multiset_ensures();
    if a.len() == 0 {
        assert(b.len() == 0);
        assert(a =~= b);
    } else {
        assert(b.len() == a.len());
        assert(a.contains(a[0]));
        assert(b.to_multiset().count(a[0]) > 0);
        let i = choose|i: int| 0 <= i < b.len() && b[i] == a[0];
        assert(b.contains(b[0]));
        assert(a.to_multiset().count(b[0]) > 0);
        let j = choose|j: int| 0 <= j < a.len() && a[j] == b[0];
        if i > 0 {
            assert(issue_le(b[0], b[i]));
        } else {
            lemma_issue_le_total(b[0], b[0]);
        }
        if j > 0 {
            assert(issue_le(a[0], a[j]));
        } else {
            lemma_issue_le_total(a[0], a[0]);
        }
        assert(issue_le(a[0], b[0]));
        assert(issue_le(b[0], a[0]));
        lemma_issue_le_antisym(a[0], b[0]);
        assert(a.remove(0) =~= a.drop_first());
        assert(b.remove(0) =~= b.drop_first());
        assert(a.drop_first().to_multiset() == a.to_multiset().remove(a[0]));
        assert(b.drop_first().to_multiset() == b.to_multiset().remove(b[0]));
        assert forall|p: int, q: int| 0 <= p < q < a.drop_first().len() implies issue_le(
            #[trigger] a.drop_first()[p],
            #[trigger] a.drop_first()[q],
        ) by {
            assert(issue_le(a[p + 1], a[q + 1]));
        }
        assert forall|p: int, q: int| 0 <= p < q < b.drop_first().len() implies issue_le(
            #[trigger] b.drop_first()[p],
            #[trigger] b.drop_first()[q],
        ) by {
            assert(issue_le(b[p + 1], b[q + 1]));
        }
        lemma_issue_order_unique(a.drop_first(), b.drop_first());
        assert(a =~= seq![a[0]] + a.drop_first());
        assert(b =~= seq![b[0]] + b.drop_first());
    }
}

// ---------------------------------------------------------------------------
// Messages
// ---------------------------------------------------------------------------

pub open spec fn opt_text(o: Option<String>) -> Option<Seq<char>> {
    match o {
        Some(s) => Some(s@),
        None => None,
    }
}

pub open spec fn texts(v: Seq<String>) -> Seq<Seq<char>> {
    v.map_values(|s: String| s@)
}

pub open spec fn count_severity(s: Seq<DiffSeverity>, x: DiffSeverity) -> nat
    decreases s.len(),
{
    if s.len() == 0 {
        0
    } else {
        count_severity(s.drop_last(), x) + if s.last() == x {
            1nat
        } else {
            0nat
        }
    }
}

pub open spec fn plural(n: nat) -> Seq<char> {
    if n == 1 {
        Seq::<char>::empty()
    } else {
        "s"@
    }
}

/// `"<n> <word> pixel difference region[s] detected."` at the given rank,
/// when `n` is positive.
pub open spec fn pixel_count_issue(n: nat, word: Seq<char>, rank: nat) -> Seq<Issue> {
    if n > 0 {
        seq![
            (
                rank,
                0nat,
                decimal(n) + " "@ + word + " pixel difference region"@ + plural(n)
                    + " detected."@,
            ),
        ]
    } else {
        Seq::<Issue>::empty()
    }
}

pub open spec fn pixel_issues(s: Seq<DiffSeverity>) -> Seq<Issue> {
    pixel_count_issue(count_severity(s, DiffSeverity::Major), "major"@, 0)
        + pixel_count_issue(count_severity(s, DiffSeverity::Moderate), "moderate"@, 1)
        + pixel_count_issue(count_severity(s, DiffSeverity::Minor), "minor"@, 2)
}

pub open spec fn element_desc(label: Option<Seq<char>>, element_type: Option<Seq<char>>) -> Seq<
    char,
> {
    match label {
        Some(l) => "'"@ + l + "'"@,
        None => match element_type {
            Some(t) => t,
            None => "element"@,
        },
    }
}

pub open spec fn layout_issue(f: LayoutFinding) -> Issue {
    let d = element_desc(opt_text(f.label), opt_text(f.element_type));
    match f.kind {
        LayoutDiffKind::MissingElement => (0, 1, d + " is missing in the implementation."@),
        LayoutDiffKind::ExtraElement => (
            1,
            1,
            d + " appears in implementation but not in reference."@,
        ),
        LayoutDiffKind::PositionShift => (1, 1, d + " is shifted from its expected position."@),
        LayoutDiffKind::SizeChange => (1, 1, d + " has a different size than the reference."@),
    }
}

pub open spec fn layout_issues(s: Seq<LayoutFinding>) -> Seq<Issue> {
    s.map_values(|f: LayoutFinding| layout_issue(f))
}

pub open spec fn issue_name(i: TypographyIssue) -> Seq<char> {
    match i {
        TypographyIssue::FontFamilyMismatch => "font family"@,
        TypographyIssue::FontSizeDiff => "font size"@,
        TypographyIssue::FontWeightDiff => "font weight"@,
        TypographyIssue::LineHeightDiff => "line height"@,
        TypographyIssue::LetterSpacingDiff => "letter spacing"@,
    }
}

/// The names joined with `", "` between them.
pub open spec fn join_names(s: Seq<TypographyIssue>) -> Seq<char>
    decreases s.len(),
{
    if s.len() == 0 {
        Seq::<char>::empty()
    } else if s.len() == 1 {
        issue_name(s[0])
    } else {
        join_names(s.drop_last()) + ", "@ + issue_name(s.last())
    }
}

pub open spec fn typography_issue(f: TypographyFinding) -> Issue {
    let id = match opt_text(f.element_id_ref) {
        Some(r) => r,
        None => match opt_text(f.element_id_impl) {
            Some(i) => i,
            None => "text element"@,
        },
    };
    let msg = if f.issues@.len() == 1 {
        id + " has a different "@ + issue_name(f.issues@[0]) + " than the design."@
    } else {
        id + " has different "@ + join_names(f.issues@) + " than the design."@
    };
    let rank: nat = if f.issues@.contains(TypographyIssue::FontFamilyMismatch) {
        0
    } else if f.issues@.contains(TypographyIssue::FontSizeDiff) || f.issues@.contains(
        TypographyIssue::FontWeightDiff,
    ) {
        1
    } else {
        2
    };
    (rank, 4, msg)
}

/// One issue for each diff that lists any typography issue.
pub open spec fn typography_issues(s: Seq<TypographyFinding>) -> Seq<Issue>
    decreases s.len(),
{
    if s.len() == 0 {
        Seq::<Issue>::empty()
    } else {
        typography_issues(s.drop_last()) + if s.last().issues@.len() == 0 {
            Seq::<Issue>::empty()
        } else {
            seq![typography_issue(s.last())]
        }
    }
}

pub open spec fn color_issue(f: ColorFinding) -> Issue {
    let (desc, rank): (Seq<char>, nat) = match f.kind {
        ColorDiffKind::PrimaryColorShift => ("Primary color shift"@, 0),
        ColorDiffKind::AccentColorShift => ("Accent color shift"@, 0),
        ColorDiffKind::BackgroundColorShift => ("Background color shift"@, 2),
    };
    (rank, 3, desc + " differs: expected "@ + f.ref_color@ + ", got "@ + f.impl_color@ + "."@)
}

pub open spec fn color_issues(s: Seq<ColorFinding>) -> Seq<Issue> {
    s.map_values(|f: ColorFinding| color_issue(f))
}

/// `char::len_utf8`.
pub open spec fn utf8_len(c: char) -> nat {
    if (c as u32) < 0x80 {
        1
    } else if (c as u32) < 0x800 {
        2
    } else if (c as u32) < 0x10000 {
        3
    } else {
        4
    }
}

/// `str::len`: the length of the UTF-8 encoding.
pub open spec fn byte_len(s: Seq<char>) -> nat
    decreases s.len(),
{
    if s.len() == 0 {
        0
    } else {
        byte_len(s.drop_last()) + utf8_len(s.last())
    }
}

/// The longest prefix whose UTF-8 encoding fits in `limit` bytes.
pub open spec fn prefix_within(s: Seq<char>, limit: nat) -> Seq<char>
    decreases s.len(),
{
    if s.len() == 0 || utf8_len(s[0]) > limit {
        Seq::<char>::empty()
    } else {
        seq![s[0]] + prefix_within(s.drop_first(), (limit - utf8_len(s[0])) as nat)
    }
}

/// Byte 47 of the text is a character boundary, so that the first 47 bytes
/// can be sliced off.
pub open spec fn boundary_at_47(s: Seq<char>) -> bool {
    byte_len(prefix_within(s, 47)) == 47
}

/// Texts over 50 bytes keep their first 47 bytes and get `...`.
pub open spec fn shorten(s: Seq<char>) -> Seq<char> {
    if byte_len(s) > 50 {
        prefix_within(s, 47) + "..."@
    } else {
        s
    }
}

/// When the texts are listed one by one (at most three of them), every text
/// that would be shortened can be cut at byte 47; a longer list is only
/// counted.
pub open spec fn shortenable(v: Seq<String>) -> bool {
    v.len() <= 3 ==> forall|i: int|
        0 <= i < v.len() && byte_len(#[trigger] v[i]@) > 50 ==> boundary_at_47(v[i]@)
}

pub open spec fn missing_issue(t: Seq<char>) -> Issue {
    (0, 2, "Text '"@ + shorten(t) + "' is missing in the implementation."@)
}

pub open spec fn extra_issue(t: Seq<char>) -> Issue {
    (2, 2, "Extra text '"@ + shorten(t) + "' appears in implementation but not in design."@)
}

pub open spec fn content_issues(f: ContentFinding) -> Seq<Issue> {
    let m = texts(f.missing_text@);
    let e = texts(f.extra_text@);
    (if m.len() == 0 {
        Seq::<Issue>::empty()
    } else if m.len() <= 3 {
        m.map_values(|t: Seq<char>| missing_issue(t))
    } else {
        seq![(0nat, 2nat, decimal(m.len()) + " text elements are missing in the implementation."@)]
    }) + (if e.len() == 0 {
        Seq::<Issue>::empty()
    } else if e.len() <= 3 {
        e.map_values(|t: Seq<char>| extra_issue(t))
    } else {
        seq![
            (
                2nat,
                2nat,
                decimal(e.len())
                    + " extra text elements appear in implementation but not in design."@,
            ),
        ]
    })
}

/// All issues, metric by metric: pixel, layout, typography, color, content.
pub open spec fn all_issues(inputs: IssueInputs) -> Seq<Issue> {
    (match inputs.pixel {
        Some(p) => pixel_issues(p@),
        None => Seq::<Issue>::empty(),
    }) + (match inputs.layout {
        Some(l) => layout_issues(l@),
        None => Seq::<Issue>::empty(),
    }) + (match inputs.typography {
        Some(t) => typography_issues(t@),
        None => Seq::<Issue>::empty(),
    }) + (match inputs.color {
        Some(c) => color_issues(c@),
        None => Seq::<Issue>::empty(),
    }) + (match inputs.content {
        Some(c) => content_issues(c),
        None => Seq::<Issue>::empty(),
    })
}

/// The texts that a content finding would shorten can all be cut at byte 47.
pub open spec fn inputs_shortenable(inputs: IssueInputs) -> bool {
    match inputs.content {
        Some(c) => shortenable(c.missing_text@) && shortenable(c.extra_text@),
        None => true,
    }
}

// ---------------------------------------------------------------------------
// What the pixel issues count
// ---------------------------------------------------------------------------

/// How many of the severities are `x`.
pub open spec fn severity_total(s: Seq<DiffSeverity>, x: DiffSeverity) -> nat {
    s.filter(|d: DiffSeverity| d == x).len()
}

/// `"<n> <word> pixel difference region[s] detected."`.
pub open spec fn pixel_region_line(n: nat, word: Seq<char>) -> Seq<char> {
    decimal(n) + (" "@ + word + " pixel difference region"@ + (if n == 1 {
        ""@
    } else {
        "s"@
    }) + " detected."@)
}

/// No issue of the list has the given priority.
pub open spec fn priority_absent(v: Seq<Issue>, p: nat) -> bool {
    forall|i: int| 0 <= i < v.len() ==> (#[trigger] v[i]).1 != p
}

/// The recursive count of a severity is the number of entries equal to it.
pub proof fn lemma_count_severity_total(s: Seq<DiffSeverity>, x: DiffSeverity)
    ensures
        count_severity(s, x) == severity_total(s, x),
    decreases s.len(),
{
    reveal_with_fuel(Seq::<_>::filter, 1);
    if s.len() > 0 {
        lemma_count_severity_total(s.drop_last(), x);
    }
}

proof fn lemma_typography_priority(s: Seq<TypographyFinding>)
    ensures
        priority_absent(typography_issues(s), 0),
    decreases s.len(),
{
    if s.len() > 0 {
        lemma_typography_priority(s.drop_last());
        let prev = typography_issues(s.drop_last());
        let v = typography_issues(s);
        assert forall|i: int| 0 <= i < v.len() implies (#[trigger] v[i]).1 != 0 by {
            if i < prev.len() {
                assert(v[i] == prev[i]);
            }
        }
    }
}

proof fn lemma_other_priorities(inputs: IssueInputs)
    ensures
        priority_absent(
            (match inputs.layout {
                Some(l) => layout_issues(l@),
                None => Seq::<Issue>::empty(),
            }),
            0,
        ),
        priority_absent(
            (match inputs.typography {
                Some(t) => typography_issues(t@),
                None => Seq::<Issue>::empty(),
            }),
            0,
        ),
        priority_absent(
            (match inputs.color {
                Some(c) => color_issues(c@),
                None => Seq::<Issue>::empty(),
            }),
            0,
        ),
        priority_absent(
            (match inputs.content {
                Some(c) => content_issues(c),
                None => Seq::<Issue>::empty(),
            }),
            0,
        ),
{
    if let Some(t) = inputs.typography {
        lemma_typography_priority(t@);
    }
    if let Some(c) = inputs.content {
        let m = texts(c.missing_text@);
        let e = texts(c.extra_text@);
        let v = content_issues(c);
        let a = if m.len() == 0 {
            Seq::<Issue>::empty()
        } else if m.len() <= 3 {
            m.map_values(|t: Seq<char>| missing_issue(t))
        } else {
            seq![(0nat, 2nat, decimal(m.len()) + " text elements are missing in the implementation."@)]
        };
        assert forall|i: int| 0 <= i < v.len() implies (#[trigger] v[i]).1 != 0 by {
            if i < a.len() {
                assert(v[i] == a[i]);
            }
        }
    }
}

proof fn lemma_count_issue_rank(k: nat, word: Seq<char>, rank: nat, x: Issue)
    ensures
        x.0 != rank ==> !pixel_count_issue(k, word, rank).contains(x),
{
    if k > 0 && pixel_count_issue(k, word, rank).contains(x) {
        assert(pixel_count_issue(k, word, rank)[0] == x);
    }
}

proof fn lemma_count_issue_has(k: nat, word: Seq<char>, rank: nat, n: nat, rank2: nat)
    ensures
        rank != rank2 ==> !pixel_count_issue(k, word, rank).contains(
            (rank2, 0nat, pixel_region_line(n, word)),
        ),
        rank == rank2 ==> (pixel_count_issue(k, word, rank).contains(
            (rank2, 0nat, pixel_region_line(n, word)),
        ) <==> (k > 0 && k == n)),
{
    reveal_strlit(" ");
    reveal_strlit("s");
    reveal_strlit("");
    let x = (rank2, 0nat, pixel_region_line(n, word));
    let tail_k = " "@ + word + " pixel difference region"@ + plural(k) + " detected."@;
    let tail_n = " "@ + word + " pixel difference region"@ + (if n == 1 {
        ""@
    } else {
        "s"@
    }) + " detected."@;
    if k > 0 {
        let msg = decimal(k) + " "@ + word + " pixel difference region"@ + plural(k) + " detected."@;
        assert(msg =~= decimal(k) + tail_k);
        assert(pixel_count_issue(k, word, rank) =~= seq![(rank, 0nat, msg)]);
        assert(tail_k[0] == ' ');
        assert(tail_n[0] == ' ');
        if pixel_count_issue(k, word, rank).contains(x) {
            assert(pixel_count_issue(k, word, rank)[0] == x);
            lemma_decimal_then_text(k, tail_k, n, tail_n);
        }
        if rank == rank2 && k == n {
            assert(plural(k) == (if n == 1 {
                ""@
            } else {
                "s"@
            }));
            assert(pixel_count_issue(k, word, rank)[0] == x);
        }
    }
}

/// The pixel issues report, at severity rank 0, 1 and 2, how many regions
/// are major, moderate and minor: an issue `"<n> major pixel difference
/// region[s] detected."` of rank 0 is in the list exactly when `n` regions
/// are major and `n` is positive, and likewise for moderate (rank 1) and
/// minor (rank 2).
pub proof fn lemma_pixel_issue_counts(inputs: IssueInputs, n: nat)
    requires
        inputs.pixel is Some,
    ensures
        all_issues(inputs).contains((0nat, 0nat, pixel_region_line(n, "major"@))) <==> (n > 0 && n
            == severity_total(inputs.pixel->0@, DiffSeverity::Major)),
        all_issues(inputs).contains((1nat, 0nat, pixel_region_line(n, "moderate"@))) <==> (n > 0
            && n == severity_total(inputs.pixel->0@, DiffSeverity::Moderate)),
        all_issues(inputs).contains((2nat, 0nat, pixel_region_line(n, "minor"@))) <==> (n > 0 && n
            == severity_total(inputs.pixel->0@, DiffSeverity::Minor)),
{
    broadcast use vstd::seq_lib::lemma_seq_concat_contains_all_elements;

    let s = inputs.pixel->0@;
    lemma_count_severity_total(s, DiffSeverity::Major);
    lemma_count_severity_total(s, DiffSeverity::Moderate);
    lemma_count_severity_total(s, DiffSeverity::Minor);
    lemma_other_priorities(inputs);
    let cj = count_severity(s, DiffSeverity::Major);
    let cd = count_severity(s, DiffSeverity::Moderate);
    let cn = count_severity(s, DiffSeverity::Minor);
    lemma_count_issue_has(cj, "major"@, 0, n, 0);
    lemma_count_issue_has(cd, "moderate"@, 1, n, 0);
    lemma_count_issue_has(cn, "minor"@, 2, n, 0);
    lemma_count_issue_has(cj, "major"@, 0, n, 1);
    lemma_count_issue_has(cd, "moderate"@, 1, n, 1);
    lemma_count_issue_has(cn, "minor"@, 2, n, 1);
    lemma_count_issue_has(cj, "major"@, 0, n, 2);
    lemma_count_issue_has(cd, "moderate"@, 1, n, 2);
    lemma_count_issue_has(cn, "minor"@, 2, n, 2);
    let xs = seq![
        (0nat, 0nat, pixel_region_line(n, "major"@)),
        (1nat, 0nat, pixel_region_line(n, "moderate"@)),
        (2nat, 0nat, pixel_region_line(n, "minor"@)),
    ];
    assert forall|j: int| 0 <= j < 3 implies !(match inputs.layout {
        Some(l) => layout_issues(l@),
        None => Seq::<Issue>::empty(),
    }).contains(#[trigger] xs[j]) && !(match inputs.typography {
        Some(t) => typography_issues(t@),
        None => Seq::<Issue>::empty(),
    }).contains(xs[j]) && !(match inputs.color {
        Some(c) => color_issues(c@),
        None => Seq::<Issue>::empty(),
    }).contains(xs[j]) && !(match inputs.content {
        Some(c) => content_issues(c),
        None => Seq::<Issue>::empty(),
    }).contains(xs[j]) by {
        assert(xs[j].1 == 0);
    }
    assert forall|j: int| 0 <= j < 3 implies (xs[j].0 != 0 ==> !pixel_count_issue(
        cj,
        "major"@,
        0,
    ).contains(#[trigger] xs[j])) && (xs[j].0 != 1 ==> !pixel_count_issue(
        cd,
        "moderate"@,
        1,
    ).contains(xs[j])) && (xs[j].0 != 2 ==> !pixel_count_issue(cn, "minor"@, 2).contains(xs[j])) by {
        lemma_count_issue_rank(cj, "major"@, 0, xs[j]);
        lemma_count_issue_rank(cd, "moderate"@, 1, xs[j]);
        lemma_count_issue_rank(cn, "minor"@, 2, xs[j]);
    }
    assert(xs[0] == (0nat, 0nat, pixel_region_line(n, "major"@)));
    assert(xs[1] == (1nat, 0nat, pixel_region_line(n, "moderate"@)));
    assert(xs[2] == (2nat, 0nat, pixel_region_line(n, "minor"@)));
    assert(pixel_issues(s) == pixel_count_issue(cj, "major"@, 0) + pixel_count_issue(
        cd,
        "moderate"@,
        1,
    ) + pixel_count_issue(cn, "minor"@, 2));
}

// ---------------------------------------------------------------------------
// Building the issues
// ---------------------------------------------------------------------------

struct RankedIssue {
    severity_rank: u8,
    priority_rank: u8,
    message: Vec<char>,
}

spec fn ranked_view(r: RankedIssue) -> Issue {
    (r.severity_rank as nat, r.priority_rank as nat, r.message@)
}

spec fn ranked_views(v: Seq<RankedIssue>) -> Seq<Issue> {
    v.map_values(|r: RankedIssue| ranked_view(r))
}

impl RankedIssue {
    fn new(severity_rank: u8, priority_rank: u8, message: Vec<char>) -> (r: RankedIssue)
        ensures
            ranked_view(r) == (severity_rank as nat, priority_rank as nat, message@),
    {
        RankedIssue { severity_rank, priority_rank, message }
    }
}

fn push_issue(out: &mut Vec<RankedIssue>, r: RankedIssue)
    ensures
        ranked_views(final(out)@) == ranked_views(old(out)@).push(ranked_view(r)),
{
    let ghost v = ranked_view(r);
    out.push(r);
    proof {
        assert(ranked_views(out@) =~= ranked_views(old(out)@).push(v));
    }
}

pub(crate) fn count_severity_exec(s: &Vec<DiffSeverity>, x: DiffSeverity) -> (n: usize)
    ensures
        n == count_severity(s@, x),
{
    let mut n: usize = 0;
    for i in 0..s.len()
        invariant
            n == count_severity(s@.take(i as int), x),
            n <= i,
    {
        proof {
            assert(s@.take(i + 1).drop_last() =~= s@.take(i as int));
        }
        if s[i] == x {
            n = n + 1;
        }
    }
    proof {
        assert(s@.take(s@.len() as int) =~= s@);
    }
    n
}

fn push_pixel_count(out: &mut Vec<RankedIssue>, n: usize, word: &str, rank: u8)
    requires
        rank <= 2,
    ensures
        ranked_views(final(out)@) == ranked_views(old(out)@) + pixel_count_issue(
            n as nat,
            word@,
            rank as nat,
        ),
{
    if n > 0 {
        let mut m: Vec<char> = Vec::new();
        push_decimal(&mut m, n as u64);
        push_str(&mut m, " ");
        push_str(&mut m, word);
        push_str(&mut m, " pixel difference region");
        if n != 1 {
            push_str(&mut m, "s");
        }
        push_str(&mut m, " detected.");
        proof {
            assert(m@ =~= decimal(n as nat) + " "@ + word@ + " pixel difference region"@ + plural(
                n as nat,
            ) + " detected."@);
        }
        push_issue(out, RankedIssue::new(rank, 0, m));
        proof {
            assert(ranked_views(out@) =~= ranked_views(old(out)@) + pixel_count_issue(
                n as nat,
                word@,
                rank as nat,
            ));
        }
    } else {
        proof {
            assert(ranked_views(out@) =~= ranked_views(old(out)@) + pixel_count_issue(
                n as nat,
                word@,
                rank as nat,
            ));
        }
    }
}

fn issues_from_pixel(out: &mut Vec<RankedIssue>, s: &Vec<DiffSeverity>)
    ensures
        ranked_views(final(out)@) == ranked_views(old(out)@) + pixel_issues(s@),
{
    let major = count_severity_exec(s, DiffSeverity::Major);
    let moderate = count_severity_exec(s, DiffSeverity::Moderate);
    let minor = count_severity_exec(s, DiffSeverity::Minor);
    push_pixel_count(out, major, "major", 0);
    push_pixel_count(out, moderate, "moderate", 1);
    push_pixel_count(out, minor, "minor", 2);
    proof {
        assert(ranked_views(out@) =~= ranked_views(old(out)@) + pixel_issues(s@));
    }
}

fn push_opt_text(out: &mut Vec<char>, o: &Option<String>, fallback: &str)
    ensures
        final(out)@ == old(out)@ + match opt_text(*o) {
            Some(t) => t,
            None => fallback@,
        },
{
    match o {
        Some(t) => push_str(out, t.as_str()),
        None => push_str(out, fallback),
    }
}

fn issues_from_layout(out: &mut Vec<RankedIssue>, s: &Vec<LayoutFinding>)
    ensures
        ranked_views(final(out)@) == ranked_views(old(out)@) + layout_issues(s@),
{
    let n = s.len();
    for i in 0..n
        invariant
            n == s@.len(),
            ranked_views(out@) == ranked_views(old(out)@) + layout_issues(s@.take(i as int)),
    {
        let f = &s[i];
        let mut m: Vec<char> = Vec::new();
        match &f.label {
            Some(l) => {
                push_str(&mut m, "'");
                push_str(&mut m, l.as_str());
                push_str(&mut m, "'");
            },
            None => push_opt_text(&mut m, &f.element_type, "element"),
        }
        let ghost d = m@;
        proof {
            assert(d =~= element_desc(opt_text(f.label), opt_text(f.element_type)));
        }
        let sev: u8 = match f.kind {
            LayoutDiffKind::MissingElement => {
                push_str(&mut m, " is missing in the implementation.");
                0
            },
            LayoutDiffKind::ExtraElement => {
                push_str(&mut m, " appears in implementation but not in reference.");
                1
            },
            LayoutDiffKind::PositionShift => {
                push_str(&mut m, " is shifted from its expected position.");
                1
            },
            LayoutDiffKind::SizeChange => {
                push_str(&mut m, " has a different size than the reference.");
                1
            },
        };
        let r = RankedIssue::new(sev, 1, m);
        proof {
            assert(ranked_view(r) == layout_issue(s@[i as int]));
        }
        push_issue(out, r);
        proof {
            assert(layout_issues(s@.take(i + 1)) =~= layout_issues(s@.take(i as int)).push(
                layout_issue(s@[i as int]),
            ));
            assert(ranked_views(out@) =~= ranked_views(old(out)@) + layout_issues(
                s@.take(i + 1),
            ));
        }
    }
    proof {
        assert(s@.take(n as int) =~= s@);
    }
}

fn push_issue_name(out: &mut Vec<char>, i: TypographyIssue)
    ensures
        final(out)@ == old(out)@ + issue_name(i),
{
    match i {
        TypographyIssue::FontFamilyMismatch => push_str(out, "font family"),
        TypographyIssue::FontSizeDiff => push_str(out, "font size"),
        TypographyIssue::FontWeightDiff => push_str(out, "font weight"),
        TypographyIssue::LineHeightDiff => push_str(out, "line height"),
        TypographyIssue::LetterSpacingDiff => push_str(out, "letter spacing"),
    }
}

fn contains_issue(v: &Vec<TypographyIssue>, x: TypographyIssue) -> (b: bool)
    ensures
        b == v@.contains(x),
{
    for i in 0..v.len()
        invariant
            forall|j: int| 0 <= j < i ==> v@[j] != x,
    {
        if v[i] == x {
            return true;
        }
    }
    false
}

fn typography_message(f: &TypographyFinding) -> (r: RankedIssue)
    ensures
        ranked_view(r) == typography_issue(*f),
{
    let mut m: Vec<char> = Vec::new();
    match &f.element_id_ref {
        Some(r) => push_str(&mut m, r.as_str()),
        None => push_opt_text(&mut m, &f.element_id_impl, "text element"),
    }
    let ghost id = m@;
    let k = f.issues.len();
    if k == 1 {
        push_str(&mut m, " has a different ");
        push_issue_name(&mut m, f.issues[0]);
    } else {
        push_str(&mut m, " has different ");
        let mut j: usize = 0;
        while j < k
            invariant
                j <= k,
                k == f.issues@.len(),
                m@ == id + " has different "@ + join_names(f.issues@.take(j as int)),
            decreases k - j,
        {
            if j > 0 {
                push_str(&mut m, ", ");
            }
            push_issue_name(&mut m, f.issues[j]);
            proof {
                let t = f.issues@.take(j + 1);
                assert(t.drop_last() =~= f.issues@.take(j as int));
                if j == 0 {
                    assert(f.issues@.take(0) =~= Seq::<TypographyIssue>::empty());
                }
            }
            j = j + 1;
        }
        proof {
            assert(f.issues@.take(k as int) =~= f.issues@);
        }
    }
    push_str(&mut m, " than the design.");
    let rank: u8 = if contains_issue(&f.issues, TypographyIssue::FontFamilyMismatch) {
        0
    } else if contains_issue(&f.issues, TypographyIssue::FontSizeDiff) || contains_issue(
        &f.issues,
        TypographyIssue::FontWeightDiff,
    ) {
        1
    } else {
        2
    };
    let r = RankedIssue::new(rank, 4, m);
    proof {
        assert(r.message@ =~= typography_issue(*f).2);
    }
    r
}

fn issues_from_typography(out: &mut Vec<RankedIssue>, s: &Vec<TypographyFinding>)
    ensures
        ranked_views(final(out)@) == ranked_views(old(out)@) + typography_issues(s@),
{
    let n = s.len();
    for i in 0..n
        invariant
            n == s@.len(),
            ranked_views(out@) == ranked_views(old(out)@) + typography_issues(s@.take(i as int)),
    {
        proof {
            assert(s@.take(i + 1).drop_last() =~= s@.take(i as int));
        }
        let f = &s[i];
        if f.issues.len() > 0 {
            let r = typography_message(f);
            push_issue(out, r);
            proof {
                assert(ranked_views(out@) =~= ranked_views(old(out)@) + typography_issues(
                    s@.take(i + 1),
                ));
            }
        } else {
            proof {
                assert(ranked_views(out@) =~= ranked_views(old(out)@) + typography_issues(
                    s@.take(i + 1),
                ));
            }
        }
    }
    proof {
        assert(s@.take(n as int) =~= s@);
    }
}

fn issues_from_color(out: &mut Vec<RankedIssue>, s: &Vec<ColorFinding>)
    ensures
        ranked_views(final(out)@) == ranked_views(old(out)@) + color_issues(s@),
{
    let n = s.len();
    for i in 0..n
        invariant
            n == s@.len(),
            ranked_views(out@) == ranked_views(old(out)@) + color_issues(s@.take(i as int)),
    {
        let f = &s[i];
        let mut m: Vec<char> = Vec::new();
        let rank: u8 = match f.kind {
            ColorDiffKind::PrimaryColorShift => {
                push_str(&mut m, "Primary color shift");
                0
            },
            ColorDiffKind::AccentColorShift => {
                push_str(&mut m, "Accent color shift");
                0
            },
            ColorDiffKind::BackgroundColorShift => {
                push_str(&mut m, "Background color shift");
                2
            },
        };
        push_str(&mut m, " differs: expected ");
        push_str(&mut m, f.ref_color.as_str());
        push_str(&mut m, ", got ");
        push_str(&mut m, f.impl_color.as_str());
        push_str(&mut m, ".");
        let r = RankedIssue::new(rank, 3, m);
        proof {
            assert(r.message@ =~= color_issue(s@[i as int]).2);
        }
        push_issue(out, r);
        proof {
            assert(color_issues(s@.take(i + 1)) =~= color_issues(s@.take(i as int)).push(
                color_issue(s@[i as int]),
            ));
            assert(ranked_views(out@) =~= ranked_views(old(out)@) + color_issues(s@.take(i + 1)));
        }
    }
    proof {
        assert(s@.take(n as int) =~= s@);
    }
}

proof fn lemma_prefix_within_step(s: Seq<char>, k: int, limit: nat)
    requires
        0 <= k < s.len(),
        byte_len(s.take(k)) + utf8_len(s[k]) <= limit,
        prefix_within(s, limit) == s.take(k) + prefix_within(
            s.skip(k),
            (limit - byte_len(s.take(k))) as nat,
        ),
    ensures
        prefix_within(s, limit) == s.take(k + 1) + prefix_within(
            s.skip(k + 1),
            (limit - byte_len(s.take(k + 1))) as nat,
        ),
{
    let rest = (limit - byte_len(s.take(k))) as nat;
    assert(s.skip(k)[0] == s[k]);
    assert(s.skip(k).drop_first() =~= s.skip(k + 1));
    assert(s.take(k + 1).drop_last() =~= s.take(k));
    assert(s.take(k) + seq![s[k]] =~= s.take(k + 1));
}

proof fn lemma_byte_len_append(a: Seq<char>, b: Seq<char>)
    ensures
        byte_len(a + b) == byte_len(a) + byte_len(b),
    decreases b.len(),
{
    if b.len() == 0 {
        assert(a + b =~= a);
    } else {
        lemma_byte_len_append(a, b.drop_last());
        assert((a + b).drop_last() =~= a + b.drop_last());
    }
}

proof fn lemma_prefix_within_len(s: Seq<char>, limit: nat)
    ensures
        byte_len(prefix_within(s, limit)) <= limit,
    decreases s.len(),
{
    if s.len() > 0 && utf8_len(s[0]) <= limit {
        lemma_prefix_within_len(s.drop_first(), (limit - utf8_len(s[0])) as nat);
        lemma_byte_len_append(seq![s[0]], prefix_within(s.drop_first(), (limit - utf8_len(s[0])) as nat));
        assert(seq![s[0]].drop_last() =~= Seq::<char>::empty());
        assert(seq![s[0]].last() == s[0]);
        assert(byte_len(Seq::<char>::empty()) == 0);
        assert(byte_len(seq![s[0]]) == byte_len(Seq::<char>::empty()) + utf8_len(s[0]));
    } else {
        assert(prefix_within(s, limit) =~= Seq::<char>::empty());
    }
}

fn char_utf8_len(c: char) -> (n: usize)
    ensures
        n == utf8_len(c),
{
    let v = c as u32;
    if v < 0x80 {
        1
    } else if v < 0x800 {
        2
    } else if v < 0x10000 {
        3
    } else {
        4
    }
}

/// The text as it appears in a content issue: over 50 bytes, its first 47
/// bytes and `...`.
fn shortened(t: &str) -> (r: Vec<char>)
    requires
        byte_len(t@) > 50 ==> boundary_at_47(t@),
    ensures
        r@ == shorten(t@),
{
    let cs = crate::text::chars_of(t);
    let n = cs.len();
    let mut total: usize = 0;
    let mut i: usize = 0;
    while i < n && total <= 50
        invariant
            i <= n,
            n == cs@.len(),
            cs@ == t@,
            total == byte_len(cs@.take(i as int)),
            total <= 54,
        decreases n - i,
    {
        proof {
            assert(cs@.take(i + 1).drop_last() =~= cs@.take(i as int));
        }
        total = total + char_utf8_len(cs[i]);
        i = i + 1;
    }
    proof {
        assert(cs@.take(n as int) =~= cs@);
        lemma_byte_len_append(cs@.take(i as int), cs@.skip(i as int));
        assert(cs@.take(i as int) + cs@.skip(i as int) =~= cs@);
    }
    if total <= 50 {
        return cs;
    }
    let mut out: Vec<char> = Vec::new();
    let mut used: usize = 0;
    let mut k: usize = 0;
    proof {
        assert(cs@.take(0) =~= Seq::<char>::empty());
        assert(cs@.skip(0) =~= cs@);
    }
    while k < n && used + char_utf8_len(cs[k]) <= 47
        invariant
            k <= n,
            n == cs@.len(),
            out@ == cs@.take(k as int),
            used == byte_len(cs@.take(k as int)),
            used <= 47,
            prefix_within(cs@, 47) == cs@.take(k as int) + prefix_within(
                cs@.skip(k as int),
                (47 - used) as nat,
            ),
        decreases n - k,
    {
        proof {
            lemma_prefix_within_step(cs@, k as int, 47);
            assert(cs@.take(k + 1).drop_last() =~= cs@.take(k as int));
        }
        used = used + char_utf8_len(cs[k]);
        out.push(cs[k]);
        k = k + 1;
    }
    proof {
        let rest = cs@.skip(k as int);
        if k < n {
            assert(rest[0] == cs@[k as int]);
        }
        assert(prefix_within(rest, (47 - used) as nat) =~= Seq::<char>::empty());
        assert(cs@.take(k as int) + Seq::<char>::empty() =~= cs@.take(k as int));
    }
    push_str(&mut out, "...");
    out
}

fn issues_from_texts(out: &mut Vec<RankedIssue>, v: &Vec<String>, missing: bool)
    requires
        shortenable(v@),
    ensures
        ranked_views(final(out)@) == ranked_views(old(out)@) + if v@.len() == 0 {
            Seq::<Issue>::empty()
        } else if v@.len() <= 3 {
            if missing {
                texts(v@).map_values(|t: Seq<char>| missing_issue(t))
            } else {
                texts(v@).map_values(|t: Seq<char>| extra_issue(t))
            }
        } else if missing {
            seq![
                (
                    0nat,
                    2nat,
                    decimal(v@.len()) + " text elements are missing in the implementation."@,
                ),
            ]
        } else {
            seq![
                (
                    2nat,
                    2nat,
                    decimal(v@.len())
                        + " extra text elements appear in implementation but not in design."@,
                ),
            ]
        },
{
    let n = v.len();
    if n == 0 {
        proof {
            assert(ranked_views(out@) =~= ranked_views(old(out)@) + Seq::<Issue>::empty());
        }
        return;
    }
    if n <= 3 {
        let ghost target = if missing {
            texts(v@).map_values(|t: Seq<char>| missing_issue(t))
        } else {
            texts(v@).map_values(|t: Seq<char>| extra_issue(t))
        };
        for i in 0..n
            invariant
                n == v@.len(),
                n <= 3,
                shortenable(v@),
                target.len() == n,
                forall|j: int| 0 <= j < n ==> #[trigger] target[j] == (if missing {
                    missing_issue(v@[j]@)
                } else {
                    extra_issue(v@[j]@)
                }),
                ranked_views(out@) == ranked_views(old(out)@) + target.take(i as int),
        {
            let t = &v[i];
            proof {
                assert(byte_len(v@[i as int]@) > 50 ==> boundary_at_47(v@[i as int]@));
            }
            let s = shortened(t.as_str());
            let mut m: Vec<char> = Vec::new();
            let rank: u8 = if missing {
                push_str(&mut m, "Text '");
                push_all(&mut m, s.as_slice());
                push_str(&mut m, "' is missing in the implementation.");
                0
            } else {
                push_str(&mut m, "Extra text '");
                push_all(&mut m, s.as_slice());
                push_str(&mut m, "' appears in implementation but not in design.");
                2
            };
            let r = RankedIssue::new(rank, 2, m);
            proof {
                assert(ranked_view(r) == target[i as int]);
            }
            push_issue(out, r);
            proof {
                assert(target.take(i + 1) =~= target.take(i as int).push(target[i as int]));
                assert(ranked_views(out@) =~= ranked_views(old(out)@) + target.take(i + 1));
            }
        }
        proof {
            assert(target.take(n as int) =~= target);
        }
    } else {
        let mut m: Vec<char> = Vec::new();
        push_decimal(&mut m, n as u64);
        let rank: u8 = if missing {
            push_str(&mut m, " text elements are missing in the implementation.");
            0
        } else {
            push_str(&mut m, " extra text elements appear in implementation but not in design.");
            2
        };
        push_issue(out, RankedIssue::new(rank, 2, m));
        proof {
            assert(ranked_views(out@) =~= ranked_views(old(out)@) + if missing {
                seq![
                    (
                        0nat,
                        2nat,
                        decimal(v@.len()) + " text elements are missing in the implementation."@,
                    ),
                ]
            } else {
                seq![
                    (
                        2nat,
                        2nat,
                        decimal(v@.len())
                            + " extra text elements appear in implementation but not in design."@,
                    ),
                ]
            });
        }
    }
}

fn issues_from_content(out: &mut Vec<RankedIssue>, c: &ContentFinding)
    requires
        shortenable(c.missing_text@),
        shortenable(c.extra_text@),
    ensures
        ranked_views(final(out)@) == ranked_views(old(out)@) + content_issues(*c),
{
    issues_from_texts(out, &c.missing_text, true);
    let ghost mid = out@;
    issues_from_texts(out, &c.extra_text, false);
    proof {
        assert(ranked_views(out@) =~= ranked_views(old(out)@) + content_issues(*c));
    }
}

// ---------------------------------------------------------------------------
// Sorting
// ---------------------------------------------------------------------------

fn text_le_exec(a: &Vec<char>, b: &Vec<char>) -> (r: bool)
    ensures
        r == text_le(a@, b@),
{
    let mut i: usize = 0;
    proof {
        assert(a@.skip(0) =~= a@);
        assert(b@.skip(0) =~= b@);
    }
    loop
        invariant
            i <= a@.len(),
            i <= b@.len(),
            text_le(a@, b@) == text_le(a@.skip(i as int), b@.skip(i as int)),
        decreases a@.len() - i,
    {
        if i == a.len() {
            return true;
        }
        if i == b.len() {
            return false;
        }
        let x = a[i];
        let y = b[i];
        proof {
            assert(a@.skip(i as int)[0] == a@[i as int]);
            assert(b@.skip(i as int)[0] == b@[i as int]);
            assert(a@.skip(i as int).drop_first() =~= a@.skip(i + 1));
            assert(b@.skip(i as int).drop_first() =~= b@.skip(i + 1));
        }
        if x < y {
            return true;
        }
        if y < x {
            return false;
        }
        i = i + 1;
    }
}

fn issue_lt_exec(x: &RankedIssue, y: &RankedIssue) -> (r: bool)
    ensures
        r == !issue_le(ranked_view(*y), ranked_view(*x)),
{
    if x.severity_rank != y.severity_rank {
        return x.severity_rank < y.severity_rank;
    }
    if x.priority_rank != y.priority_rank {
        return x.priority_rank < y.priority_rank;
    }
    !text_le_exec(&y.message, &x.message)
}

proof fn lemma_insert_sorted(s: Seq<Issue>, j: int, x: Issue)
    requires
        sorted_issues(s),
        0 <= j <= s.len(),
        forall|k: int| 0 <= k < j ==> issue_le(#[trigger] s[k], x),
        forall|k: int| j <= k < s.len() ==> issue_le(x, #[trigger] s[k]),
    ensures
        sorted_issues(s.insert(j, x)),
{
    let t = s.insert(j, x);
    assert forall|a: int, b: int| 0 <= a < b < t.len() implies issue_le(
        #[trigger] t[a],
        #[trigger] t[b],
    ) by {
        if a < j {
            if b < j {
                assert(issue_le(s[a], s[b]));
            } else if b == j {
            } else {
                assert(t[b] == s[b - 1]);
                assert(issue_le(s[a], s[b - 1]));
            }
        } else if a == j {
            assert(t[b] == s[b - 1]);
        } else {
            assert(t[a] == s[a - 1]);
            assert(t[b] == s[b - 1]);
            assert(issue_le(s[a - 1], s[b - 1]));
        }
    }
}

/// Sorts issues by severity, priority and message.
fn sort_issues(v: Vec<RankedIssue>) -> (r: Vec<RankedIssue>)
    ensures
        sorted_issues(ranked_views(r@)),
        ranked_views(r@).to_multiset() == ranked_views(v@).to_multiset(),
{
    let mut sorted: Vec<RankedIssue> = Vec::new();
    let mut rest = v;
    let ghost original = ranked_views(rest@);
    proof {
        assert(ranked_views(sorted@) =~= Seq::<Issue>::empty());
        assert(ranked_views(sorted@).to_multiset() =~= Multiset::<Issue>::empty());
        assert(original.to_multiset() =~= Multiset::<Issue>::empty().add(original.to_multiset()));
    }
    while rest.len() > 0
        invariant
            sorted_issues(ranked_views(sorted@)),
            original.to_multiset() == ranked_views(sorted@).to_multiset().add(
                ranked_views(rest@).to_multiset(),
            ),
        decreases rest@.len(),
    {
        let ghost before = rest@;
        let x = rest.pop().unwrap();
        let ghost xv = ranked_view(x);
        proof {
            assert(before =~= rest@.push(x));
            assert(ranked_views(before) =~= ranked_views(rest@).push(xv));
        }
        let ghost sv = ranked_views(sorted@);
        let mut j: usize = 0;
        while j < sorted.len() && !issue_lt_exec(&x, &sorted[j])
            invariant
                j <= sorted@.len(),
                sv == ranked_views(sorted@),
                xv == ranked_view(x),
                forall|k: int| 0 <= k < j ==> issue_le(#[trigger] sv[k], xv),
            decreases sorted@.len() - j,
        {
            j = j + 1;
        }
        proof {
            if j < sv.len() {
                lemma_issue_le_total(sv[j as int], xv);
                assert(issue_le(xv, sv[j as int]));
                assert forall|k: int| j <= k < sv.len() implies issue_le(xv, #[trigger] sv[k]) by {
                    if k > j {
                        assert(issue_le(sv[j as int], sv[k]));
                        lemma_issue_le_trans(xv, sv[j as int], sv[k]);
                    }
                }
            }
            lemma_insert_sorted(sv, j as int, xv);
        }
        sorted.insert(j, x);
        proof {
            assert(ranked_views(sorted@) =~= sv.insert(j as int, xv));
        }
    }
    proof {
        assert(ranked_views(rest@) =~= Seq::<Issue>::empty());
        assert(ranked_views(rest@).to_multiset() =~= Multiset::<Issue>::empty());
        assert(original.to_multiset() =~= ranked_views(sorted@).to_multiset());
    }
    sorted
}

// ---------------------------------------------------------------------------
// The ranked list
// ---------------------------------------------------------------------------

/// Collects every issue that the findings describe, ranks them (severity
/// first, then metric priority, then message), and returns the messages of
/// the first `max_issues`.
///
/// A missing or extra text of more than 50 bytes is shortened to its first
/// 47 bytes and `...`; that cut must fall on a character boundary.
pub fn generate_top_issues(inputs: &IssueInputs, max_issues: usize) -> (r: Vec<String>)
    requires
        inputs_shortenable(*inputs),
    ensures
        r@.len() == if max_issues < all_issues(*inputs).len() {
            max_issues as int
        } else {
            all_issues(*inputs).len() as int
        },
        exists|order: Seq<Issue>|
            {
                &&& sorted_issues(order)
                &&& order.to_multiset() == all_issues(*inputs).to_multiset()
                &&& forall|i: int| 0 <= i < r@.len() ==> (#[trigger] r@[i])@ == order[i].2
            },
{
    let mut issues: Vec<RankedIssue> = Vec::new();
    proof {
        assert(ranked_views(issues@) =~= Seq::<Issue>::empty());
    }
    if let Some(p) = &inputs.pixel {
        issues_from_pixel(&mut issues, p);
    }
    let ghost a = ranked_views(issues@);
    if let Some(l) = &inputs.layout {
        issues_from_layout(&mut issues, l);
    }
    let ghost b = ranked_views(issues@);
    if let Some(t) = &inputs.typography {
        issues_from_typography(&mut issues, t);
    }
    let ghost c = ranked_views(issues@);
    if let Some(col) = &inputs.color {
        issues_from_color(&mut issues, col);
    }
    let ghost d = ranked_views(issues@);
    if let Some(con) = &inputs.content {
        issues_from_content(&mut issues, con);
    }
    proof {
        assert(ranked_views(issues@) =~= all_issues(*inputs));
    }
    let sorted = sort_issues(issues);
    let n = if max_issues < sorted.len() {
        max_issues
    } else {
        sorted.len()
    };
    let mut out: Vec<String> = Vec::new();
    for i in 0..n
        invariant
            n <= sorted@.len(),
            out@.len() == i,
            forall|k: int| 0 <= k < i ==> (#[trigger] out@[k])@ == ranked_views(sorted@)[k].2,
    {
        out.push(string_from_chars(sorted[i].message.as_slice()));
    }
    proof {
        let order = ranked_views(sorted@);
        assert(order.len() == sorted@.len());
        assert(sorted_issues(order) && order.to_multiset() == all_issues(*inputs).to_multiset()
            && forall|k: int| 0 <= k < out@.len() ==> (#[trigger] out@[k])@ == order[k].2);
        all_issues(*inputs).to_multiset_ensures();
        order.to_multiset_ensures();
    }
    out
}

} // verus!
