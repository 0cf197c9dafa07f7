//! The metrics by name, and the choice of which metrics run for a comparison.
use vstd::prelude::*;

use crate::error::DpcError;
use crate::text::{
    ascii_lowercase, chars_of, eq_chars, lower_seq, owned, push_str, string_from_chars,
};

verus! {

/// The kind of metric being computed.
#[derive(Debug, Clone, Copy, PartialEq, Eq, Structural)]
pub enum MetricKind {
    Pixel,
    Layout,
    Typography,
    Color,
    Content,
}

pub open spec fn all_kinds() -> Seq<MetricKind> {
    seq![
        MetricKind::Pixel,
        MetricKind::Layout,
        MetricKind::Typography,
        MetricKind::Color,
        MetricKind::Content,
    ]
}

/// The name of a metric kind.
pub open spec fn kind_name(k: MetricKind) -> Seq<char> {
    match k {
        MetricKind::Pixel => "pixel"@,
        MetricKind::Layout => "layout"@,
        MetricKind::Typography => "typography"@,
        MetricKind::Color => "color"@,
        MetricKind::Content => "content"@,
    }
}

/// The kind whose name is the text, ignoring ASCII case.
pub open spec fn kind_of_name(s: Seq<char>) -> Option<MetricKind> {
    let l = lower_seq(s);
    if l == "pixel"@ {
        Some(MetricKind::Pixel)
    } else if l == "layout"@ {
        Some(MetricKind::Layout)
    } else if l == "typography"@ {
        Some(MetricKind::Typography)
    } else if l == "color"@ {
        Some(MetricKind::Color)
    } else if l == "content"@ {
        Some(MetricKind::Content)
    } else {
        None
    }
}

/// Why a name is not a metric kind: `unknown metric kind: <name lower-cased>`.
pub open spec fn unknown_kind_reason(s: Seq<char>) -> Seq<char> {
    "unknown metric kind: "@ + lower_seq(s)
}

impl MetricKind {
    /// Every metric kind, in the order in which they are reported.
    pub fn all() -> (r: [MetricKind; 5])
        ensures
            r@ == all_kinds(),
    {
        let r = [
            MetricKind::Pixel,
            MetricKind::Layout,
            MetricKind::Typography,
            MetricKind::Color,
            MetricKind::Content,
        ];
        proof {
            assert(r@ =~= all_kinds());
        }
        r
    }

    /// The name of the kind.
    pub fn as_str(&self) -> (r: &'static str)
        ensures
            r@ == kind_name(*self),
    {
        match self {
            MetricKind::Pixel => "pixel",
            MetricKind::Layout => "layout",
            MetricKind::Typography => "typography",
            MetricKind::Color => "color",
            MetricKind::Content => "content",
        }
    }

    /// The name of the kind, owned.
    pub fn to_string(&self) -> (r: String)
        ensures
            r@ == kind_name(*self),
    {
        owned(self.as_str())
    }

    /// Reads a kind from its name, ignoring ASCII case; anything else gives
    /// `unknown metric kind: <text lower-cased>`.
    pub fn parse(s: &str) -> (r: Result<MetricKind, String>)
        ensures
            match r {
                Ok(k) => kind_of_name(s@) == Some(k),
                Err(m) => kind_of_name(s@) is None && m@ == unknown_kind_reason(s@),
            },
    {
        let cs = chars_of(s);
        let l = ascii_lowercase(cs.as_slice());
        if is_name(&l, "pixel") {
            Ok(MetricKind::Pixel)
        } else if is_name(&l, "layout") {
            Ok(MetricKind::Layout)
        } else if is_name(&l, "typography") {
            Ok(MetricKind::Typography)
        } else if is_name(&l, "color") {
            Ok(MetricKind::Color)
        } else if is_name(&l, "content") {
            Ok(MetricKind::Content)
        } else {
            let mut m: Vec<char> = Vec::new();
            push_str(&mut m, "unknown metric kind: ");
            crate::text::push_all(&mut m, l.as_slice());
            Err(string_from_chars(m.as_slice()))
        }
    }
}

fn is_name(l: &Vec<char>, name: &str) -> (b: bool)
    ensures
        b == (l@ == name@),
{
    let n = chars_of(name);
    eq_chars(l.as_slice(), n.as_slice())
}

impl core::str::FromStr for MetricKind {
    type Err = String;

    fn from_str(s: &str) -> (r: Result<MetricKind, String>)
        ensures
            match r {
                Ok(k) => kind_of_name(s@) == Some(k),
                Err(m) => kind_of_name(s@) is None && m@ == unknown_kind_reason(s@),
            },
    {
        MetricKind::parse(s)
    }
}

/// The name of every kind reads back as that kind, in any ASCII case.
pub proof fn lemma_kind_name_round_trip(k: MetricKind)
    ensures
        kind_of_name(kind_name(k)) == Some(k),
{
    reveal_strlit("pixel");
    reveal_strlit("layout");
    reveal_strlit("typography");
    reveal_strlit("color");
    reveal_strlit("content");
    assert(lower_seq(kind_name(k)) =~= kind_name(k));
    assert("pixel"@[0] != "layout"@[0]);
    assert("pixel"@[0] != "typography"@[0]);
    assert("pixel"@[0] != "color"@[0]);
    assert("pixel"@[0] != "content"@[0]);
    assert("layout"@[0] != "typography"@[0]);
    assert("layout"@[0] != "color"@[0]);
    assert("layout"@[0] != "content"@[0]);
    assert("typography"@[0] != "color"@[0]);
    assert("typography"@[0] != "content"@[0]);
    assert("color"@.len() != "content"@.len());
}

/// Reads metric kinds from their names, in order; the first unknown name
/// stops the reading with `invalid metric kind '<name>': <reason>`.
pub fn parse_metric_kinds(kinds: Option<&Vec<String>>) -> (r: Result<Vec<MetricKind>, DpcError>)
    ensures
        kinds is None ==> (r matches Ok(v) && v@.len() == 0),
        kinds matches Some(items) ==> match r {
            Ok(v) => v@.len() == items@.len() && forall|i: int|
                0 <= i < items@.len() ==> kind_of_name(#[trigger] items@[i]@) == Some(v@[i]),
            Err(e) => exists|i: int|
                0 <= i < items@.len() && kind_of_name(#[trigger] items@[i]@) is None && (
                forall|j: int| 0 <= j < i ==> kind_of_name(#[trigger] items@[j]@) is Some) && (
                e matches DpcError::Config(m) && m@ == "invalid metric kind '"@ + items@[i]@
                    + "': "@ + unknown_kind_reason(items@[i]@)),
        },
{
    let mut parsed: Vec<MetricKind> = Vec::new();
    match kinds {
        None => Ok(parsed),
        Some(items) => {
            for i in 0..items.len()
                invariant
                    kinds == Some(items),
                    parsed@.len() == i,
                    forall|j: int| 0 <= j < i ==> kind_of_name(#[trigger] items@[j]@) == Some(
                        parsed@[j],
                    ),
            {
                match MetricKind::parse(items[i].as_str()) {
                    Ok(k) => parsed.push(k),
                    Err(reason) => {
                        let mut m: Vec<char> = Vec::new();
                        push_str(&mut m, "invalid metric kind '");
                        push_str(&mut m, items[i].as_str());
                        push_str(&mut m, "': ");
                        push_str(&mut m, reason.as_str());
                        proof {
                            assert(kind_of_name(items@[i as int]@) is None);
                            assert(forall|j: int| 0 <= j < i ==> kind_of_name(#[trigger] items@[j]@) is Some);
                            assert(m@ =~= "invalid metric kind '"@ + items@[i as int]@ + "': "@
                                + unknown_kind_reason(items@[i as int]@));
                        }
                        return Err(DpcError::Config(string_from_chars(m.as_slice())));
                    },
                }
            }
            Ok(parsed)
        },
    }
}

/// Type of semantic difference detected by vision analysis.
#[derive(Debug, Clone, Copy, PartialEq, Eq, Structural)]
pub enum SemanticDiffType {
    TextContent,
    TextReflow,
    Typography,
    Layout,
    Color,
    MissingElement,
    ExtraElement,
    Spacing,
    ImageChange,
    Decoration,
    Other,
}

pub open spec fn semantic_description(t: SemanticDiffType) -> Seq<char> {
    match t {
        SemanticDiffType::TextContent => "text content change"@,
        SemanticDiffType::TextReflow => "text reflow/wrapping"@,
        SemanticDiffType::Typography => "typography difference"@,
        SemanticDiffType::Layout => "layout change"@,
        SemanticDiffType::Color => "color difference"@,
        SemanticDiffType::MissingElement => "missing element"@,
        SemanticDiffType::ExtraElement => "extra element"@,
        SemanticDiffType::Spacing => "spacing difference"@,
        SemanticDiffType::ImageChange => "image/icon change"@,
        SemanticDiffType::Decoration => "border/shadow change"@,
        SemanticDiffType::Other => "visual difference"@,
    }
}

impl SemanticDiffType {
    /// The human-readable description of the difference type.
    pub fn description(&self) -> (r: &'static str)
        ensures
            r@ == semantic_description(*self),
    {
        match self {
            SemanticDiffType::TextContent => "text content change",
            SemanticDiffType::TextReflow => "text reflow/wrapping",
            SemanticDiffType::Typography => "typography difference",
            SemanticDiffType::Layout => "layout change",
            SemanticDiffType::Color => "color difference",
            SemanticDiffType::MissingElement => "missing element",
            SemanticDiffType::ExtraElement => "extra element",
            SemanticDiffType::Spacing => "spacing difference",
            SemanticDiffType::ImageChange => "image/icon change",
            SemanticDiffType::Decoration => "border/shadow change",
            SemanticDiffType::Other => "visual difference",
        }
    }

    /// The description, owned.
    pub fn to_string(&self) -> (r: String)
        ensures
            r@ == semantic_description(*self),
    {
        owned(self.description())
    }
}

// ---------------------------------------------------------------------------
// Which metrics run
// ---------------------------------------------------------------------------

/// What each view offers beyond its screenshot.
#[derive(Debug, Clone, Copy)]
pub struct Availability {
    /// The reference has layout elements (DOM or Figma nodes).
    pub layout: bool,
    /// Both views have styled text.
    pub typography: bool,
    /// Both views have non-blank text.
    pub content: bool,
}

/// The kinds asked for: the selection, or every kind when none is selected.
pub open spec fn desired_kinds(selected: Seq<MetricKind>) -> Seq<MetricKind> {
    if selected.len() == 0 {
        all_kinds()
    } else {
        selected
    }
}

/// The desired kinds, in order, that no available metric computes.
pub open spec fn missing_kinds(desired: Seq<MetricKind>, available: Seq<MetricKind>) -> Seq<
    MetricKind,
> {
    desired.filter(|k: MetricKind| !available.contains(k))
}

/// `a, b, c`: the names joined with `", "`.
pub open spec fn join_kinds(s: Seq<MetricKind>) -> Seq<char>
    decreases s.len(),
{
    if s.len() == 0 {
        Seq::<char>::empty()
    } else if s.len() == 1 {
        kind_name(s[0])
    } else {
        join_kinds(s.drop_last()) + ", "@ + kind_name(s.last())
    }
}

/// A metric of the given kind runs when it is desired and the data it needs
/// is there.
pub open spec fn runs(k: MetricKind, desired: Seq<MetricKind>, avail: Availability) -> bool {
    &&& desired.contains(k)
    &&& (k == MetricKind::Layout ==> avail.layout)
    &&& (k == MetricKind::Typography ==> avail.typography)
    &&& (k == MetricKind::Content ==> avail.content)
}

/// Which data each metric needs: pixel and color run whenever desired;
/// layout needs layout elements, typography needs styled text, content needs
/// text, and nothing else. So content runs whenever it is desired and text
/// is there, whether or not styled text is.
pub proof fn lemma_metric_needs(desired: Seq<MetricKind>, avail: Availability)
    ensures
        runs(MetricKind::Pixel, desired, avail) == desired.contains(MetricKind::Pixel),
        runs(MetricKind::Color, desired, avail) == desired.contains(MetricKind::Color),
        runs(MetricKind::Layout, desired, avail) == (desired.contains(MetricKind::Layout)
            && avail.layout),
        runs(MetricKind::Typography, desired, avail) == (desired.contains(MetricKind::Typography)
            && avail.typography),
        runs(MetricKind::Content, desired, avail) == (desired.contains(MetricKind::Content)
            && avail.content),
        forall|l: bool, t: bool|
            #[trigger] runs(
                MetricKind::Content,
                desired,
                (Availability { layout: l, typography: t, content: avail.content }),
            ) == runs(MetricKind::Content, desired, avail),
{
}

fn kinds_contain(v: &[MetricKind], k: MetricKind) -> (b: bool)
    ensures
        b == v@.contains(k),
{
    for i in 0..v.len()
        invariant
            forall|j: int| 0 <= j < i ==> v@[j] != k,
    {
        if v[i] == k {
            return true;
        }
    }
    false
}

/// Decides which of the available metrics run. `available` holds the kind
/// of each available metric, in order; the result holds the positions in it
/// of the metrics to run, in order. When a desired kind has no metric, the
/// run is refused with `Requested metrics not available: <kinds>`.
pub fn plan_metrics(available: &Vec<MetricKind>, selected: &Vec<MetricKind>, avail: Availability) -> (r: Result<
    Vec<usize>,
    DpcError,
>)
    ensures
        missing_kinds(desired_kinds(selected@), available@).len() > 0 <==> r is Err,
        r matches Err(e) ==> (e matches DpcError::Config(m) && m@
            == "Requested metrics not available: "@ + join_kinds(
            missing_kinds(desired_kinds(selected@), available@),
        )),
        r matches Ok(v) ==> (forall|i: int, j: int|
            0 <= i < j < v@.len() ==> #[trigger] v@[i] < #[trigger] v@[j]) && (forall|i: int|
            0 <= i < v@.len() ==> #[trigger] v@[i] < available@.len()) && (forall|p: int|
            0 <= p < available@.len() ==> (v@.contains(p as usize) <==> runs(
                #[trigger] available@[p],
                desired_kinds(selected@),
                avail,
            ))),
{
    let all = MetricKind::all();
    let mut desired: Vec<MetricKind> = Vec::new();
    if selected.len() == 0 {
        for i in 0..5
            invariant
                desired@ == all_kinds().take(i as int),
                all@ == all_kinds(),
        {
            desired.push(all[i]);
            proof {
                assert(all_kinds().take(i + 1) =~= all_kinds().take(i as int).push(all_kinds()[i as int]));
            }
        }
        proof {
            assert(all_kinds().take(5) =~= all_kinds());
        }
    } else {
        for i in 0..selected.len()
            invariant
                desired@ == selected@.take(i as int),
        {
            desired.push(selected[i]);
            proof {
                assert(selected@.take(i + 1) =~= selected@.take(i as int).push(selected@[i as int]));
            }
        }
        proof {
            assert(selected@.take(selected@.len() as int) =~= selected@);
        }
    }
    let ghost d = desired@;
    let ghost pred = |k: MetricKind| !available@.contains(k);
    let mut missing: Vec<MetricKind> = Vec::new();
    for i in 0..desired.len()
        invariant
            d == desired@,
            missing@ == d.take(i as int).filter(pred),
            pred == (|k: MetricKind| !available@.contains(k)),
    {
        proof {
            assert(d.take(i + 1).drop_last() =~= d.take(i as int));
            reveal_with_fuel(Seq::<_>::filter, 1);
        }
        if !kinds_contain(available.as_slice(), desired[i]) {
            missing.push(desired[i]);
        }
    }
    proof {
        assert(d.take(d.len() as int) =~= d);
    }
    if missing.len() > 0 {
        let mut m: Vec<char> = Vec::new();
        push_str(&mut m, "Requested metrics not available: ");
        let ghost head = m@;
        for i in 0..missing.len()
            invariant
                m@ == head + join_kinds(missing@.take(i as int)),
        {
            if i > 0 {
                push_str(&mut m, ", ");
            }
            push_str(&mut m, missing[i].as_str());
            proof {
                assert(missing@.take(i + 1).drop_last() =~= missing@.take(i as int));
                if i == 0 {
                    assert(missing@.take(0) =~= Seq::<MetricKind>::empty());
                }
                assert(m@ =~= head + join_kinds(missing@.take(i + 1)));
            }
        }
        proof {
            assert(missing@.take(missing@.len() as int) =~= missing@);
        }
        return Err(DpcError::Config(string_from_chars(m.as_slice())));
    }
    let mut run: Vec<usize> = Vec::new();
    for p in 0..available.len()
        invariant
            d == desired@,
            forall|i: int, j: int| 0 <= i < j < run@.len() ==> #[trigger] run@[i] < #[trigger] run@[j],
            forall|i: int| 0 <= i < run@.len() ==> #[trigger] run@[i] < p,
            forall|q: int|
                0 <= q < p ==> (run@.contains(q as usize) <==> runs(
                    #[trigger] available@[q],
                    d,
                    avail,
                )),
    {
        let k = available[p];
        let wanted = kinds_contain(desired.as_slice(), k);
        let ok = wanted && (k != MetricKind::Layout || avail.layout) && (k != MetricKind::Typography
            || avail.typography) && (k != MetricKind::Content || avail.content);
        let ghost before = run@;
        if ok {
            run.push(p);
        }
        proof {
            assert forall|q: int| 0 <= q < p + 1 implies (run@.contains(q as usize) <==> runs(
                #[trigger] available@[q],
                d,
                avail,
            )) by {
                if q < p {
                    if run@.contains(q as usize) {
                        let w = choose|w: int| 0 <= w < run@.len() && run@[w] == q as usize;
                        if w < before.len() {
                            assert(before[w] == q);
                        }
                    }
                    if before.contains(q as usize) {
                        let w = choose|w: int| 0 <= w < before.len() && before[w] == q as usize;
                        assert(run@[w] == q);
                    }
                } else {
                    if ok {
                        assert(run@[run@.len() - 1] == p);
                    } else {
                        if run@.contains(q as usize) {
                            let w = choose|w: int| 0 <= w < run@.len() && run@[w] == q as usize;
                            assert(before[w] < p);
                        }
                    }
                }
            }
        }
    }
    Ok(run)
}

/// The kinds to compute for a comparison: the selection, or pixel and color
/// when nothing is selected and neither view has a DOM.
pub fn effective_metrics(selected: Vec<MetricKind>, ref_has_dom: bool, impl_has_dom: bool) -> (r: Vec<
    MetricKind,
>)
    ensures
        selected@.len() == 0 && !ref_has_dom && !impl_has_dom ==> r@ == seq![
            MetricKind::Pixel,
            MetricKind::Color,
        ],
        !(selected@.len() == 0 && !ref_has_dom && !impl_has_dom) ==> r@ == selected@,
{
    if selected.len() == 0 && !ref_has_dom && !impl_has_dom {
        let mut v: Vec<MetricKind> = Vec::new();
        v.push(MetricKind::Pixel);
        v.push(MetricKind::Color);
        proof {
            assert(v@ =~= seq![MetricKind::Pixel, MetricKind::Color]);
        }
        v
    } else {
        selected
    }
}

} // verus!
