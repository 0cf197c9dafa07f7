//! Pairing the text elements of two views by their normal label: each
//! reference text takes the last implementation text with the same label
//! that is still free; the implementation texts left over are extras.
use vstd::prelude::*;

use crate::content::normal_text;
use crate::text::{chars_of, eq_chars};
use crate::typography::normalize_label;

verus! {

/// The view of a label held as characters.
pub open spec fn opt_chars(o: Option<Vec<char>>) -> Option<Seq<char>> {
    match o {
        Some(c) => Some(c@),
        None => None,
    }
}

pub open spec fn label_views(v: Seq<Option<Vec<char>>>) -> Seq<Option<Seq<char>>> {
    v.map_values(|o: Option<Vec<char>>| opt_chars(o))
}

/// The normal label of each text (`None` for a text without one).
pub open spec fn text_labels(v: Seq<String>) -> Seq<Option<Seq<char>>> {
    v.map_values(|s: String| normal_text(s@))
}

/// How often the label `l` occurs among the first `end` labels.
pub open spec fn count_label(s: Seq<Option<Seq<char>>>, l: Seq<char>, end: int) -> nat
    decreases end,
{
    if end <= 0 {
        0
    } else {
        count_label(s, l, end - 1) + if s[end - 1] == Some(l) {
            1nat
        } else {
            0nat
        }
    }
}

/// The label at a position, empty where there is none.
pub open spec fn label_at(s: Seq<Option<Seq<char>>>, x: int) -> Seq<char> {
    match s[x] {
        Some(l) => l,
        None => Seq::empty(),
    }
}

/// What became of a reference text.
#[derive(Debug, Clone, Copy, PartialEq, Eq, Structural)]
pub enum LabelOutcome {
    /// The text has no label and takes part in no pairing.
    Unlabeled,
    /// No implementation text with its label was left.
    Missing,
    /// Paired with the implementation text at this position.
    Matched(usize),
}

/// The outcome of each reference text, in order, and the positions of the
/// implementation texts left over.
pub struct LabelMatching {
    pub outcomes: Vec<LabelOutcome>,
    pub extras: Vec<usize>,
}

/// The outcome of reference text `k`: the `b`-th reference text with label
/// `l` (counting from 0) takes the `b`-th implementation text with that
/// label counting from the last, when there is one.
pub open spec fn outcome_of(
    refs: Seq<Option<Seq<char>>>,
    imps: Seq<Option<Seq<char>>>,
    k: int,
    o: LabelOutcome,
) -> bool {
    match refs[k] {
        None => o is Unlabeled,
        Some(l) => {
            let before = count_label(refs, l, k);
            let m = count_label(imps, l, imps.len() as int);
            if before < m {
                o matches LabelOutcome::Matched(j) && j < imps.len() && imps[j as int] == Some(l)
                    && count_label(imps, l, j as int) + 1 + before == m
            } else {
                o is Missing
            }
        },
    }
}

/// The implementation text at `x` is left over: it has a label, and fewer
/// texts with that label follow it than reference texts take.
pub open spec fn is_extra(refs: Seq<Option<Seq<char>>>, imps: Seq<Option<Seq<char>>>, x: int) -> bool {
    0 <= x < imps.len() && match imps[x] {
        Some(l) => count_label(imps, l, x) + count_label(refs, l, refs.len() as int) < count_label(
            imps,
            l,
            imps.len() as int,
        ),
        None => false,
    }
}

/// The label `a` occurs before every occurrence of the label `b`.
pub open spec fn label_before(s: Seq<Option<Seq<char>>>, a: Seq<char>, b: Seq<char>) -> bool {
    forall|i: int| 0 <= i < s.len() && s[i] == Some(b) ==> count_label(s, a, i) > 0
}

/// The order of the extras: grouped by label, groups in the order in which
/// their labels first occur, each group in position order.
pub open spec fn extra_order(s: Seq<Option<Seq<char>>>, x: int, y: int) -> bool {
    &&& label_at(s, x) == label_at(s, y) ==> x < y
    &&& label_at(s, x) != label_at(s, y) ==> label_before(s, label_at(s, x), label_at(s, y))
}

/// Counts never decrease along the sequence.
pub proof fn lemma_count_monotone(s: Seq<Option<Seq<char>>>, l: Seq<char>, a: int, b: int)
    requires
        0 <= a <= b,
    ensures
        count_label(s, l, a) <= count_label(s, l, b),
    decreases b,
{
    if b > a {
        lemma_count_monotone(s, l, a, b - 1);
    }
}

/// An occurrence before `b` is counted by `b`.
pub proof fn lemma_count_occurrence(s: Seq<Option<Seq<char>>>, l: Seq<char>, i: int, b: int)
    requires
        0 <= i < b,
        s[i] == Some(l),
    ensures
        count_label(s, l, i) + 1 <= count_label(s, l, b),
    decreases b,
{
    if b > i + 1 {
        lemma_count_occurrence(s, l, i, b - 1);
    }
}

/// Below a count there is an occurrence with exactly that many before it.
pub proof fn lemma_nth_occurrence(s: Seq<Option<Seq<char>>>, l: Seq<char>, t: nat, end: int)
    requires
        t < count_label(s, l, end),
    ensures
        exists|i: int| 0 <= i < end && s[i] == Some(l) && count_label(s, l, i) == t,
    decreases end,
{
    if end > 0 {
        if s[end - 1] == Some(l) && count_label(s, l, end - 1) == t {
            assert(s[end - 1] == Some(l) && count_label(s, l, end - 1) == t);
        } else {
            lemma_nth_occurrence(s, l, t, end - 1);
            let i = choose|i: int| 0 <= i < end - 1 && s[i] == Some(l) && count_label(s, l, i) == t;
            assert(0 <= i < end && s[i] == Some(l) && count_label(s, l, i) == t);
        }
    }
}

fn label_of(text: &String) -> (r: Option<Vec<char>>)
    ensures
        opt_chars(r) == normal_text(text@),
{
    match normalize_label(text.as_str()) {
        Some(s) => Some(chars_of(s.as_str())),
        None => None,
    }
}

fn labels_of(texts: &Vec<String>) -> (r: Vec<Option<Vec<char>>>)
    ensures
        label_views(r@) == text_labels(texts@),
{
    let mut r: Vec<Option<Vec<char>>> = Vec::new();
    for i in 0..texts.len()
        invariant
            r@.len() == i,
            forall|q: int| 0 <= q < i ==> opt_chars(#[trigger] r@[q]) == normal_text(texts@[q]@),
    {
        r.push(label_of(&texts[i]));
    }
    proof {
        assert(label_views(r@) =~= text_labels(texts@));
    }
    r
}

fn has_label(o: &Option<Vec<char>>, l: &Vec<char>) -> (b: bool)
    ensures
        b == (opt_chars(*o) == Some(l@)),
{
    match o {
        Some(c) => eq_chars(c.as_slice(), l.as_slice()),
        None => false,
    }
}

fn count_in(s: &Vec<Option<Vec<char>>>, l: &Vec<char>, end: usize) -> (c: usize)
    requires
        end <= s@.len(),
    ensures
        c == count_label(label_views(s@), l@, end as int),
        c <= end,
{
    let ghost v = label_views(s@);
    let mut c: usize = 0;
    let mut i: usize = 0;
    while i < end
        invariant
            i <= end,
            end <= s@.len(),
            v == label_views(s@),
            c <= i,
            c == count_label(v, l@, i as int),
        decreases end - i,
    {
        if has_label(&s[i], l) {
            c = c + 1;
        }
        i = i + 1;
    }
    c
}

/// The position of the occurrence of `l` with `target` occurrences before it.
fn nth_with_label(s: &Vec<Option<Vec<char>>>, l: &Vec<char>, target: usize) -> (j: usize)
    requires
        target < count_label(label_views(s@), l@, s@.len() as int),
    ensures
        j < s@.len(),
        label_views(s@)[j as int] == Some(l@),
        count_label(label_views(s@), l@, j as int) == target,
{
    let ghost v = label_views(s@);
    let mut c: usize = 0;
    let mut j: usize = 0;
    while j < s.len()
        invariant
            j <= s@.len(),
            v == label_views(s@),
            c <= target,
            c == count_label(v, l@, j as int),
            target < count_label(v, l@, s@.len() as int),
        decreases s@.len() - j,
    {
        if has_label(&s[j], l) {
            if c == target {
                return j;
            }
            c = c + 1;
        }
        j = j + 1;
    }
    // The count reached past `target` before the end, so the loop returned.
    j
}

/// Whether the implementation text at `x` is left over.
fn extra_at(refs: &Vec<Option<Vec<char>>>, imps: &Vec<Option<Vec<char>>>, x: usize) -> (b: bool)
    requires
        x < imps@.len(),
    ensures
        b == is_extra(label_views(refs@), label_views(imps@), x as int),
{
    match &imps[x] {
        None => false,
        Some(l) => {
            let p = count_in(imps, l, x);
            let r = count_in(refs, l, refs.len());
            let m = count_in(imps, l, imps.len());
            p < m && r < m - p
        },
    }
}

/// The extras, grouped by label in the order in which the labels first
/// occur, each group in position order.
fn grouped_extras(refs: &Vec<Option<Vec<char>>>, imps: &Vec<Option<Vec<char>>>) -> (out: Vec<usize>)
    ensures
        forall|x: usize| #[trigger] out@.contains(x) <==> is_extra(label_views(refs@), label_views(imps@), x as int),
        out@.no_duplicates(),
        forall|a: int, b: int|
            0 <= a < b < out@.len() ==> extra_order(label_views(imps@), #[trigger] out@[a] as int, #[trigger] out@[b] as int),
{
    let ghost rv = label_views(refs@);
    let ghost iv = label_views(imps@);
    let n = imps.len();
    let mut out: Vec<usize> = Vec::new();
    for j in 0..n
        invariant
            n == imps@.len(),
            rv == label_views(refs@),
            iv == label_views(imps@),
            forall|x: usize| #[trigger] out@.contains(x) <==> (is_extra(rv, iv, x as int) && count_label(iv, label_at(iv, x as int), j as int) > 0),
            out@.no_duplicates(),
            forall|a: int, b: int|
                0 <= a < b < out@.len() ==> extra_order(iv, #[trigger] out@[a] as int, #[trigger] out@[b] as int),
    {
        let ghost before = out@;
        match &imps[j] {
            None => {
                assert forall|x: usize| #[trigger] out@.contains(x) implies
                    (is_extra(rv, iv, x as int) && count_label(iv, label_at(iv, x as int), j + 1) > 0) by {}
                assert forall|x: usize| (is_extra(rv, iv, x as int) && count_label(iv, label_at(iv, x as int), j + 1) > 0)
                    implies #[trigger] out@.contains(x) by {}
            },
            Some(l) => {
                let first = count_in(imps, l, j) == 0;
                if first {
                    for k in j..n
                        invariant
                            n == imps@.len(),
                            j < n,
                            rv == label_views(refs@),
                            iv == label_views(imps@),
                            iv[j as int] == Some(l@),
                            count_label(iv, l@, j as int) == 0,
                            forall|x: usize| #[trigger] before.contains(x) <==> (is_extra(rv, iv, x as int) && count_label(iv, label_at(iv, x as int), j as int) > 0),
                            before.no_duplicates(),
                            forall|a: int, b: int|
                                0 <= a < b < before.len() ==> extra_order(iv, #[trigger] before[a] as int, #[trigger] before[b] as int),
                            out@.len() >= before.len(),
                            out@.take(before.len() as int) == before,
                            forall|q: int| before.len() <= q < out@.len() ==> j <= #[trigger] out@[q] < k && iv[out@[q] as int] == Some(l@)
                                && is_extra(rv, iv, out@[q] as int),
                            forall|x: usize| j <= x < k && iv[x as int] == Some(l@) && is_extra(rv, iv, x as int) ==> #[trigger] out@.contains(x),
                            out@.no_duplicates(),
                            forall|a: int, b: int|
                                0 <= a < b < out@.len() ==> extra_order(iv, #[trigger] out@[a] as int, #[trigger] out@[b] as int),
                    {
                        if has_label(&imps[k], l) && extra_at(refs, imps, k) {
                            proof {
                                // Every earlier element is of another label, which occurs
                                // before `j`, or of this label at a smaller position.
                                assert forall|q: int| 0 <= q < out@.len() implies extra_order(iv, #[trigger] out@[q] as int, k as int) by {
                                    let e = out@[q];
                                    if q < before.len() {
                                        assert(before[q] == e);
                                        assert(before.contains(e));
                                        let le = label_at(iv, e as int);
                                        if le == l@ {
                                            assert(count_label(iv, l@, j as int) > 0);
                                        }
                                        assert forall|i: int| 0 <= i < iv.len() && iv[i] == Some(l@) implies count_label(iv, le, i) > 0 by {
                                            if i < j {
                                                lemma_count_occurrence(iv, l@, i, j as int);
                                            }
                                            lemma_count_monotone(iv, le, j as int, i);
                                        }
                                    }
                                }
                                assert(!out@.contains(k)) by {
                                    if out@.contains(k) {
                                        let q = out@.index_of(k);
                                        if q < before.len() {
                                            assert(before[q] == k);
                                            assert(before.contains(k));
                                        }
                                    }
                                }
                            }
                            let ghost pre = out@;
                            out.push(k);
                            proof {
                                assert(out@.take(before.len() as int) =~= before);
                                assert forall|x: usize| j <= x < k + 1 && iv[x as int] == Some(l@) && is_extra(rv, iv, x as int)
                                    implies #[trigger] out@.contains(x) by {
                                    if x < k {
                                        assert(pre.contains(x));
                                        let q = pre.index_of(x);
                                        assert(out@[q] == x);
                                    } else {
                                        assert(out@[out@.len() - 1] == x);
                                    }
                                }
                            }
                        }
                    }
                    proof {
                        assert forall|x: usize| #[trigger] out@.contains(x) implies
                            (is_extra(rv, iv, x as int) && count_label(iv, label_at(iv, x as int), j + 1) > 0) by {
                            let q = out@.index_of(x);
                            if q < before.len() {
                                assert(before[q] == x);
                                assert(before.contains(x));
                                lemma_count_monotone(iv, label_at(iv, x as int), j as int, j + 1);
                            }
                        }
                        assert forall|x: usize| (is_extra(rv, iv, x as int) && count_label(iv, label_at(iv, x as int), j + 1) > 0)
                            implies #[trigger] out@.contains(x) by {
                            let lx = label_at(iv, x as int);
                            if count_label(iv, lx, j as int) > 0 {
                                assert(before.contains(x));
                                let q = before.index_of(x);
                                assert(out@[q] == x);
                            } else {
                                assert(lx == l@);
                                if x < j {
                                    lemma_count_occurrence(iv, l@, x as int, j as int);
                                }
                            }
                        }
                    }
                } else {
                    assert forall|x: usize| #[trigger] out@.contains(x) implies
                        (is_extra(rv, iv, x as int) && count_label(iv, label_at(iv, x as int), j + 1) > 0) by {
                        lemma_count_monotone(iv, label_at(iv, x as int), j as int, j + 1);
                    }
                    assert forall|x: usize| (is_extra(rv, iv, x as int) && count_label(iv, label_at(iv, x as int), j + 1) > 0)
                        implies #[trigger] out@.contains(x) by {}
                }
            },
        }
    }
    proof {
        assert forall|x: usize| is_extra(rv, iv, x as int) implies #[trigger] out@.contains(x) by {
            lemma_count_occurrence(iv, label_at(iv, x as int), x as int, n as int);
        }
    }
    out
}

/// Pairs the reference texts with the implementation texts by label: the
/// outcome of each reference text, and the implementation texts left over,
/// grouped by label in the order in which the labels first occur.
pub fn match_labels(ref_texts: &Vec<String>, impl_texts: &Vec<String>) -> (r: LabelMatching)
    ensures
        r.outcomes@.len() == ref_texts@.len(),
        forall|k: int|
            0 <= k < ref_texts@.len() ==> outcome_of(
                text_labels(ref_texts@),
                text_labels(impl_texts@),
                k,
                #[trigger] r.outcomes@[k],
            ),
        forall|x: usize| #[trigger] r.extras@.contains(x) <==> is_extra(text_labels(ref_texts@), text_labels(impl_texts@), x as int),
        r.extras@.no_duplicates(),
        forall|a: int, b: int|
            0 <= a < b < r.extras@.len() ==> extra_order(text_labels(impl_texts@), #[trigger] r.extras@[a] as int, #[trigger] r.extras@[b] as int),
{
    let refs = labels_of(ref_texts);
    let imps = labels_of(impl_texts);
    let ghost rv = label_views(refs@);
    let ghost iv = label_views(imps@);
    assert(refs@.len() == ref_texts@.len()) by {
        assert(rv.len() == refs@.len());
        assert(text_labels(ref_texts@).len() == ref_texts@.len());
    }
    let mut outcomes: Vec<LabelOutcome> = Vec::new();
    for k in 0..refs.len()
        invariant
            rv == label_views(refs@),
            iv == label_views(imps@),
            refs@.len() == ref_texts@.len(),
            outcomes@.len() == k,
            forall|q: int| 0 <= q < k ==> outcome_of(rv, iv, q, #[trigger] outcomes@[q]),
    {
        match &refs[k] {
            None => {
                outcomes.push(LabelOutcome::Unlabeled);
            },
            Some(l) => {
                let before = count_in(&refs, l, k);
                let m = count_in(&imps, l, imps.len());
                if before < m {
                    let j = nth_with_label(&imps, l, m - 1 - before);
                    outcomes.push(LabelOutcome::Matched(j));
                } else {
                    outcomes.push(LabelOutcome::Missing);
                }
            },
        }
        assert(outcome_of(rv, iv, k as int, outcomes@[k as int]));
    }
    let extras = grouped_extras(&refs, &imps);
    LabelMatching { outcomes, extras }
}

/// Two occurrences of a label with the same count before them are the same.
proof fn lemma_same_count_same_position(s: Seq<Option<Seq<char>>>, l: Seq<char>, a: int, b: int)
    requires
        0 <= a,
        0 <= b,
        s[a] == Some(l),
        s[b] == Some(l),
        count_label(s, l, a) == count_label(s, l, b),
    ensures
        a == b,
{
    if a < b {
        lemma_count_occurrence(s, l, a, b);
    } else if b < a {
        lemma_count_occurrence(s, l, b, a);
    }
}

/// The pairing is one to one and splits the labeled implementation texts:
/// no two reference texts take the same implementation text, a text that
/// is taken is not left over, and every labeled text that is not left
/// over is taken by some reference text.
pub proof fn lemma_label_matching_partition(
    refs: Seq<Option<Seq<char>>>,
    imps: Seq<Option<Seq<char>>>,
    outcomes: Seq<LabelOutcome>,
)
    requires
        outcomes.len() == refs.len(),
        forall|k: int| 0 <= k < refs.len() ==> outcome_of(refs, imps, k, #[trigger] outcomes[k]),
    ensures
        forall|k1: int, k2: int|
            0 <= k1 < k2 < refs.len() && #[trigger] outcomes[k1] is Matched && #[trigger] outcomes[k2] is Matched
                ==> outcomes[k1]->Matched_0 != outcomes[k2]->Matched_0,
        forall|k: int|
            0 <= k < refs.len() && #[trigger] outcomes[k] is Matched ==> !is_extra(
                refs,
                imps,
                outcomes[k]->Matched_0 as int,
            ),
        forall|j: int|
            0 <= j < imps.len() && imps[j] is Some && !#[trigger] is_extra(refs, imps, j) ==> exists|k: int|
                0 <= k < refs.len() && #[trigger] outcomes[k] == LabelOutcome::Matched(j as usize),
{
    let n = refs.len() as int;
    assert forall|k1: int, k2: int|
        0 <= k1 < k2 < refs.len() && #[trigger] outcomes[k1] is Matched && #[trigger] outcomes[k2] is Matched
            implies outcomes[k1]->Matched_0 != outcomes[k2]->Matched_0 by {
        assert(outcome_of(refs, imps, k1, outcomes[k1]));
        assert(outcome_of(refs, imps, k2, outcomes[k2]));
        if outcomes[k1]->Matched_0 == outcomes[k2]->Matched_0 {
            let l = refs[k1]->0;
            lemma_count_occurrence(refs, l, k1, k2);
        }
    }
    assert forall|k: int|
        0 <= k < refs.len() && #[trigger] outcomes[k] is Matched implies !is_extra(
            refs,
            imps,
            outcomes[k]->Matched_0 as int,
        ) by {
        assert(outcome_of(refs, imps, k, outcomes[k]));
        let l = refs[k]->0;
        lemma_count_occurrence(refs, l, k, n);
    }
    assert forall|j: int|
        0 <= j < imps.len() && imps[j] is Some && !#[trigger] is_extra(refs, imps, j) implies exists|k: int|
            0 <= k < refs.len() && #[trigger] outcomes[k] == LabelOutcome::Matched(j as usize) by {
        let l = imps[j]->0;
        let p = count_label(imps, l, j);
        let m = count_label(imps, l, imps.len() as int);
        lemma_count_occurrence(imps, l, j, imps.len() as int);
        let t = (m - 1 - p) as nat;
        lemma_nth_occurrence(refs, l, t, n);
        let k = choose|k: int| 0 <= k < n && refs[k] == Some(l) && count_label(refs, l, k) == t;
        assert(outcome_of(refs, imps, k, outcomes[k]));
        let j2 = outcomes[k]->Matched_0;
        lemma_same_count_same_position(imps, l, j, j2 as int);
        assert(outcomes[k] == LabelOutcome::Matched(j as usize));
    }
}

} // verus!
