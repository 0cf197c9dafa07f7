//! Layout comparison: classifying elements and pairing the elements of the
//! reference with those of the implementation.
//!
//! The overlap of two boxes is measured on their geometry; this module takes
//! it as an order key per pair (a larger key is a larger overlap) and makes
//! the pairing decisions on those keys.
use vstd::prelude::*;

use crate::error::DpcError;
use crate::issues::LayoutDiffKind;
use crate::text::{ascii_lowercase, chars_of, eq_chars, lower_seq, owned};

verus! {

/// The coarse kind of a layout element.
#[derive(Debug, Clone, Copy, PartialEq, Eq, Structural)]
pub enum ElementKind {
    Button,
    Heading,
    Text,
    Image,
    Input,
    Other,
}

pub open spec fn element_kind_name(k: ElementKind) -> Seq<char> {
    match k {
        ElementKind::Button => "button"@,
        ElementKind::Heading => "heading"@,
        ElementKind::Text => "text"@,
        ElementKind::Image => "image"@,
        ElementKind::Input => "input"@,
        ElementKind::Other => "other"@,
    }
}

impl ElementKind {
    /// The name of the kind.
    pub fn as_str(&self) -> (r: &'static str)
        ensures
            r@ == element_kind_name(*self),
    {
        match self {
            ElementKind::Button => "button",
            ElementKind::Heading => "heading",
            ElementKind::Text => "text",
            ElementKind::Image => "image",
            ElementKind::Input => "input",
            ElementKind::Other => "other",
        }
    }
}

/// The kind of a DOM element, by its tag in any ASCII case.
pub open spec fn kind_of_tag(tag: Seq<char>) -> ElementKind {
    let t = lower_seq(tag);
    if t == "button"@ {
        ElementKind::Button
    } else if t == "img"@ {
        ElementKind::Image
    } else if t == "input"@ || t == "textarea"@ || t == "select"@ {
        ElementKind::Input
    } else if t == "h1"@ || t == "h2"@ || t == "h3"@ || t == "h4"@ || t == "h5"@ || t == "h6"@ {
        ElementKind::Heading
    } else if t == "p"@ || t == "span"@ || t == "div"@ {
        ElementKind::Text
    } else {
        ElementKind::Other
    }
}

/// The kind of a Figma node, by its node type in any ASCII case.
pub open spec fn kind_of_node_type(node_type: Seq<char>) -> ElementKind {
    let t = lower_seq(node_type);
    if t == "text"@ {
        ElementKind::Text
    } else if t == "image"@ {
        ElementKind::Image
    } else {
        ElementKind::Other
    }
}

fn is_word(l: &Vec<char>, w: &str) -> (b: bool)
    ensures
        b == (l@ == w@),
{
    let cs = chars_of(w);
    eq_chars(l.as_slice(), cs.as_slice())
}

/// Classifies a DOM element by its tag.
pub fn element_kind_from_dom(tag: &str) -> (k: ElementKind)
    ensures
        k == kind_of_tag(tag@),
{
    let cs = chars_of(tag);
    let t = ascii_lowercase(cs.as_slice());
    if is_word(&t, "button") {
        ElementKind::Button
    } else if is_word(&t, "img") {
        ElementKind::Image
    } else if is_word(&t, "input") || is_word(&t, "textarea") || is_word(&t, "select") {
        ElementKind::Input
    } else if is_word(&t, "h1") || is_word(&t, "h2") || is_word(&t, "h3") || is_word(&t, "h4")
        || is_word(&t, "h5") || is_word(&t, "h6") {
        ElementKind::Heading
    } else if is_word(&t, "p") || is_word(&t, "span") || is_word(&t, "div") {
        ElementKind::Text
    } else {
        ElementKind::Other
    }
}

/// Classifies a Figma node by its node type.
pub fn element_kind_from_figma(node_type: &str) -> (k: ElementKind)
    ensures
        k == kind_of_node_type(node_type@),
{
    let cs = chars_of(node_type);
    let t = ascii_lowercase(cs.as_slice());
    if is_word(&t, "text") {
        ElementKind::Text
    } else if is_word(&t, "image") {
        ElementKind::Image
    } else {
        ElementKind::Other
    }
}

// ---------------------------------------------------------------------------
// Pairing
// ---------------------------------------------------------------------------

/// The elements to pair: their kinds, the overlap key of every pair
/// (`overlap[i][j]` for reference element `i` and implementation element
/// `j`), the least key at which a pair is considered, and the least key at
/// which a considered pair is accepted.
pub struct LayoutElements {
    pub ref_kinds: Vec<ElementKind>,
    pub impl_kinds: Vec<ElementKind>,
    pub overlap: Vec<Vec<u32>>,
    pub match_floor: u32,
    pub accept_floor: u32,
}

impl LayoutElements {
    /// One overlap key per pair.
    pub open spec fn well_formed(&self) -> bool {
        &&& self.overlap@.len() == self.ref_kinds@.len()
        &&& forall|i: int|
            0 <= i < self.overlap@.len() ==> #[trigger] self.overlap@[i]@.len()
                == self.impl_kinds@.len()
    }

    pub open spec fn key(&self, i: int, c: usize) -> u32 {
        self.overlap@[i]@[c as int]
    }

    /// Implementation element `c` may stand for reference element `i`.
    pub open spec fn eligible(&self, i: int, c: usize) -> bool {
        self.impl_kinds@[c as int] == self.ref_kinds@[i] && self.key(i, c) >= self.match_floor
    }

    /// The position in `rem[..upto]` of the first eligible element with the
    /// largest key, if any is eligible.
    pub open spec fn best_upto(&self, i: int, rem: Seq<usize>, upto: int) -> Option<int>
        decreases upto,
    {
        if upto <= 0 {
            None
        } else {
            let b = self.best_upto(i, rem, upto - 1);
            let c = rem[upto - 1];
            if self.eligible(i, c) && (b is None || self.key(i, c) > self.key(i, rem[b->0])) {
                Some(upto - 1)
            } else {
                b
            }
        }
    }

    /// The pairing after the first `upto` reference elements, each taking in
    /// turn the best implementation element still free: the pairs made, the
    /// implementation elements still free (in their order), and the
    /// reference elements left unpaired.
    pub open spec fn pairing(&self, upto: int) -> (Seq<LayoutPair>, Seq<usize>, Seq<usize>)
        decreases upto,
    {
        if upto <= 0 {
            (Seq::empty(), Seq::new(self.impl_kinds@.len(), |j: int| j as usize), Seq::empty())
        } else {
            let (pairs, rem, lone) = self.pairing(upto - 1);
            let i = upto - 1;
            match self.best_upto(i, rem, rem.len() as int) {
                Some(p) => if self.key(i, rem[p]) >= self.accept_floor {
                    (
                        pairs.push(
                            LayoutPair {
                                reference: i as usize,
                                implementation: rem[p],
                                overlap: self.key(i, rem[p]),
                            },
                        ),
                        rem.remove(p),
                        lone,
                    )
                } else {
                    (pairs, rem, lone.push(i as usize))
                },
                None => (pairs, rem, lone.push(i as usize)),
            }
        }
    }
}

impl LayoutElements {
    /// What the pairing keeps true after each reference element.
    pub open spec fn pairing_invariant(
        &self,
        upto: int,
        pairs: Seq<LayoutPair>,
        free: Seq<usize>,
        lone: Seq<usize>,
    ) -> bool {
        let m = self.impl_kinds@.len();
        &&& forall|q: int| 0 <= q < free.len() ==> #[trigger] free[q] < m
        &&& free.no_duplicates()
        &&& forall|k: int|
            0 <= k < pairs.len() ==> {
                let p = #[trigger] pairs[k];
                &&& p.reference < upto
                &&& p.implementation < m
                &&& self.impl_kinds@[p.implementation as int] == self.ref_kinds@[p.reference as int]
                &&& p.overlap == self.key(p.reference as int, p.implementation)
                &&& p.overlap >= self.match_floor
                &&& p.overlap >= self.accept_floor
            }
        &&& forall|k1: int, k2: int|
            0 <= k1 < pairs.len() && 0 <= k2 < pairs.len() && k1 != k2 ==> (#[trigger] pairs[k1]).implementation
                != (#[trigger] pairs[k2]).implementation && pairs[k1].reference != pairs[k2].reference
        &&& forall|k: int, q: int|
            0 <= k < pairs.len() && 0 <= q < free.len() ==> (#[trigger] pairs[k]).implementation
                != #[trigger] free[q]
        &&& forall|j: int|
            0 <= j < m ==> #[trigger] free.contains(j as usize) || exists|k: int|
                0 <= k < pairs.len() && (#[trigger] pairs[k]).implementation == j
        &&& forall|q: int| 0 <= q < lone.len() ==> #[trigger] lone[q] < upto
        &&& forall|k: int, q: int|
            0 <= k < pairs.len() && 0 <= q < lone.len() ==> (#[trigger] pairs[k]).reference
                != #[trigger] lone[q]
        &&& forall|i: int|
            0 <= i < upto ==> #[trigger] lone.contains(i as usize) || exists|k: int|
                0 <= k < pairs.len() && (#[trigger] pairs[k]).reference == i
    }
}

proof fn lemma_best_upto(els: &LayoutElements, i: int, rem: Seq<usize>, upto: int)
    requires
        0 <= upto <= rem.len(),
    ensures
        els.best_upto(i, rem, upto) matches Some(p) ==> 0 <= p < upto && els.eligible(i, rem[p]),
    decreases upto,
{
    if upto > 0 {
        lemma_best_upto(els, i, rem, upto - 1);
    }
}

/// The pairing keeps its invariant.
proof fn lemma_pairing(els: &LayoutElements, upto: int)
    requires
        els.well_formed(),
        els.ref_kinds@.len() <= usize::MAX,
        els.impl_kinds@.len() <= usize::MAX,
        0 <= upto <= els.ref_kinds@.len(),
    ensures
        ({
            let (pairs, free, lone) = els.pairing(upto);
            els.pairing_invariant(upto, pairs, free, lone)
        }),
    decreases upto,
{
    let m = els.impl_kinds@.len();
    if upto == 0 {
        let free = Seq::new(m, |j: int| j as usize);
        assert forall|j: int| 0 <= j < m implies #[trigger] free.contains(j as usize) by {
            assert(free[j] == j as usize);
        }
    } else {
        lemma_pairing(els, upto - 1);
        let (pairs, rem, lone) = els.pairing(upto - 1);
        let i = upto - 1;
        lemma_best_upto(els, i, rem, rem.len() as int);
        match els.best_upto(i, rem, rem.len() as int) {
            Some(p) => {
                if els.key(i, rem[p]) >= els.accept_floor {
                    let c = rem[p];
                    let np = pairs.push(
                        LayoutPair { reference: i as usize, implementation: c, overlap: els.key(i, c) },
                    );
                    let nr = rem.remove(p);
                    assert(nr.len() == rem.len() - 1);
                    assert forall|q: int| 0 <= q < nr.len() implies nr[q] == (if q < p {
                        rem[q]
                    } else {
                        rem[q + 1]
                    }) by {}
                    assert forall|q: int| 0 <= q < nr.len() implies #[trigger] nr[q] < m by {
                        if q < p {
                            assert(nr[q] == rem[q]);
                        } else {
                            assert(nr[q] == rem[q + 1]);
                        }
                    }
                    assert forall|q1: int, q2: int|
                        0 <= q1 < nr.len() && 0 <= q2 < nr.len() && q1 != q2 implies nr[q1]
                        != nr[q2] by {
                        let o1 = if q1 < p { q1 } else { q1 + 1 };
                        let o2 = if q2 < p { q2 } else { q2 + 1 };
                        assert(nr[q1] == rem[o1] && nr[q2] == rem[o2]);
                    }
                    assert forall|k1: int, k2: int|
                        0 <= k1 < np.len() && 0 <= k2 < np.len() && k1 != k2 implies (
                    #[trigger] np[k1]).implementation != (#[trigger] np[k2]).implementation
                        && np[k1].reference != np[k2].reference by {
                        if k1 == pairs.len() {
                            assert(pairs[k2].implementation != rem[p]);
                            assert(pairs[k2].reference < upto - 1);
                        } else if k2 == pairs.len() {
                            assert(pairs[k1].implementation != rem[p]);
                            assert(pairs[k1].reference < upto - 1);
                        } else {
                            assert(np[k1] == pairs[k1] && np[k2] == pairs[k2]);
                        }
                    }
                    assert forall|k: int, q: int|
                        0 <= k < np.len() && 0 <= q < nr.len() implies (#[trigger] np[k]).implementation
                        != #[trigger] nr[q] by {
                        let o = if q < p { q } else { q + 1 };
                        assert(nr[q] == rem[o]);
                        if k < pairs.len() {
                            assert(pairs[k].implementation != rem[o]);
                        } else {
                            assert(o != p);
                        }
                    }
                    assert forall|j: int| 0 <= j < m implies #[trigger] nr.contains(j as usize) || exists|k: int|
                        0 <= k < np.len() && (#[trigger] np[k]).implementation == j by {
                        if rem.contains(j as usize) {
                            let o = choose|o: int| 0 <= o < rem.len() && rem[o] == j as usize;
                            if o < p {
                                assert(nr[o] == rem[o]);
                            } else if o > p {
                                assert(nr[o - 1] == rem[o]);
                            } else {
                                assert(np[pairs.len() as int].implementation == j);
                            }
                        } else {
                            let k = choose|k: int| 0 <= k < pairs.len() && (#[trigger] pairs[k]).implementation == j;
                            assert(np[k] == pairs[k]);
                        }
                    }
                    assert forall|k: int, q: int|
                        0 <= k < np.len() && 0 <= q < lone.len() implies (#[trigger] np[k]).reference
                        != #[trigger] lone[q] by {
                        if k == pairs.len() {
                            assert(lone[q] < upto - 1);
                        }
                    }
                    assert forall|ii: int| 0 <= ii < upto implies #[trigger] lone.contains(ii as usize) || exists|k: int|
                        0 <= k < np.len() && (#[trigger] np[k]).reference == ii by {
                        if ii == upto - 1 {
                            assert(np[pairs.len() as int].reference == ii);
                        } else if !lone.contains(ii as usize) {
                            let k = choose|k: int| 0 <= k < pairs.len() && (#[trigger] pairs[k]).reference == ii;
                            assert(np[k] == pairs[k]);
                        }
                    }
                    assert(els.pairing_invariant(upto, np, nr, lone));
                } else {
                    let nl = lone.push(i as usize);
                    assert forall|k: int, q: int|
                        0 <= k < pairs.len() && 0 <= q < nl.len() implies (#[trigger] pairs[k]).reference
                        != #[trigger] nl[q] by {
                        if q < lone.len() {
                            assert(nl[q] == lone[q]);
                        }
                    }
                    assert forall|ii: int| 0 <= ii < upto implies #[trigger] nl.contains(ii as usize) || exists|k: int|
                        0 <= k < pairs.len() && (#[trigger] pairs[k]).reference == ii by {
                        if ii == upto - 1 {
                            assert(nl[lone.len() as int] == ii);
                        } else if lone.contains(ii as usize) {
                            let q = choose|q: int| 0 <= q < lone.len() && lone[q] == ii as usize;
                            assert(nl[q] == lone[q]);
                        }
                    }
                    assert(els.pairing_invariant(upto, pairs, rem, nl));
                }
            },
            None => {
                let nl = lone.push(i as usize);
                assert forall|k: int, q: int|
                    0 <= k < pairs.len() && 0 <= q < nl.len() implies (#[trigger] pairs[k]).reference
                    != #[trigger] nl[q] by {
                    if q < lone.len() {
                        assert(nl[q] == lone[q]);
                    }
                }
                assert forall|ii: int| 0 <= ii < upto implies #[trigger] nl.contains(ii as usize) || exists|k: int|
                    0 <= k < pairs.len() && (#[trigger] pairs[k]).reference == ii by {
                    if ii == upto - 1 {
                        assert(nl[lone.len() as int] == ii);
                    } else if lone.contains(ii as usize) {
                        let q = choose|q: int| 0 <= q < lone.len() && lone[q] == ii as usize;
                        assert(nl[q] == lone[q]);
                    }
                }
                assert(els.pairing_invariant(upto, pairs, rem, nl));
            },
        }
    }
}

/// Pairing is one to one: every pair joins elements of one kind whose
/// overlap key reaches both floors; no element takes part in two pairs;
/// every implementation element is either paired or free, not both; and
/// every reference element is either paired or left unpaired, not both.
pub proof fn lemma_pairing_one_to_one(els: &LayoutElements)
    requires
        els.well_formed(),
        els.ref_kinds@.len() <= usize::MAX,
        els.impl_kinds@.len() <= usize::MAX,
    ensures
        ({
            let (pairs, free, lone) = els.pairing(els.ref_kinds@.len() as int);
            els.pairing_invariant(els.ref_kinds@.len() as int, pairs, free, lone)
        }),
{
    lemma_pairing(els, els.ref_kinds@.len() as int);
}

/// A reference element and the implementation element paired with it.
#[derive(Debug, Clone, Copy, PartialEq, Eq, Structural)]
pub struct LayoutPair {
    pub reference: usize,
    pub implementation: usize,
    pub overlap: u32,
}

/// Which view a layout difference points into.
#[derive(Debug, Clone, Copy, PartialEq, Eq, Structural)]
pub enum Side {
    Reference,
    Implementation,
}

/// A layout difference: its kind and the element it is drawn at.
#[derive(Debug, Clone, Copy, PartialEq, Eq, Structural)]
pub struct LayoutDiffEntry {
    pub kind: LayoutDiffKind,
    pub side: Side,
    pub index: usize,
}

/// The outcome of pairing: the pairs, in reference order, and the
/// differences, in the order in which they are reported.
pub struct LayoutMatching {
    pub pairs: Vec<LayoutPair>,
    pub diffs: Vec<LayoutDiffEntry>,
}

pub open spec fn missing_entry(i: usize) -> LayoutDiffEntry {
    LayoutDiffEntry { kind: LayoutDiffKind::MissingElement, side: Side::Reference, index: i }
}

pub open spec fn extra_entry(j: usize) -> LayoutDiffEntry {
    LayoutDiffEntry { kind: LayoutDiffKind::ExtraElement, side: Side::Implementation, index: j }
}

pub open spec fn shift_entry(p: LayoutPair) -> LayoutDiffEntry {
    LayoutDiffEntry {
        kind: LayoutDiffKind::PositionShift,
        side: Side::Implementation,
        index: p.implementation,
    }
}

/// The differences of a pairing: every unpaired reference element is
/// missing, every free implementation element is extra (listed twice, once
/// before and once after the shifted pairs), and every pair below the
/// acceptance key is shifted.
pub open spec fn layout_diffs(
    pairs: Seq<LayoutPair>,
    free: Seq<usize>,
    lone: Seq<usize>,
    accept_floor: u32,
) -> Seq<LayoutDiffEntry> {
    lone.map_values(|i: usize| missing_entry(i)) + free.map_values(|j: usize| extra_entry(j))
        + pairs.filter(|p: LayoutPair| p.overlap < accept_floor).map_values(
        |p: LayoutPair| shift_entry(p),
    ) + free.map_values(|j: usize| extra_entry(j))
}

/// The position of the first element of `rem` with the largest key among
/// those that may stand for reference element `i`.
fn best_candidate(els: &LayoutElements, i: usize, rem: &Vec<usize>) -> (r: Option<usize>)
    requires
        els.well_formed(),
        i < els.ref_kinds@.len(),
        forall|k: int| 0 <= k < rem@.len() ==> #[trigger] rem@[k] < els.impl_kinds@.len(),
    ensures
        match r {
            Some(p) => els.best_upto(i as int, rem@, rem@.len() as int) == Some(p as int),
            None => els.best_upto(i as int, rem@, rem@.len() as int) is None,
        },
        r matches Some(p) ==> p < rem@.len(),
{
    let mut best: Option<usize> = None;
    let mut best_key: u32 = 0;
    for k in 0..rem.len()
        invariant
            els.well_formed(),
            i < els.ref_kinds@.len(),
            forall|q: int| 0 <= q < rem@.len() ==> #[trigger] rem@[q] < els.impl_kinds@.len(),
            match best {
                Some(p) => els.best_upto(i as int, rem@, k as int) == Some(p as int) && p < k
                    && best_key == els.key(i as int, rem@[p as int]),
                None => els.best_upto(i as int, rem@, k as int) is None,
            },
    {
        let c = rem[k];
        proof {
            assert(els.overlap@[i as int]@.len() == els.impl_kinds@.len());
        }
        let key = els.overlap[i][c];
        let eligible = els.impl_kinds[c] == els.ref_kinds[i] && key >= els.match_floor;
        if eligible && (best.is_none() || key > best_key) {
            best = Some(k);
            best_key = key;
        }
    }
    best
}

/// Pairs every reference element, in order, with the free implementation
/// element of its kind whose overlap key is largest (the first of equals),
/// when that key reaches `match_floor` and `accept_floor`; and lists the
/// differences. A reference without elements cannot be compared.
pub fn match_layout(els: &LayoutElements) -> (r: Result<LayoutMatching, DpcError>)
    requires
        els.well_formed(),
    ensures
        els.ref_kinds@.len() == 0 <==> r is Err,
        r matches Err(e) ==> (e matches DpcError::Config(m) && m@
            == "No layout elements available in reference view"@),
        r matches Ok(m) ==> ({
            let (pairs, free, lone) = els.pairing(els.ref_kinds@.len() as int);
            &&& m.pairs@ == pairs
            &&& m.diffs@ == layout_diffs(pairs, free, lone, els.accept_floor)
        }),
{
    let n = els.ref_kinds.len();
    if n == 0 {
        return Err(DpcError::Config(owned("No layout elements available in reference view")));
    }
    let mut rem: Vec<usize> = Vec::new();
    let m = els.impl_kinds.len();
    for j in 0..m
        invariant
            rem@ == Seq::new(j as nat, |q: int| q as usize),
    {
        rem.push(j);
        proof {
            assert(rem@ =~= Seq::new((j + 1) as nat, |q: int| q as usize));
        }
    }
    proof {
        assert(rem@ =~= els.pairing(0).1);
    }
    let mut pairs: Vec<LayoutPair> = Vec::new();
    let mut lone: Vec<usize> = Vec::new();
    for i in 0..n
        invariant
            els.well_formed(),
            n == els.ref_kinds@.len(),
            m == els.impl_kinds@.len(),
            (pairs@, rem@, lone@) == els.pairing(i as int),
            forall|k: int| 0 <= k < rem@.len() ==> #[trigger] rem@[k] < m,
    {
        let best = best_candidate(els, i, &rem);
        match best {
            Some(p) => {
                let c = rem[p];
                proof {
                    assert(els.overlap@[i as int]@.len() == m);
                }
                let key = els.overlap[i][c];
                if key >= els.accept_floor {
                    pairs.push(LayoutPair { reference: i, implementation: c, overlap: key });
                    let ghost before = rem@;
                    rem.remove(p);
                    proof {
                        assert forall|k: int| 0 <= k < rem@.len() implies #[trigger] rem@[k] < m by {
                            if k < p {
                                assert(rem@[k] == before[k]);
                            } else {
                                assert(rem@[k] == before[k + 1]);
                            }
                        }
                    }
                } else {
                    lone.push(i);
                }
            },
            None => {
                lone.push(i);
            },
        }
    }
    let mut diffs: Vec<LayoutDiffEntry> = Vec::new();
    for k in 0..lone.len()
        invariant
            diffs@ == lone@.take(k as int).map_values(|i: usize| missing_entry(i)),
    {
        diffs.push(LayoutDiffEntry { kind: LayoutDiffKind::MissingElement, side: Side::Reference, index: lone[k] });
        proof {
            assert(lone@.take(k + 1).map_values(|i: usize| missing_entry(i)) =~= lone@.take(
                k as int,
            ).map_values(|i: usize| missing_entry(i)).push(missing_entry(lone@[k as int])));
        }
    }
    proof {
        assert(lone@.take(lone@.len() as int) =~= lone@);
    }
    push_extras(&mut diffs, &rem);
    let ghost after_extras = diffs@;
    let ghost pred = |p: LayoutPair| p.overlap < els.accept_floor;
    for k in 0..pairs.len()
        invariant
            pred == (|p: LayoutPair| p.overlap < els.accept_floor),
            diffs@ == after_extras + pairs@.take(k as int).filter(pred).map_values(
                |p: LayoutPair| shift_entry(p),
            ),
    {
        proof {
            assert(pairs@.take(k + 1).drop_last() =~= pairs@.take(k as int));
            reveal_with_fuel(Seq::<_>::filter, 1);
        }
        let p = pairs[k];
        let ghost before = diffs@;
        if p.overlap < els.accept_floor {
            diffs.push(LayoutDiffEntry { kind: LayoutDiffKind::PositionShift, side: Side::Implementation, index: p.implementation });
            proof {
                let f = pairs@.take(k as int).filter(pred);
                assert(pairs@.take(k + 1).filter(pred) == f.push(p));
                assert(f.push(p).map_values(|p: LayoutPair| shift_entry(p)) =~= f.map_values(
                    |p: LayoutPair| shift_entry(p),
                ).push(shift_entry(p)));
                assert(diffs@ =~= after_extras + pairs@.take(k + 1).filter(pred).map_values(
                    |p: LayoutPair| shift_entry(p),
                ));
            }
        }
    }
    proof {
        assert(pairs@.take(pairs@.len() as int) =~= pairs@);
    }
    push_extras(&mut diffs, &rem);
    Ok(LayoutMatching { pairs, diffs })
}

fn push_extras(diffs: &mut Vec<LayoutDiffEntry>, free: &Vec<usize>)
    ensures
        final(diffs)@ == old(diffs)@ + free@.map_values(|j: usize| extra_entry(j)),
{
    let ghost start = diffs@;
    for k in 0..free.len()
        invariant
            diffs@ == start + free@.take(k as int).map_values(|j: usize| extra_entry(j)),
    {
        diffs.push(LayoutDiffEntry { kind: LayoutDiffKind::ExtraElement, side: Side::Implementation, index: free[k] });
        proof {
            assert(free@.take(k + 1).map_values(|j: usize| extra_entry(j)) =~= free@.take(
                k as int,
            ).map_values(|j: usize| extra_entry(j)).push(extra_entry(free@[k as int])));
        }
    }
    proof {
        assert(free@.take(free@.len() as int) =~= free@);
    }
}

} // verus!
