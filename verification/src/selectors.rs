//! Ignore selectors: reading them from the command line and deciding which
//! DOM elements they remove from a comparison.
use vstd::prelude::*;

use crate::text::{
    ascii_lowercase, chars_of, eq_chars, free_of, join_char, lemma_ascii_lower_char,
    lemma_split_char_pieces, lemma_split_join, lemma_trim_fixed, lemma_trim_shape, lower_seq,
    skip_chars, split_char, split_on, split_words, string_from_chars, trim, trim_chars, trim_start,
    words,
};

verus! {

/// The selectors given in a comma-separated list: each piece trimmed and
/// lower-cased, empty pieces dropped.
pub open spec fn selector_list(raw: Seq<char>) -> Seq<Seq<char>> {
    split_char(raw, ',').map_values(|p: Seq<char>| lower_seq(trim(p))).filter(
        |p: Seq<char>| p.len() > 0,
    )
}

pub open spec fn string_views(v: Seq<String>) -> Seq<Seq<char>> {
    v.map_values(|s: String| s@)
}

/// Reads the ignore selectors from their comma-separated form.
pub fn parse_ignore_selectors(raw: Option<&str>) -> (r: Vec<String>)
    ensures
        raw is None ==> r@.len() == 0,
        raw matches Some(s) ==> string_views(r@) == selector_list(s@),
{
    let mut out: Vec<String> = Vec::new();
    match raw {
        None => out,
        Some(s) => {
            let cs = chars_of(s);
            let pieces = split_on(cs.as_slice(), ',');
            let ghost model = split_char(s@, ',').map_values(|p: Seq<char>| lower_seq(trim(p)));
            let ghost keep = |p: Seq<char>| p.len() > 0;
            for k in 0..pieces.len()
                invariant
                    pieces@.len() == split_char(s@, ',').len(),
                    forall|q: int| 0 <= q < pieces@.len() ==> #[trigger] pieces@[q]@ == split_char(s@, ',')[q],
                    model == split_char(s@, ',').map_values(|p: Seq<char>| lower_seq(trim(p))),
                    keep == (|p: Seq<char>| p.len() > 0),
                    string_views(out@) == model.take(k as int).filter(keep),
            {
                let t = trim_chars(pieces[k].as_slice());
                let l = ascii_lowercase(t.as_slice());
                proof {
                    assert(model.take(k + 1).drop_last() =~= model.take(k as int));
                    assert(model.take(k + 1).last() == l@);
                    reveal_with_fuel(Seq::<_>::filter, 1);
                }
                if l.len() > 0 {
                    let ghost before = string_views(out@);
                    out.push(string_from_chars(l.as_slice()));
                    proof {
                        assert(string_views(out@) =~= before.push(l@));
                    }
                }
            }
            proof {
                assert(model.take(pieces@.len() as int) =~= model);
            }
            out
        },
    }
}

/// A selector as a list gives it: not empty, without a comma, without
/// white space at either end, without an upper-case ASCII letter.
pub open spec fn normal_selector(e: Seq<char>) -> bool {
    &&& e.len() > 0
    &&& !e.contains(',')
    &&& trim(e) == e
    &&& lower_seq(e) == e
}

/// A piece of a list, trimmed and lower-cased.
pub open spec fn clean_piece(p: Seq<char>) -> Seq<char> {
    lower_seq(trim(p))
}

proof fn lemma_clean_piece(p: Seq<char>)
    requires
        free_of(p, ','),
    ensures
        free_of(clean_piece(p), ','),
        trim(clean_piece(p)) == clean_piece(p),
        lower_seq(clean_piece(p)) == clean_piece(p),
{
    let t = trim(p);
    let e = clean_piece(p);
    lemma_trim_shape(p);
    let off = p.len() - trim_start(p).len();
    assert forall|i: int| 0 <= i < e.len() implies e[i] != ',' by {
        assert(t[i] == p[off + i]);
        lemma_ascii_lower_char(t[i]);
    }
    if e.len() > 0 {
        lemma_ascii_lower_char(t[0]);
        lemma_ascii_lower_char(t[t.len() - 1]);
    }
    lemma_trim_fixed(e);
    assert forall|i: int| 0 <= i < e.len() implies #[trigger] lower_seq(e)[i] == e[i] by {
        lemma_ascii_lower_char(t[i]);
    }
    assert(lower_seq(e) =~= e);
}

proof fn lemma_filter_keeps_all(s: Seq<Seq<char>>)
    requires
        forall|k: int| 0 <= k < s.len() ==> (#[trigger] s[k]).len() > 0,
    ensures
        s.filter(|p: Seq<char>| p.len() > 0) == s,
    decreases s.len(),
{
    reveal_with_fuel(Seq::<_>::filter, 1);
    if s.len() > 0 {
        let init = s.drop_last();
        assert forall|k: int| 0 <= k < init.len() implies (#[trigger] init[k]).len() > 0 by {
            assert(init[k] == s[k]);
        }
        lemma_filter_keeps_all(init);
        assert(s[s.len() - 1].len() > 0);
        assert(init.push(s.last()) =~= s);
    }
}

/// Each selector read from a list is normal: not empty, without a comma,
/// trimmed and lower-case. Reading the selectors again, joined with commas,
/// gives the same selectors.
pub proof fn lemma_selector_list_normal(raw: Seq<char>)
    ensures
        forall|k: int|
            0 <= k < selector_list(raw).len() ==> normal_selector(#[trigger] selector_list(raw)[k]),
        selector_list(join_char(selector_list(raw), ',')) == selector_list(raw),
{
    let pieces = split_char(raw, ',');
    let keep = |p: Seq<char>| p.len() > 0;
    let m = pieces.map_values(|p: Seq<char>| lower_seq(trim(p)));
    let es = selector_list(raw);
    assert(es == m.filter(keep));
    lemma_split_char_pieces(raw, ',');
    assert forall|k: int| 0 <= k < es.len() implies normal_selector(#[trigger] es[k]) by {
        m.lemma_filter_pred(keep, k);
        m.lemma_filter_contains_rev(keep, es[k]);
        let j = choose|j: int| 0 <= j < m.len() && m[j] == es[k];
        assert(free_of(pieces[j], ','));
        lemma_clean_piece(pieces[j]);
        assert(m[j] == clean_piece(pieces[j]));
        if es[k].contains(',') {
            let i = choose|i: int| 0 <= i < es[k].len() && es[k][i] == ',';
            assert(false);
        }
    }
    if es.len() == 0 {
        assert(join_char(es, ',') =~= Seq::<char>::empty());
        assert(split_char(Seq::<char>::empty(), ',') =~= seq![Seq::<char>::empty()]);
        assert(trim(Seq::<char>::empty()) =~= Seq::<char>::empty());
        let m2 = seq![Seq::<char>::empty()].map_values(|p: Seq<char>| lower_seq(trim(p)));
        assert(lower_seq(Seq::<char>::empty()) =~= Seq::<char>::empty());
        assert(m2[0] == lower_seq(trim(Seq::<char>::empty())));
        assert(m2 =~= seq![Seq::<char>::empty()]);
        reveal_with_fuel(Seq::<_>::filter, 2);
        assert(m2.drop_last() =~= Seq::<Seq<char>>::empty());
        assert(m2.filter(keep) =~= Seq::<Seq<char>>::empty());
    } else {
        assert forall|k: int| 0 <= k < es.len() implies free_of(#[trigger] es[k], ',') by {
            assert(normal_selector(es[k]));
            assert forall|i: int| 0 <= i < es[k].len() implies es[k][i] != ',' by {
                if es[k][i] == ',' {
                    assert(es[k].contains(','));
                }
            }
        }
        lemma_split_join(es, ',');
        let m2 = es.map_values(|p: Seq<char>| lower_seq(trim(p)));
        assert forall|k: int| 0 <= k < es.len() implies #[trigger] m2[k] == es[k] by {
            assert(normal_selector(es[k]));
        }
        assert(m2 =~= es);
        lemma_filter_keeps_all(es);
    }
}

/// What a selector reads of a DOM element: its node id, its tag, and its
/// `id` and `class` attributes when it has them.
pub struct SelectorTarget {
    pub id: String,
    pub tag: String,
    pub attr_id: Option<String>,
    pub class_attr: Option<String>,
}

pub open spec fn text_or_empty(o: Option<String>) -> Seq<char> {
    match o {
        Some(s) => s@,
        None => Seq::empty(),
    }
}

/// `#name` matches by the `id` attribute or the node id, `.name` by one of
/// the classes, anything else by the tag; all ignoring ASCII case.
pub open spec fn selects(t: SelectorTarget, sel: Seq<char>) -> bool {
    if sel.len() > 0 && sel[0] == '#' {
        let id = lower_seq(sel.drop_first());
        lower_seq(text_or_empty(t.attr_id)) == id || lower_seq(t.id@) == id
    } else if sel.len() > 0 && sel[0] == '.' {
        let class = lower_seq(sel.drop_first());
        match t.class_attr {
            Some(c) => exists|k: int|
                0 <= k < words(c@).len() && lower_seq(#[trigger] words(c@)[k]) == lower_seq(class),
            None => false,
        }
    } else {
        lower_seq(t.tag@) == lower_seq(sel)
    }
}

/// Some selector of the list selects the element.
pub open spec fn selected_by_any(t: SelectorTarget, sels: Seq<String>) -> bool {
    exists|k: int| 0 <= k < sels.len() && selects(t, #[trigger] sels[k]@)
}

fn lowered(s: &str) -> (r: Vec<char>)
    ensures
        r@ == lower_seq(s@),
{
    let cs = chars_of(s);
    ascii_lowercase(cs.as_slice())
}

/// Whether the selector selects the element.
pub fn selector_matches(t: &SelectorTarget, selector: &str) -> (b: bool)
    ensures
        b == selects(*t, selector@),
{
    let sel = chars_of(selector);
    if sel.len() > 0 && sel[0] == '#' {
        let rest = ascii_lowercase(skip_chars(sel.as_slice(), 1).as_slice());
        proof {
            assert(sel@.subrange(1, sel@.len() as int) =~= sel@.drop_first());
        }
        let attr = match &t.attr_id {
            Some(a) => lowered(a.as_str()),
            None => Vec::new(),
        };
        proof {
            assert(t.attr_id is None ==> lower_seq(text_or_empty(t.attr_id)) =~= Seq::<char>::empty());
        }
        let node = lowered(t.id.as_str());
        eq_chars(attr.as_slice(), rest.as_slice()) || eq_chars(node.as_slice(), rest.as_slice())
    } else if sel.len() > 0 && sel[0] == '.' {
        let class = ascii_lowercase(skip_chars(sel.as_slice(), 1).as_slice());
        let class_l = ascii_lowercase(class.as_slice());
        proof {
            assert(sel@.subrange(1, sel@.len() as int) =~= sel@.drop_first());
        }
        match &t.class_attr {
            None => false,
            Some(c) => {
                let cc = chars_of(c.as_str());
                let ws = split_words(cc.as_slice());
                let mut found = false;
                for k in 0..ws.len()
                    invariant
                        ws@.len() == words(c@).len(),
                        forall|q: int| 0 <= q < ws@.len() ==> #[trigger] ws@[q]@ == words(c@)[q],
                        class_l@ == lower_seq(class@),
                        found == exists|q: int|
                            0 <= q < k && lower_seq(#[trigger] words(c@)[q]) == lower_seq(class@),
                {
                    let w = ascii_lowercase(ws[k].as_slice());
                    if eq_chars(w.as_slice(), class_l.as_slice()) {
                        proof {
                            assert(lower_seq(words(c@)[k as int]) == lower_seq(class@));
                        }
                        found = true;
                    }
                }
                found
            },
        }
    } else {
        let tag = lowered(t.tag.as_str());
        let s = ascii_lowercase(sel.as_slice());
        eq_chars(tag.as_slice(), s.as_slice())
    }
}

/// Whether any of the selectors selects the element.
pub fn matches_any_selector(t: &SelectorTarget, selectors: &Vec<String>) -> (b: bool)
    ensures
        b == selected_by_any(*t, selectors@),
{
    for k in 0..selectors.len()
        invariant
            forall|q: int| 0 <= q < k ==> !selects(*t, #[trigger] selectors@[q]@),
    {
        if selector_matches(t, selectors[k].as_str()) {
            return true;
        }
    }
    false
}

/// The positions of the elements that no selector selects, in order: what
/// is left of a DOM once the ignored elements are taken out.
pub fn retained_nodes(targets: &Vec<SelectorTarget>, selectors: &Vec<String>) -> (r: Vec<usize>)
    ensures
        r@ == Seq::new(targets@.len(), |i: int| i as usize).filter(
            |i: usize| !selected_by_any(targets@[i as int], selectors@),
        ),
{
    let ghost all = Seq::new(targets@.len(), |i: int| i as usize);
    let ghost keep = |i: usize| !selected_by_any(targets@[i as int], selectors@);
    let mut out: Vec<usize> = Vec::new();
    for i in 0..targets.len()
        invariant
            all == Seq::new(targets@.len(), |i: int| i as usize),
            keep == (|i: usize| !selected_by_any(targets@[i as int], selectors@)),
            out@ == all.take(i as int).filter(keep),
    {
        proof {
            assert(all.take(i + 1).drop_last() =~= all.take(i as int));
            assert(all.take(i + 1).last() == i);
            reveal_with_fuel(Seq::<_>::filter, 1);
        }
        if !matches_any_selector(&targets[i], selectors) {
            out.push(i);
        }
    }
    proof {
        assert(all.take(targets@.len() as int) =~= all);
    }
    out
}

} // verus!
