//! Text normalization for comparing the text content of two views.
use vstd::prelude::*;

use crate::resource::{to_lowercase, unicode_lowercase};
use crate::text::{chars_of, char_is_space, is_space, split_words, string_from_chars, words};

verus! {

/// What `char::is_alphanumeric` answers (Unicode `Alphabetic` or numeric).
pub uninterp spec fn unicode_alphanumeric(c: char) -> bool;

/// `char::is_alphanumeric`. Claimed: the answer is `unicode_alphanumeric`
/// of the character; nothing is claimed of which characters those are.
#[verifier::external_body]
fn char_is_alphanumeric(c: char) -> (b: bool)
    ensures
        b == unicode_alphanumeric(c),
{
    c.is_alphanumeric()
}

/// The text with every character that is neither alphanumeric nor white
/// space dropped, and every white space character made a plain space.
pub open spec fn cleaned(s: Seq<char>) -> Seq<char>
    decreases s.len(),
{
    if s.len() == 0 {
        Seq::empty()
    } else {
        let p = cleaned(s.drop_last());
        let c = s.last();
        if unicode_alphanumeric(c) {
            p.push(c)
        } else if is_space(c) {
            p.push(' ')
        } else {
            p
        }
    }
}

/// The words joined with single spaces.
pub open spec fn join_spaced(ws: Seq<Seq<char>>) -> Seq<char>
    decreases ws.len(),
{
    if ws.len() == 0 {
        Seq::empty()
    } else if ws.len() == 1 {
        ws[0]
    } else {
        join_spaced(ws.drop_last()) + seq![' '] + ws.last()
    }
}

/// The normal form of a text: lower-cased, reduced to its alphanumeric
/// words separated by single spaces; none when no word is left.
pub open spec fn normal_text(s: Seq<char>) -> Option<Seq<char>> {
    let c = join_spaced(words(cleaned(unicode_lowercase(s))));
    if c.len() == 0 {
        None
    } else {
        Some(c)
    }
}

fn clean_chars(s: &[char]) -> (r: Vec<char>)
    ensures
        r@ == cleaned(s@),
{
    let mut out: Vec<char> = Vec::new();
    for i in 0..s.len()
        invariant
            out@ == cleaned(s@.take(i as int)),
    {
        proof {
            assert(s@.take(i + 1).drop_last() =~= s@.take(i as int));
        }
        let c = s[i];
        if char_is_alphanumeric(c) {
            out.push(c);
        } else if char_is_space(c) {
            out.push(' ');
        }
    }
    proof {
        assert(s@.take(s@.len() as int) =~= s@);
    }
    out
}

/// A joined word list is empty exactly when there are no words or the only
/// words are empty; words of `split_whitespace` never are.
proof fn lemma_join_nonempty(ws: Seq<Seq<char>>)
    requires
        ws.len() > 0,
        forall|k: int| 0 <= k < ws.len() ==> #[trigger] ws[k].len() > 0,
    ensures
        join_spaced(ws).len() > 0,
    decreases ws.len(),
{
    if ws.len() > 1 {
        lemma_join_nonempty(ws.drop_last());
    }
}

proof fn lemma_words_nonempty(s: Seq<char>)
    ensures
        forall|k: int| 0 <= k < words(s).len() ==> #[trigger] words(s)[k].len() > 0,
{
    lemma_scan_nonempty(s);
}

proof fn lemma_scan_nonempty(s: Seq<char>)
    ensures
        forall|k: int|
            0 <= k < crate::text::words_scan(s).0.len() ==> #[trigger] crate::text::words_scan(
                s,
            ).0[k].len() > 0,
    decreases s.len(),
{
    if s.len() > 0 {
        lemma_scan_nonempty(s.drop_last());
        let (done, cur) = crate::text::words_scan(s.drop_last());
        if is_space(s.last()) && cur.len() > 0 {
            assert forall|k: int| 0 <= k < done.push(cur).len() implies #[trigger] done.push(cur)[k].len() > 0 by {
                if k < done.len() {
                    assert(done.push(cur)[k] == done[k]);
                }
            }
        }
    }
}

/// Normalizes a text for comparison: lower-cased, only letters, digits and
/// single spaces between words; `None` when nothing is left.
pub fn normalize_text(input: &str) -> (r: Option<String>)
    ensures
        match normal_text(input@) {
            Some(t) => r matches Some(s) && s@ == t,
            None => r is None,
        },
{
    let lower = to_lowercase(input);
    let cs = chars_of(lower.as_str());
    let cleaned_v = clean_chars(cs.as_slice());
    let ws = split_words(cleaned_v.as_slice());
    let ghost wv = words(cleaned(unicode_lowercase(input@)));
    let mut out: Vec<char> = Vec::new();
    for k in 0..ws.len()
        invariant
            ws@.len() == wv.len(),
            forall|q: int| 0 <= q < ws@.len() ==> #[trigger] ws@[q]@ == wv[q],
            out@ == join_spaced(wv.take(k as int)),
    {
        let ghost before = out@;
        if k > 0 {
            out.push(' ');
        }
        crate::text::push_all(&mut out, ws[k].as_slice());
        proof {
            assert(wv.take(k + 1).drop_last() =~= wv.take(k as int));
            if k == 0 {
                assert(wv.take(0) =~= Seq::<Seq<char>>::empty());
            }
            assert(out@ =~= join_spaced(wv.take(k + 1)));
        }
    }
    proof {
        assert(wv.take(wv.len() as int) =~= wv);
        lemma_words_nonempty(cleaned(unicode_lowercase(input@)));
        if wv.len() > 0 {
            lemma_join_nonempty(wv);
        }
    }
    if out.len() == 0 {
        None
    } else {
        Some(string_from_chars(out.as_slice()))
    }
}

/// The words without repeats, each where it first occurs.
pub open spec fn distinct_words(ws: Seq<Seq<char>>) -> Seq<Seq<char>>
    decreases ws.len(),
{
    if ws.len() == 0 {
        Seq::empty()
    } else {
        let d = distinct_words(ws.drop_last());
        if d.contains(ws.last()) {
            d
        } else {
            d.push(ws.last())
        }
    }
}

/// How the word sets of two texts overlap: how many distinct words both
/// have, and how many distinct words each has.
pub struct TokenOverlap {
    pub common: usize,
    pub left: usize,
    pub right: usize,
}

pub open spec fn occurs_in(ws: Seq<Seq<char>>) -> spec_fn(Seq<char>) -> bool {
    |w: Seq<char>| ws.contains(w)
}

fn contains_word(ws: &Vec<Vec<char>>, w: &Vec<char>) -> (b: bool)
    ensures
        b == word_views(ws@).contains(w@),
{
    for k in 0..ws.len()
        invariant
            forall|q: int| 0 <= q < k ==> word_views(ws@)[q] != w@,
    {
        if crate::text::eq_chars(ws[k].as_slice(), w.as_slice()) {
            proof {
                assert(word_views(ws@)[k as int] == w@);
            }
            return true;
        }
    }
    false
}

pub open spec fn word_views(ws: Seq<Vec<char>>) -> Seq<Seq<char>> {
    ws.map_values(|w: Vec<char>| w@)
}

fn distinct_of(ws: &Vec<Vec<char>>) -> (r: Vec<Vec<char>>)
    ensures
        word_views(r@) == distinct_words(word_views(ws@)),
{
    let ghost v = word_views(ws@);
    let mut out: Vec<Vec<char>> = Vec::new();
    for k in 0..ws.len()
        invariant
            v == word_views(ws@),
            word_views(out@) == distinct_words(v.take(k as int)),
    {
        proof {
            assert(v.take(k + 1).drop_last() =~= v.take(k as int));
            assert(v.take(k + 1).last() == ws@[k as int]@);
        }
        if !contains_word(&out, &ws[k]) {
            let ghost before = word_views(out@);
            out.push(crate::text::skip_chars(ws[k].as_slice(), 0));
            proof {
                assert(ws@[k as int]@.subrange(0, ws@[k as int]@.len() as int) =~= ws@[k as int]@);
                assert(word_views(out@) =~= before.push(ws@[k as int]@));
            }
        }
    }
    proof {
        assert(v.take(ws@.len() as int) =~= v);
    }
    out
}

/// Compares the word sets of two texts (words are separated by white
/// space): the distinct words both share, and the distinct words of each.
pub fn token_overlap(a: &str, b: &str) -> (r: TokenOverlap)
    ensures
        r.left == distinct_words(words(a@)).len(),
        r.right == distinct_words(words(b@)).len(),
        r.common == distinct_words(words(a@)).filter(occurs_in(words(b@))).len(),
{
    let ca = chars_of(a);
    let cb = chars_of(b);
    let wa = split_words(ca.as_slice());
    let wb = split_words(cb.as_slice());
    proof {
        assert(word_views(wa@) =~= words(a@));
        assert(word_views(wb@) =~= words(b@));
    }
    let da = distinct_of(&wa);
    let db = distinct_of(&wb);
    let ghost dv = word_views(da@);
    let mut common: usize = 0;
    for k in 0..da.len()
        invariant
            dv == word_views(da@),
            dv == distinct_words(words(a@)),
            word_views(wb@) == words(b@),
            common == dv.take(k as int).filter(occurs_in(words(b@))).len(),
            common <= k,
    {
        proof {
            assert(dv.take(k + 1).drop_last() =~= dv.take(k as int));
            assert(dv.take(k + 1).last() == da@[k as int]@);
            reveal_with_fuel(Seq::<_>::filter, 1);
        }
        if contains_word(&wb, &da[k]) {
            common = common + 1;
        }
    }
    proof {
        assert(dv.take(da@.len() as int) =~= dv);
    }
    TokenOverlap { common, left: da.len(), right: db.len() }
}

} // verus!
