//! Character-level text model shared by the parsers and message builders.
//!
//! Strings are handled as `Seq<char>` in specifications and as `Vec<char>`
//! in executable code; the two conversions at the boundary are `chars_of`
//! and `string_from_chars`.
use vstd::prelude::*;

verus! {

// ---------------------------------------------------------------------------
// Conversions between `str`/`String` and character vectors
// ---------------------------------------------------------------------------

/// The characters of `s`, in order.
pub fn chars_of(s: &str) -> (r: Vec<char>)
    ensures
        r@ == s@,
{
    let mut v: Vec<char> = Vec::new();
    for c in it: s.chars()
        invariant
            v@ == it.seq().take(it.index() as int),
    {
        v.push(c);
    }
    v
}

/// Collects characters into a `String` (std's `FromIterator<&char> for String`).
/// Claimed: the string holds exactly the given characters, in order.
#[verifier::external_body]
pub fn string_from_chars(v: &[char]) -> (r: String)
    ensures
        r@ == v@,
{
    v.iter().collect()
}

/// Copies a string slice into an owned `String`.
pub fn owned(s: &str) -> (r: String)
    ensures
        r@ == s@,
{
    s.to_owned()
}

// ---------------------------------------------------------------------------
// Whitespace and ASCII case
// ---------------------------------------------------------------------------

/// Unicode `White_Space`, the set that `char::is_whitespace` tests.
pub open spec fn is_space(c: char) -> bool {
    ||| '\u{9}' <= c <= '\u{D}'
    ||| c == ' '
    ||| c == '\u{85}'
    ||| c == '\u{A0}'
    ||| c == '\u{1680}'
    ||| '\u{2000}' <= c <= '\u{200A}'
    ||| c == '\u{2028}'
    ||| c == '\u{2029}'
    ||| c == '\u{202F}'
    ||| c == '\u{205F}'
    ||| c == '\u{3000}'
}

pub fn char_is_space(c: char) -> (b: bool)
    ensures
        b == is_space(c),
{
    ('\u{9}' <= c && c <= '\u{D}') || c == ' ' || c == '\u{85}' || c == '\u{A0}' || c
        == '\u{1680}' || ('\u{2000}' <= c && c <= '\u{200A}') || c == '\u{2028}' || c
        == '\u{2029}' || c == '\u{202F}' || c == '\u{205F}' || c == '\u{3000}'
}

/// `char::to_ascii_lowercase`.
pub open spec fn ascii_lower(c: char) -> char {
    if 'A' <= c <= 'Z' {
        ((c as u32) + 32) as char
    } else {
        c
    }
}

pub open spec fn lower_seq(s: Seq<char>) -> Seq<char> {
    s.map_values(|c: char| ascii_lower(c))
}

pub fn char_ascii_lower(c: char) -> (r: char)
    ensures
        r == ascii_lower(c),
{
    if 'A' <= c && c <= 'Z' {
        let v: u32 = (c as u32) + 32;
        proof {
            assert(0x61 <= v <= 0x7A);
        }
        char_from_ascii(v)
    } else {
        c
    }
}

/// The character with the given code point, for code points of ASCII letters.
fn char_from_ascii(v: u32) -> (r: char)
    requires
        v < 128,
    ensures
        r == v as char,
{
    let b: u8 = v as u8;
    b as char
}

/// `str::to_ascii_lowercase`, on characters.
pub fn ascii_lowercase(s: &[char]) -> (r: Vec<char>)
    ensures
        r@ == lower_seq(s@),
{
    let mut out: Vec<char> = Vec::new();
    let n = s.len();
    for i in 0..n
        invariant
            n == s@.len(),
            out@ == lower_seq(s@.take(i as int)),
    {
        let c = char_ascii_lower(s[i]);
        out.push(c);
        proof {
            assert(lower_seq(s@.take(i + 1)) =~= lower_seq(s@.take(i as int)).push(ascii_lower(s@[i as int])));
        }
    }
    proof {
        assert(s@.take(n as int) =~= s@);
    }
    out
}

// ---------------------------------------------------------------------------
// Trimming
// ---------------------------------------------------------------------------

pub open spec fn trim_start(s: Seq<char>) -> Seq<char>
    decreases s.len(),
{
    if s.len() > 0 && is_space(s[0]) {
        trim_start(s.drop_first())
    } else {
        s
    }
}

pub open spec fn trim_end(s: Seq<char>) -> Seq<char>
    decreases s.len(),
{
    if s.len() > 0 && is_space(s.last()) {
        trim_end(s.drop_last())
    } else {
        s
    }
}

/// `str::trim`: the string without leading and trailing white space.
pub open spec fn trim(s: Seq<char>) -> Seq<char> {
    trim_end(trim_start(s))
}

/// `str::trim`, on characters.
pub fn trim_chars(s: &[char]) -> (r: Vec<char>)
    ensures
        r@ == trim(s@),
{
    let n = s.len();
    let mut i: usize = 0;
    proof {
        assert(s@.subrange(0, n as int) =~= s@);
    }
    while i < n && char_is_space(s[i])
        invariant
            i <= n,
            n == s@.len(),
            trim_start(s@) == trim_start(s@.subrange(i as int, n as int)),
        decreases n - i,
    {
        proof {
            assert(s@.subrange(i as int, n as int).drop_first() =~= s@.subrange(i + 1, n as int));
        }
        i = i + 1;
    }
    let ghost t = s@.subrange(i as int, n as int);
    proof {
        assert(trim_start(t) == t);
    }
    let mut j: usize = n;
    while j > i && char_is_space(s[j - 1])
        invariant
            i <= j <= n,
            n == s@.len(),
            t == s@.subrange(i as int, n as int),
            trim_end(t) == trim_end(s@.subrange(i as int, j as int)),
        decreases j,
    {
        proof {
            assert(s@.subrange(i as int, j as int).drop_last() =~= s@.subrange(i as int, j - 1));
        }
        j = j - 1;
    }
    let mut out: Vec<char> = Vec::new();
    let mut k: usize = i;
    while k < j
        invariant
            i <= k <= j <= n,
            n == s@.len(),
            out@ == s@.subrange(i as int, k as int),
        decreases j - k,
    {
        out.push(s[k]);
        proof {
            assert(s@.subrange(i as int, k + 1) =~= s@.subrange(i as int, k as int).push(s@[k as int]));
        }
        k = k + 1;
    }
    out
}

// ---------------------------------------------------------------------------
// Splitting
// ---------------------------------------------------------------------------

/// `str::split` on one separator character: the pieces between separators,
/// empty pieces included, so that there is always one piece more than
/// separators.
pub open spec fn split_char(s: Seq<char>, sep: char) -> Seq<Seq<char>>
    decreases s.len(),
{
    if s.len() == 0 {
        seq![Seq::<char>::empty()]
    } else {
        let prev = split_char(s.drop_last(), sep);
        if s.last() == sep {
            prev.push(Seq::<char>::empty())
        } else {
            prev.update(prev.len() - 1, prev.last().push(s.last()))
        }
    }
}

pub proof fn lemma_split_char_nonempty(s: Seq<char>, sep: char)
    ensures
        split_char(s, sep).len() >= 1,
    decreases s.len(),
{
    if s.len() > 0 {
        lemma_split_char_nonempty(s.drop_last(), sep);
    }
}

/// Splits `s` at every occurrence of `sep`.
pub fn split_on(s: &[char], sep: char) -> (r: Vec<Vec<char>>)
    ensures
        r@.len() == split_char(s@, sep).len(),
        forall|k: int| 0 <= k < r@.len() ==> #[trigger] r@[k]@ == split_char(s@, sep)[k],
{
    let n = s.len();
    let mut done: Vec<Vec<char>> = Vec::new();
    let mut cur: Vec<char> = Vec::new();
    for i in 0..n
        invariant
            n == s@.len(),
            done@.len() + 1 == split_char(s@.take(i as int), sep).len(),
            forall|k: int| 0 <= k < done@.len() ==> #[trigger] done@[k]@ == split_char(s@.take(i as int), sep)[k],
            cur@ == split_char(s@.take(i as int), sep).last(),
    {
        let c = s[i];
        proof {
            assert(s@.take(i + 1).drop_last() =~= s@.take(i as int));
            lemma_split_char_nonempty(s@.take(i as int), sep);
        }
        if c == sep {
            let piece = cur;
            done.push(piece);
            cur = Vec::new();
        } else {
            cur.push(c);
        }
    }
    proof {
        assert(s@.take(n as int) =~= s@);
    }
    done.push(cur);
    done
}

/// `s` holds no `c`.
pub open spec fn free_of(s: Seq<char>, c: char) -> bool {
    forall|i: int| 0 <= i < s.len() ==> s[i] != c
}

/// The pieces joined with one separator character between each two.
pub open spec fn join_char(parts: Seq<Seq<char>>, sep: char) -> Seq<char>
    decreases parts.len(),
{
    if parts.len() == 0 {
        Seq::empty()
    } else if parts.len() == 1 {
        parts[0]
    } else {
        join_char(parts.drop_last(), sep).push(sep) + parts.last()
    }
}

/// The pieces of a split hold no separator.
pub proof fn lemma_split_char_pieces(s: Seq<char>, sep: char)
    ensures
        forall|k: int| 0 <= k < split_char(s, sep).len() ==> free_of(#[trigger] split_char(s, sep)[k], sep),
    decreases s.len(),
{
    if s.len() > 0 {
        lemma_split_char_pieces(s.drop_last(), sep);
        lemma_split_char_nonempty(s.drop_last(), sep);
        let prev = split_char(s.drop_last(), sep);
        if s.last() != sep {
            let l = prev.last().push(s.last());
            assert(free_of(prev[prev.len() - 1], sep));
            assert(free_of(l, sep)) by {
                assert forall|i: int| 0 <= i < l.len() implies l[i] != sep by {
                    if i < l.len() - 1 {
                        assert(l[i] == prev[prev.len() - 1][i]);
                    }
                }
            }
            assert forall|k: int| 0 <= k < split_char(s, sep).len() implies free_of(
                #[trigger] split_char(s, sep)[k],
                sep,
            ) by {
                if k < prev.len() - 1 {
                    assert(split_char(s, sep)[k] == prev[k]);
                }
            }
        } else {
            assert forall|k: int| 0 <= k < split_char(s, sep).len() implies free_of(
                #[trigger] split_char(s, sep)[k],
                sep,
            ) by {
                if k < prev.len() {
                    assert(split_char(s, sep)[k] == prev[k]);
                }
            }
        }
    }
}

/// A text without the separator splits into itself alone.
pub proof fn lemma_split_char_free(s: Seq<char>, sep: char)
    requires
        free_of(s, sep),
    ensures
        split_char(s, sep) == seq![s],
    decreases s.len(),
{
    if s.len() > 0 {
        lemma_split_char_free(s.drop_last(), sep);
        assert(s.drop_last().push(s.last()) =~= s);
        assert(split_char(s, sep) =~= seq![s]);
    } else {
        assert(s =~= Seq::<char>::empty());
    }
}

/// Splitting at a separator that stands between two texts splits each.
pub proof fn lemma_split_char_after(x: Seq<char>, y: Seq<char>, sep: char)
    ensures
        split_char(x.push(sep) + y, sep) == split_char(x, sep) + split_char(y, sep),
    decreases y.len(),
{
    let z = x.push(sep) + y;
    if y.len() == 0 {
        assert(z =~= x.push(sep));
        assert(x.push(sep).drop_last() =~= x);
        assert(split_char(y, sep) =~= seq![Seq::<char>::empty()]);
        assert(split_char(z, sep) =~= split_char(x, sep) + split_char(y, sep));
    } else {
        lemma_split_char_after(x, y.drop_last(), sep);
        lemma_split_char_nonempty(y.drop_last(), sep);
        assert(z.drop_last() =~= x.push(sep) + y.drop_last());
        assert(z.last() == y.last());
        let a = split_char(x, sep);
        let b = split_char(y.drop_last(), sep);
        if y.last() == sep {
            assert(split_char(z, sep) =~= a + split_char(y, sep));
        } else {
            assert((a + b).last() == b.last());
            assert((a + b).update((a + b).len() - 1, b.last().push(y.last())) =~= a + b.update(
                b.len() - 1,
                b.last().push(y.last()),
            ));
        }
    }
}

/// Joining pieces without the separator and splitting again gives the
/// pieces back.
pub proof fn lemma_split_join(parts: Seq<Seq<char>>, sep: char)
    requires
        parts.len() >= 1,
        forall|k: int| 0 <= k < parts.len() ==> free_of(#[trigger] parts[k], sep),
    ensures
        split_char(join_char(parts, sep), sep) == parts,
    decreases parts.len(),
{
    if parts.len() == 1 {
        lemma_split_char_free(parts[0], sep);
        assert(parts =~= seq![parts[0]]);
    } else {
        let init = parts.drop_last();
        assert forall|k: int| 0 <= k < init.len() implies free_of(#[trigger] init[k], sep) by {
            assert(init[k] == parts[k]);
        }
        lemma_split_join(init, sep);
        lemma_split_char_after(join_char(init, sep), parts.last(), sep);
        assert(free_of(parts[parts.len() - 1], sep));
        lemma_split_char_free(parts.last(), sep);
        assert(init + seq![parts.last()] =~= parts);
    }
}

/// `trim_start` drops a prefix and leaves no white space in front.
pub proof fn lemma_trim_start_shape(s: Seq<char>)
    ensures
        trim_start(s).len() <= s.len(),
        trim_start(s) == s.subrange(s.len() - trim_start(s).len(), s.len() as int),
        trim_start(s).len() > 0 ==> !is_space(trim_start(s)[0]),
    decreases s.len(),
{
    if s.len() > 0 && is_space(s[0]) {
        lemma_trim_start_shape(s.drop_first());
        assert(s.drop_first().subrange(
            s.drop_first().len() - trim_start(s).len(),
            s.drop_first().len() as int,
        ) =~= s.subrange(s.len() - trim_start(s).len(), s.len() as int));
    } else {
        assert(s.subrange(0, s.len() as int) =~= s);
    }
}

/// `trim_end` drops a suffix and leaves no white space behind.
pub proof fn lemma_trim_end_shape(s: Seq<char>)
    ensures
        trim_end(s).len() <= s.len(),
        trim_end(s) == s.subrange(0, trim_end(s).len() as int),
        trim_end(s).len() > 0 ==> !is_space(trim_end(s).last()),
    decreases s.len(),
{
    if s.len() > 0 && is_space(s.last()) {
        lemma_trim_end_shape(s.drop_last());
        assert(s.drop_last().subrange(0, trim_end(s).len() as int) =~= s.subrange(
            0,
            trim_end(s).len() as int,
        ));
    } else {
        assert(s.subrange(0, s.len() as int) =~= s);
    }
}

/// `trim` keeps a stretch of its input, with no white space at either end.
pub proof fn lemma_trim_shape(s: Seq<char>)
    ensures
        trim_start(s).len() <= s.len(),
        trim(s).len() <= trim_start(s).len(),
        trim(s) == s.subrange(
            s.len() - trim_start(s).len(),
            s.len() - trim_start(s).len() + trim(s).len(),
        ),
        trim(s).len() > 0 ==> !is_space(trim(s)[0]) && !is_space(trim(s).last()),
{
    let t = trim_start(s);
    lemma_trim_start_shape(s);
    lemma_trim_end_shape(t);
    let u = trim_end(t);
    assert(trim(s) == u);
    assert(u =~= s.subrange(s.len() - t.len(), s.len() - t.len() + u.len()));
    if u.len() > 0 {
        assert(u[0] == t[0]);
    }
}

/// A text with no white space at either end is its own trim.
pub proof fn lemma_trim_fixed(s: Seq<char>)
    requires
        s.len() > 0 ==> !is_space(s[0]) && !is_space(s.last()),
    ensures
        trim(s) == s,
{
}

/// ASCII lower-casing keeps white space, and keeps what is not white space
/// so, and leaves every character but the upper-case letters as it is.
pub proof fn lemma_ascii_lower_char(c: char)
    ensures
        is_space(ascii_lower(c)) == is_space(c),
        ascii_lower(ascii_lower(c)) == ascii_lower(c),
        !('A' <= c <= 'Z') ==> ascii_lower(c) == c,
        'A' <= c <= 'Z' ==> 'a' <= ascii_lower(c) <= 'z',
{
}

/// The state of a left-to-right scan for white-space separated words: the
/// words already closed, and the word being read.
pub open spec fn words_scan(s: Seq<char>) -> (Seq<Seq<char>>, Seq<char>)
    decreases s.len(),
{
    if s.len() == 0 {
        (Seq::<Seq<char>>::empty(), Seq::<char>::empty())
    } else {
        let (done, cur) = words_scan(s.drop_last());
        if is_space(s.last()) {
            if cur.len() > 0 {
                (done.push(cur), Seq::<char>::empty())
            } else {
                (done, cur)
            }
        } else {
            (done, cur.push(s.last()))
        }
    }
}

/// `str::split_whitespace`: the maximal runs of non-white-space characters.
pub open spec fn words(s: Seq<char>) -> Seq<Seq<char>> {
    let (done, cur) = words_scan(s);
    if cur.len() > 0 {
        done.push(cur)
    } else {
        done
    }
}

/// Splits `s` into its white-space separated words.
pub fn split_words(s: &[char]) -> (r: Vec<Vec<char>>)
    ensures
        r@.len() == words(s@).len(),
        forall|k: int| 0 <= k < r@.len() ==> #[trigger] r@[k]@ == words(s@)[k],
{
    let n = s.len();
    let mut done: Vec<Vec<char>> = Vec::new();
    let mut cur: Vec<char> = Vec::new();
    for i in 0..n
        invariant
            n == s@.len(),
            done@.len() == words_scan(s@.take(i as int)).0.len(),
            forall|k: int| 0 <= k < done@.len() ==> #[trigger] done@[k]@ == words_scan(s@.take(i as int)).0[k],
            cur@ == words_scan(s@.take(i as int)).1,
    {
        let c = s[i];
        proof {
            assert(s@.take(i + 1).drop_last() =~= s@.take(i as int));
        }
        if char_is_space(c) {
            if cur.len() > 0 {
                let piece = cur;
                done.push(piece);
                cur = Vec::new();
            }
        } else {
            cur.push(c);
        }
    }
    proof {
        assert(s@.take(n as int) =~= s@);
    }
    if cur.len() > 0 {
        done.push(cur);
    }
    done
}

// ---------------------------------------------------------------------------
// Searching
// ---------------------------------------------------------------------------

pub open spec fn starts_with(s: Seq<char>, p: Seq<char>) -> bool {
    p.len() <= s.len() && s.take(p.len() as int) == p
}

pub open spec fn occurs_at(s: Seq<char>, p: Seq<char>, i: int) -> bool {
    0 <= i && i + p.len() <= s.len() && s.subrange(i, i + p.len()) == p
}

/// `str::contains` with a string pattern.
pub open spec fn contains(s: Seq<char>, p: Seq<char>) -> bool {
    exists|i: int| occurs_at(s, p, i)
}

fn matches_at(s: &[char], p: &[char], i: usize) -> (b: bool)
    requires
        i + p@.len() <= s.len(),
    ensures
        b == occurs_at(s@, p@, i as int),
{
    let m = p.len();
    let mut k: usize = 0;
    while k < m
        invariant
            k <= m,
            m == p@.len(),
            i + m <= s.len(),
            s@.subrange(i as int, i + k) == p@.take(k as int),
        decreases m - k,
    {
        if s[i + k] != p[k] {
            proof {
                assert(s@.subrange(i as int, i + m)[k as int] != p@[k as int]);
            }
            return false;
        }
        proof {
            assert(s@.subrange(i as int, i + k + 1) =~= s@.subrange(i as int, i + k).push(s@[i + k]));
            assert(p@.take(k + 1) =~= p@.take(k as int).push(p@[k as int]));
        }
        k = k + 1;
    }
    proof {
        assert(p@.take(m as int) =~= p@);
    }
    true
}

pub fn starts_with_chars(s: &[char], p: &[char]) -> (b: bool)
    ensures
        b == starts_with(s@, p@),
{
    if p.len() > s.len() {
        return false;
    }
    let r = matches_at(s, p, 0);
    proof {
        assert(s@.subrange(0, p@.len() as int) =~= s@.take(p@.len() as int));
    }
    r
}

pub fn contains_chars(s: &[char], p: &[char]) -> (b: bool)
    ensures
        b == contains(s@, p@),
{
    if p.len() > s.len() {
        return false;
    }
    let last = s.len() - p.len();
    let mut i: usize = 0;
    loop
        invariant
            i <= last,
            last + p@.len() == s@.len(),
            forall|j: int| 0 <= j < i ==> !occurs_at(s@, p@, j),
        decreases last - i,
    {
        if matches_at(s, p, i) {
            return true;
        }
        if i == last {
            proof {
                assert forall|j: int| !occurs_at(s@, p@, j) by {
                    if 0 <= j <= last {
                    }
                }
            }
            return false;
        }
        i = i + 1;
    }
}

pub fn eq_chars(a: &[char], b: &[char]) -> (r: bool)
    ensures
        r == (a@ == b@),
{
    if a.len() != b.len() {
        return false;
    }
    let r = starts_with_chars(a, b);
    proof {
        if r {
            assert(a@ =~= a@.take(b@.len() as int));
        } else {
            assert(a@.take(a@.len() as int) =~= a@);
        }
    }
    r
}

// ---------------------------------------------------------------------------
// Decimal numbers
// ---------------------------------------------------------------------------

pub open spec fn is_digit(c: char) -> bool {
    '0' <= c <= '9'
}

pub open spec fn digit_value(c: char) -> nat {
    ((c as u32) - ('0' as u32)) as nat
}

pub open spec fn all_digits(s: Seq<char>) -> bool {
    forall|i: int| 0 <= i < s.len() ==> is_digit(#[trigger] s[i])
}

/// The number that a string of decimal digits denotes.
pub open spec fn digits_value(s: Seq<char>) -> nat
    decreases s.len(),
{
    if s.len() == 0 {
        0
    } else {
        digits_value(s.drop_last()) * 10 + digit_value(s.last())
    }
}

/// `FromStr` of an unsigned integer type whose largest value is `max`: an
/// optional leading `+`, then at least one ASCII digit, and a value that fits.
pub open spec fn parse_unsigned(s: Seq<char>, max: nat) -> Option<nat> {
    let d = if s.len() > 0 && s[0] == '+' {
        s.drop_first()
    } else {
        s
    };
    if d.len() == 0 || !all_digits(d) || digits_value(d) > max {
        None
    } else {
        Some(digits_value(d))
    }
}

pub proof fn lemma_digits_value_grows(s: Seq<char>, c: char)
    requires
        is_digit(c),
    ensures
        digits_value(s.push(c)) >= digits_value(s),
{
    assert(s.push(c).drop_last() =~= s);
}

/// The value of a decimal string no longer than the longest that a parse
/// below `max` accepts, as long as it stays within `max`.
fn parse_unsigned_chars(s: &[char], max: u64) -> (r: Option<u64>)
    ensures
        match parse_unsigned(s@, max as nat) {
            Some(v) => r == Some(v as u64),
            None => r is None,
        },
{
    let n = s.len();
    let start: usize = if n > 0 && s[0] == '+' {
        1
    } else {
        0
    };
    let ghost d = if s@.len() > 0 && s@[0] == '+' {
        s@.drop_first()
    } else {
        s@
    };
    proof {
        assert(d =~= s@.subrange(start as int, n as int));
    }
    if start == n {
        proof {
            assert(d.len() == 0);
        }
        return None;
    }
    let mut acc: u128 = 0;
    let mut i: usize = start;
    while i < n
        invariant
            start <= i <= n,
            n == s@.len(),
            d == s@.subrange(start as int, n as int),
            d == (if s@.len() > 0 && s@[0] == '+' {
                s@.drop_first()
            } else {
                s@
            }),
            all_digits(s@.subrange(start as int, i as int)),
            acc as nat == digits_value(s@.subrange(start as int, i as int)),
            acc <= max,
        decreases n - i,
    {
        let c = s[i];
        if !('0' <= c && c <= '9') {
            proof {
                assert(d[i - start] == c);
                assert(!is_digit(d[i - start]));
                assert(!all_digits(d));
                assert(parse_unsigned(s@, max as nat) is None);
            }
            return None;
        }
        let dv: u128 = (c as u128) - ('0' as u128);
        proof {
            assert(s@.subrange(start as int, i + 1).drop_last() =~= s@.subrange(start as int, i as int));
            assert(s@.subrange(start as int, i + 1) =~= s@.subrange(start as int, i as int).push(c));
        }
        acc = acc * 10 + dv;
        i = i + 1;
        if acc > max as u128 {
            proof {
                let pre = s@.subrange(start as int, i as int);
                lemma_digits_value_prefix(d, pre.len());
                assert(d.take(pre.len() as int) =~= pre);
                if all_digits(d) {
                    assert(digits_value(d) >= digits_value(pre));
                }
                assert(parse_unsigned(s@, max as nat) is None);
            }
            return None;
        }
    }
    proof {
        assert(s@.subrange(start as int, n as int) =~= d);
    }
    Some(acc as u64)
}

/// A decimal string is worth at least any of its prefixes.
pub proof fn lemma_digits_value_prefix(s: Seq<char>, k: nat)
    requires
        k <= s.len(),
    ensures
        all_digits(s) ==> digits_value(s) >= digits_value(s.take(k as int)),
    decreases s.len(),
{
    if all_digits(s) && k < s.len() {
        lemma_digits_value_prefix(s.drop_last(), k);
        assert(s.drop_last().take(k as int) =~= s.take(k as int));
        assert(all_digits(s.drop_last()));
        assert(s =~= s.drop_last().push(s.last()));
        lemma_digits_value_grows(s.drop_last(), s.last());
    } else if all_digits(s) {
        assert(s.take(k as int) =~= s);
    }
}

/// `u32::from_str` on characters.
pub fn parse_u32_chars(s: &[char]) -> (r: Option<u32>)
    ensures
        match parse_unsigned(s@, u32::MAX as nat) {
            Some(v) => r == Some(v as u32),
            None => r is None,
        },
{
    match parse_unsigned_chars(s, u32::MAX as u64) {
        Some(v) => Some(v as u32),
        None => None,
    }
}

/// `u64::from_str` on characters.
pub fn parse_u64_chars(s: &[char]) -> (r: Option<u64>)
    ensures
        match parse_unsigned(s@, u64::MAX as nat) {
            Some(v) => r == Some(v as u64),
            None => r is None,
        },
{
    parse_unsigned_chars(s, u64::MAX)
}

/// `u16::from_str` on characters.
pub fn parse_u16_chars(s: &[char]) -> (r: Option<u16>)
    ensures
        match parse_unsigned(s@, u16::MAX as nat) {
            Some(v) => r == Some(v as u16),
            None => r is None,
        },
{
    match parse_unsigned_chars(s, u16::MAX as u64) {
        Some(v) => Some(v as u16),
        None => None,
    }
}

pub open spec fn digit_char(d: nat) -> char {
    (('0' as u32) + d) as char
}

/// The decimal representation of `n`, as `Display` writes it.
pub open spec fn decimal(n: nat) -> Seq<char>
    decreases n,
{
    if n < 10 {
        seq![digit_char(n)]
    } else {
        decimal(n / 10).push(digit_char(n % 10))
    }
}

/// Appends the decimal representation of `n`.
pub fn push_decimal(out: &mut Vec<char>, n: u64)
    ensures
        final(out)@ == old(out)@ + decimal(n as nat),
    decreases n,
{
    if n >= 10 {
        push_decimal(out, n / 10);
    }
    let d: u32 = (n % 10) as u32;
    let c = char_from_ascii(48 + d);
    out.push(c);
    proof {
        if n >= 10 {
            assert(old(out)@ + decimal((n / 10) as nat) + seq![c] =~= old(out)@ + decimal(n as nat));
        } else {
            assert(old(out)@ + seq![c] =~= old(out)@ + decimal(n as nat));
        }
    }
}

pub proof fn lemma_digit_char(d: nat)
    requires
        d < 10,
    ensures
        is_digit(digit_char(d)),
        digit_value(digit_char(d)) == d,
        digit_char(d) != '+',
{
    assert((((48 + d) as u32) as char) as u32 == 48 + d);
}

pub proof fn lemma_decimal_digits(n: nat)
    ensures
        decimal(n).len() >= 1,
        all_digits(decimal(n)),
        digits_value(decimal(n)) == n,
        decimal(n)[0] != '+',
        forall|i: int| 0 <= i < decimal(n).len() ==> !is_space(#[trigger] decimal(n)[i]),
    decreases n,
{
    lemma_digit_char(n % 10);
    if n < 10 {
        assert(n % 10 == n);
        assert(decimal(n).drop_last() =~= Seq::<char>::empty());
        assert(digits_value(decimal(n)) == digits_value(Seq::<char>::empty()) * 10 + digit_value(digit_char(n)));
    }
    if n >= 10 {
        lemma_decimal_digits(n / 10);
        let p = decimal(n / 10);
        assert(n == (n / 10) * 10 + n % 10);
        assert(decimal(n).drop_last() =~= p);
        assert(decimal(n).last() == digit_char(n % 10));
        assert(digits_value(decimal(n)) == digits_value(p) * 10 + digit_value(digit_char(n % 10)));
        assert forall|i: int| 0 <= i < decimal(n).len() implies is_digit(#[trigger] decimal(n)[i]) by {
            if i < p.len() {
                assert(decimal(n)[i] == p[i]);
            }
        }
    }
}

/// A number written out and followed by a text that does not start with a
/// digit can be read back: the number and the text are determined.
pub proof fn lemma_decimal_then_text(m: nat, t: Seq<char>, n: nat, u: Seq<char>)
    requires
        t.len() > 0,
        u.len() > 0,
        !is_digit(t[0]),
        !is_digit(u[0]),
        decimal(m) + t == decimal(n) + u,
    ensures
        m == n,
        t == u,
{
    lemma_decimal_digits(m);
    lemma_decimal_digits(n);
    let a = decimal(m);
    let b = decimal(n);
    if a.len() < b.len() {
        assert((a + t)[a.len() as int] == t[0]);
        assert((b + u)[a.len() as int] == b[a.len() as int]);
        assert(is_digit(b[a.len() as int]));
    } else if b.len() < a.len() {
        assert((b + u)[b.len() as int] == u[0]);
        assert((a + t)[b.len() as int] == a[b.len() as int]);
        assert(is_digit(a[b.len() as int]));
    }
    assert(a =~= (a + t).take(a.len() as int));
    assert(b =~= (b + u).take(b.len() as int));
    assert(t =~= (a + t).skip(a.len() as int));
    assert(u =~= (b + u).skip(b.len() as int));
}

// ---------------------------------------------------------------------------
// Appending
// ---------------------------------------------------------------------------

/// Appends all of `src` to `out`.
pub fn push_all(out: &mut Vec<char>, src: &[char])
    ensures
        final(out)@ == old(out)@ + src@,
{
    let n = src.len();
    for i in 0..n
        invariant
            n == src@.len(),
            out@ == old(out)@ + src@.take(i as int),
    {
        out.push(src[i]);
        proof {
            assert(old(out)@ + src@.take(i + 1) =~= old(out)@ + src@.take(i as int) + seq![src@[i as int]]);
        }
    }
    proof {
        assert(src@.take(n as int) =~= src@);
    }
}

/// Appends the characters of `src` to `out`.
/// The characters of `s` from position `k` on.
pub fn skip_chars(s: &[char], k: usize) -> (r: Vec<char>)
    requires
        k <= s@.len(),
    ensures
        r@ == s@.subrange(k as int, s@.len() as int),
{
    let mut out: Vec<char> = Vec::new();
    let mut i = k;
    while i < s.len()
        invariant
            k <= i <= s@.len(),
            out@ == s@.subrange(k as int, i as int),
        decreases s@.len() - i,
    {
        out.push(s[i]);
        proof {
            assert(s@.subrange(k as int, i + 1) =~= s@.subrange(k as int, i as int).push(s@[i as int]));
        }
        i = i + 1;
    }
    out
}

pub fn push_str(out: &mut Vec<char>, src: &str)
    ensures
        final(out)@ == old(out)@ + src@,
{
    let cs = chars_of(src);
    push_all(out, cs.as_slice());
}

} // verus!
