//! Typography: the keys by which text styles are compared.
use vstd::prelude::*;

use crate::content::{normal_text, normalize_text};
use crate::text::{
    ascii_lowercase, chars_of, contains, contains_chars, decimal, eq_chars, is_digit,
    lemma_ascii_lower_char, lemma_decimal_digits, lemma_trim_fixed, lower_seq, owned,
    parse_u16_chars, parse_unsigned, string_from_chars, trim, trim_chars,
};

verus! {

/// Normalizes an element label: the normal form of its text.
pub fn normalize_label(input: &str) -> (r: Option<String>)
    ensures
        match normal_text(input@) {
            Some(t) => r matches Some(s) && s@ == t,
            None => r is None,
        },
{
    normalize_text(input)
}

/// The family a font stack belongs to: the first well-known family named
/// in it (in a fixed order of preference), else the whole stack lower-cased;
/// `unknown` without a family.
pub open spec fn family_key(family: Option<Seq<char>>) -> Seq<char> {
    match family {
        None => "unknown"@,
        Some(f) => {
            let l = lower_seq(f);
            if contains(l, "inter"@) {
                "inter"@
            } else if contains(l, "roboto"@) {
                "roboto"@
            } else if contains(l, "helvetica"@) {
                "helvetica"@
            } else if contains(l, "arial"@) {
                "arial"@
            } else if contains(l, "times"@) {
                "times"@
            } else if contains(l, "georgia"@) {
                "georgia"@
            } else {
                l
            }
        },
    }
}

proof fn lemma_lower_idempotent(s: Seq<char>)
    ensures
        lower_seq(lower_seq(s)) == lower_seq(s),
{
    assert forall|i: int| 0 <= i < s.len() implies #[trigger] lower_seq(lower_seq(s))[i]
        == lower_seq(s)[i] by {
        lemma_ascii_lower_char(s[i]);
    }
    assert(lower_seq(lower_seq(s)) =~= lower_seq(s));
}

proof fn lemma_lower_literal(s: Seq<char>)
    requires
        forall|i: int| 0 <= i < s.len() ==> 'a' <= #[trigger] s[i] <= 'z',
    ensures
        lower_seq(s) == s,
{
    assert(lower_seq(s) =~= s);
}

/// The family key of a font stack does not depend on the ASCII case of the
/// stack, and is itself lower-case.
pub proof fn lemma_family_key_case(f: Seq<char>)
    ensures
        family_key(Some(f)) == family_key(Some(lower_seq(f))),
        lower_seq(family_key(Some(f))) == family_key(Some(f)),
{
    reveal_strlit("unknown");
    reveal_strlit("inter");
    reveal_strlit("roboto");
    reveal_strlit("helvetica");
    reveal_strlit("arial");
    reveal_strlit("times");
    reveal_strlit("georgia");
    lemma_lower_idempotent(f);
    lemma_lower_literal("inter"@);
    lemma_lower_literal("roboto"@);
    lemma_lower_literal("helvetica"@);
    lemma_lower_literal("arial"@);
    lemma_lower_literal("times"@);
    lemma_lower_literal("georgia"@);
}

pub open spec fn opt_view(o: Option<&str>) -> Option<Seq<char>> {
    match o {
        Some(s) => Some(s@),
        None => None,
    }
}

fn has(l: &Vec<char>, w: &str) -> (b: bool)
    ensures
        b == contains(l@, w@),
{
    let cs = chars_of(w);
    contains_chars(l.as_slice(), cs.as_slice())
}

/// The comparison key of a font family.
pub fn canonical_family(family: Option<&str>) -> (r: String)
    ensures
        r@ == family_key(opt_view(family)),
{
    match family {
        None => owned("unknown"),
        Some(f) => {
            let cs = chars_of(f);
            let l = ascii_lowercase(cs.as_slice());
            if has(&l, "inter") {
                owned("inter")
            } else if has(&l, "roboto") {
                owned("roboto")
            } else if has(&l, "helvetica") {
                owned("helvetica")
            } else if has(&l, "arial") {
                owned("arial")
            } else if has(&l, "times") {
                owned("times")
            } else if has(&l, "georgia") {
                owned("georgia")
            } else {
                string_from_chars(l.as_slice())
            }
        },
    }
}

/// The numeric weight named by a CSS `font-weight` keyword.
pub open spec fn weight_keyword(k: Seq<char>) -> Option<u16> {
    if k == "thin"@ {
        Some(100)
    } else if k == "extralight"@ || k == "ultralight"@ {
        Some(200)
    } else if k == "light"@ {
        Some(300)
    } else if k == "normal"@ || k == "regular"@ {
        Some(400)
    } else if k == "medium"@ {
        Some(500)
    } else if k == "semibold"@ || k == "demibold"@ {
        Some(600)
    } else if k == "bold"@ {
        Some(700)
    } else if k == "extrabold"@ || k == "ultrabold"@ {
        Some(800)
    } else if k == "black"@ || k == "heavy"@ {
        Some(900)
    } else {
        None
    }
}

/// The numeric weight of a `font-weight` value: the number it is (trimmed,
/// any ASCII case), else the weight its keyword names.
pub open spec fn weight_of(weight: Option<Seq<char>>) -> Option<u16> {
    match weight {
        None => None,
        Some(w) => {
            let l = lower_seq(trim(w));
            match parse_unsigned(l, u16::MAX as nat) {
                Some(v) => Some(v as u16),
                None => weight_keyword(l),
            }
        },
    }
}

/// The CSS weight keywords, in any ASCII case and with white space around
/// them, stand for their CSS numbers: thin 100, extra/ultra light 200, light
/// 300, normal and regular 400, medium 500, semi/demi bold 600, bold 700,
/// extra/ultra bold 800, black and heavy 900.
pub proof fn lemma_weight_keywords(w: Seq<char>)
    ensures
        lower_seq(trim(w)) == "thin"@ ==> weight_of(Some(w)) == Some(100u16),
        lower_seq(trim(w)) == "extralight"@ ==> weight_of(Some(w)) == Some(200u16),
        lower_seq(trim(w)) == "ultralight"@ ==> weight_of(Some(w)) == Some(200u16),
        lower_seq(trim(w)) == "light"@ ==> weight_of(Some(w)) == Some(300u16),
        lower_seq(trim(w)) == "normal"@ ==> weight_of(Some(w)) == Some(400u16),
        lower_seq(trim(w)) == "regular"@ ==> weight_of(Some(w)) == Some(400u16),
        lower_seq(trim(w)) == "medium"@ ==> weight_of(Some(w)) == Some(500u16),
        lower_seq(trim(w)) == "semibold"@ ==> weight_of(Some(w)) == Some(600u16),
        lower_seq(trim(w)) == "demibold"@ ==> weight_of(Some(w)) == Some(600u16),
        lower_seq(trim(w)) == "bold"@ ==> weight_of(Some(w)) == Some(700u16),
        lower_seq(trim(w)) == "extrabold"@ ==> weight_of(Some(w)) == Some(800u16),
        lower_seq(trim(w)) == "ultrabold"@ ==> weight_of(Some(w)) == Some(800u16),
        lower_seq(trim(w)) == "black"@ ==> weight_of(Some(w)) == Some(900u16),
        lower_seq(trim(w)) == "heavy"@ ==> weight_of(Some(w)) == Some(900u16),
{
    let l = lower_seq(trim(w));
    reveal_strlit("thin");
    reveal_strlit("extralight");
    reveal_strlit("ultralight");
    reveal_strlit("light");
    reveal_strlit("normal");
    reveal_strlit("regular");
    reveal_strlit("medium");
    reveal_strlit("semibold");
    reveal_strlit("demibold");
    reveal_strlit("bold");
    reveal_strlit("extrabold");
    reveal_strlit("ultrabold");
    reveal_strlit("black");
    reveal_strlit("heavy");
    if weight_keyword(l) is Some {
        assert(l.len() > 0 && 'a' <= l[0] <= 'z');
        assert(parse_unsigned(l, u16::MAX as nat) is None) by {
            if l[0] != '+' {
                assert(!is_digit(l[0]));
            }
        }
    }
}

/// A weight written as a number, as `Display` writes it, is that number.
pub proof fn lemma_weight_numbers(n: u16)
    ensures
        weight_of(Some(decimal(n as nat))) == Some(n),
{
    let d = decimal(n as nat);
    lemma_decimal_digits(n as nat);
    lemma_trim_fixed(d);
    assert forall|i: int| 0 <= i < d.len() implies #[trigger] lower_seq(d)[i] == d[i] by {
        assert(is_digit(d[i]));
        lemma_ascii_lower_char(d[i]);
    }
    assert(lower_seq(d) =~= d);
    assert(is_digit(d[0]));
}

fn is_word(l: &Vec<char>, w: &str) -> (b: bool)
    ensures
        b == (l@ == w@),
{
    let cs = chars_of(w);
    eq_chars(l.as_slice(), cs.as_slice())
}

/// The numeric category of a font weight.
pub fn font_weight_category(weight: Option<&str>) -> (r: Option<u16>)
    ensures
        r == weight_of(opt_view(weight)),
{
    let w = match weight {
        None => {
            return None;
        },
        Some(w) => w,
    };
    let cs = chars_of(w);
    let t = trim_chars(cs.as_slice());
    let l = ascii_lowercase(t.as_slice());
    if let Some(v) = parse_u16_chars(l.as_slice()) {
        return Some(v);
    }
    if is_word(&l, "thin") {
        Some(100)
    } else if is_word(&l, "extralight") || is_word(&l, "ultralight") {
        Some(200)
    } else if is_word(&l, "light") {
        Some(300)
    } else if is_word(&l, "normal") || is_word(&l, "regular") {
        Some(400)
    } else if is_word(&l, "medium") {
        Some(500)
    } else if is_word(&l, "semibold") || is_word(&l, "demibold") {
        Some(600)
    } else if is_word(&l, "bold") {
        Some(700)
    } else if is_word(&l, "extrabold") || is_word(&l, "ultrabold") {
        Some(800)
    } else if is_word(&l, "black") || is_word(&l, "heavy") {
        Some(900)
    } else {
        None
    }
}

} // verus!
