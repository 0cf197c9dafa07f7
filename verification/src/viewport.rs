//! Viewport dimensions and their `WIDTHxHEIGHT` text form.
use vstd::prelude::*;

use crate::text::{
    chars_of, decimal, is_digit, is_space, lemma_decimal_digits, owned, parse_u32_chars,
    parse_unsigned, push_decimal, push_str, split_char, split_on, string_from_chars, trim,
    trim_chars, trim_end, trim_start,
};

verus! {

/// Width and height of a rendered view, in pixels.
#[derive(Debug, Clone, Copy, PartialEq, Eq, Structural)]
pub struct Viewport {
    pub width: u32,
    pub height: u32,
}

/// Why a `WIDTHxHEIGHT` string was refused.
#[derive(Debug, Clone)]
pub enum ViewportParseError {
    InvalidFormat,
    InvalidWidth(String),
    InvalidHeight(String),
    ZeroWidth,
    ZeroHeight,
}

impl View for ViewportParseError {
    /// A code for the variant (in declaration order) and the offending text,
    /// empty where the variant carries none.
    type V = (nat, Seq<char>);

    open spec fn view(&self) -> (nat, Seq<char>) {
        match self {
            ViewportParseError::InvalidFormat => (0, Seq::<char>::empty()),
            ViewportParseError::InvalidWidth(t) => (1, t@),
            ViewportParseError::InvalidHeight(t) => (2, t@),
            ViewportParseError::ZeroWidth => (3, Seq::<char>::empty()),
            ViewportParseError::ZeroHeight => (4, Seq::<char>::empty()),
        }
    }
}

/// What parsing `s` as `WIDTHxHEIGHT` gives: the text is split at every `x`;
/// there must be exactly two parts, each a decimal `u32` after trimming white
/// space, and neither may be zero. The first failing check decides the error.
pub open spec fn viewport_outcome(s: Seq<char>) -> Result<Viewport, (nat, Seq<char>)> {
    let parts = split_char(s, 'x');
    if parts.len() != 2 {
        Err((0, Seq::<char>::empty()))
    } else {
        match parse_unsigned(trim(parts[0]), u32::MAX as nat) {
            None => Err((1, parts[0])),
            Some(w) => match parse_unsigned(trim(parts[1]), u32::MAX as nat) {
                None => Err((2, parts[1])),
                Some(h) => if w == 0 {
                    Err((3, Seq::<char>::empty()))
                } else if h == 0 {
                    Err((4, Seq::<char>::empty()))
                } else {
                    Ok(Viewport { width: w as u32, height: h as u32 })
                },
            },
        }
    }
}

/// The text form of a viewport: decimal width, `x`, decimal height.
pub open spec fn viewport_text(v: Viewport) -> Seq<char> {
    decimal(v.width as nat) + seq!['x'] + decimal(v.height as nat)
}

impl Viewport {
    /// The viewport used when none is given: 1440x900.
    pub fn default_viewport() -> (v: Viewport)
        ensures
            v.width == 1440,
            v.height == 900,
    {
        Viewport { width: 1440, height: 900 }
    }

    /// Parses `WIDTHxHEIGHT`. The text is split at every `x`; there must be
    /// exactly two parts, each a decimal `u32` after trimming white space,
    /// and neither may be zero. Errors are reported in that order.
    pub fn parse(s: &str) -> (r: Result<Viewport, ViewportParseError>)
        ensures
            match r {
                Ok(v) => viewport_outcome(s@) == Ok::<Viewport, (nat, Seq<char>)>(v),
                Err(e) => viewport_outcome(s@) == Err::<Viewport, (nat, Seq<char>)>(e@),
            },
    {
        let cs = chars_of(s);
        let parts = split_on(cs.as_slice(), 'x');
        if parts.len() != 2 {
            return Err(ViewportParseError::InvalidFormat);
        }
        let w_text = trim_chars(parts[0].as_slice());
        let width = match parse_u32_chars(w_text.as_slice()) {
            Some(w) => w,
            None => {
                return Err(ViewportParseError::InvalidWidth(string_from_chars(parts[0].as_slice())));
            },
        };
        let h_text = trim_chars(parts[1].as_slice());
        let height = match parse_u32_chars(h_text.as_slice()) {
            Some(h) => h,
            None => {
                return Err(
                    ViewportParseError::InvalidHeight(string_from_chars(parts[1].as_slice())),
                );
            },
        };
        if width == 0 {
            return Err(ViewportParseError::ZeroWidth);
        }
        if height == 0 {
            return Err(ViewportParseError::ZeroHeight);
        }
        Ok(Viewport { width, height })
    }

    /// The `WIDTHxHEIGHT` text of this viewport.
    pub fn to_string(&self) -> (r: String)
        ensures
            r@ == viewport_text(*self),
    {
        let mut out: Vec<char> = Vec::new();
        push_decimal(&mut out, self.width as u64);
        out.push('x');
        push_decimal(&mut out, self.height as u64);
        proof {
            assert(out@ =~= viewport_text(*self));
        }
        string_from_chars(out.as_slice())
    }
}

impl ViewportParseError {
    /// The message that describes the error.
    pub fn message(&self) -> (r: String)
        ensures
            r@ == (match self {
                ViewportParseError::InvalidFormat =>
                    "Invalid viewport format: expected WIDTHxHEIGHT (e.g., 1440x900)"@,
                ViewportParseError::InvalidWidth(t) => "Invalid width: "@ + t@,
                ViewportParseError::InvalidHeight(t) => "Invalid height: "@ + t@,
                ViewportParseError::ZeroWidth => "Width must be positive"@,
                ViewportParseError::ZeroHeight => "Height must be positive"@,
            }),
    {
        match self {
            ViewportParseError::InvalidFormat => owned(
                "Invalid viewport format: expected WIDTHxHEIGHT (e.g., 1440x900)",
            ),
            ViewportParseError::InvalidWidth(t) => {
                let mut out: Vec<char> = Vec::new();
                push_str(&mut out, "Invalid width: ");
                push_str(&mut out, t.as_str());
                string_from_chars(out.as_slice())
            },
            ViewportParseError::InvalidHeight(t) => {
                let mut out: Vec<char> = Vec::new();
                push_str(&mut out, "Invalid height: ");
                push_str(&mut out, t.as_str());
                string_from_chars(out.as_slice())
            },
            ViewportParseError::ZeroWidth => owned("Width must be positive"),
            ViewportParseError::ZeroHeight => owned("Height must be positive"),
        }
    }
}

impl Default for Viewport {
    fn default() -> (v: Viewport)
        ensures
            v.width == 1440,
            v.height == 900,
    {
        Viewport::default_viewport()
    }
}

impl core::str::FromStr for Viewport {
    type Err = ViewportParseError;

    fn from_str(s: &str) -> (r: Result<Viewport, ViewportParseError>)
        ensures
            match r {
                Ok(v) => viewport_outcome(s@) == Ok::<Viewport, (nat, Seq<char>)>(v),
                Err(e) => viewport_outcome(s@) == Err::<Viewport, (nat, Seq<char>)>(e@),
            },
    {
        Viewport::parse(s)
    }
}

/// Splitting a string with no `x` in it gives the string itself.
proof fn lemma_split_without_sep(s: Seq<char>, sep: char)
    requires
        forall|i: int| 0 <= i < s.len() ==> s[i] != sep,
    ensures
        split_char(s, sep) == seq![s],
    decreases s.len(),
{
    if s.len() > 0 {
        lemma_split_without_sep(s.drop_last(), sep);
        assert(s.drop_last().push(s.last()) =~= s);
        assert(seq![s.drop_last()].update(0, s.drop_last().push(s.last())) =~= seq![s]);
    } else {
        assert(s =~= Seq::<char>::empty());
    }
}

/// Splitting `a + [sep] + b`, where neither part holds `sep`, gives the two parts.
proof fn lemma_split_two(a: Seq<char>, b: Seq<char>, sep: char)
    requires
        forall|i: int| 0 <= i < a.len() ==> a[i] != sep,
        forall|i: int| 0 <= i < b.len() ==> b[i] != sep,
    ensures
        split_char(a + seq![sep] + b, sep) == seq![a, b],
    decreases b.len(),
{
    if b.len() == 0 {
        let s = a + seq![sep];
        assert((a + seq![sep] + b) =~= s);
        assert(s.drop_last() =~= a);
        lemma_split_without_sep(a, sep);
        assert(b =~= Seq::<char>::empty());
        assert(seq![a].push(Seq::<char>::empty()) =~= seq![a, b]);
    } else {
        let b0 = b.drop_last();
        lemma_split_two(a, b0, sep);
        let s = a + seq![sep] + b;
        assert(s.drop_last() =~= a + seq![sep] + b0);
        assert(s.last() == b.last());
        assert(b0.push(b.last()) =~= b);
        assert(seq![a, b0].update(1, b0.push(b.last())) =~= seq![a, b]);
    }
}

proof fn lemma_trim_of_spaceless(s: Seq<char>)
    requires
        forall|i: int| 0 <= i < s.len() ==> !is_space(#[trigger] s[i]),
    ensures
        trim(s) == s,
{
    assert(trim_start(s) == s);
    assert(trim_end(s) == s);
}

/// Writing a viewport and parsing the text back gives the same viewport.
pub proof fn lemma_viewport_text_round_trip(v: Viewport)
    requires
        v.width > 0,
        v.height > 0,
    ensures
        viewport_outcome(viewport_text(v)) == Ok::<Viewport, (nat, Seq<char>)>(v),
{
    let a = decimal(v.width as nat);
    let b = decimal(v.height as nat);
    lemma_decimal_digits(v.width as nat);
    lemma_decimal_digits(v.height as nat);
    assert forall|i: int| 0 <= i < a.len() implies a[i] != 'x' by {
        assert(is_digit(a[i]));
    }
    assert forall|i: int| 0 <= i < b.len() implies b[i] != 'x' by {
        assert(is_digit(b[i]));
    }
    lemma_split_two(a, b, 'x');
    lemma_trim_of_spaceless(a);
    lemma_trim_of_spaceless(b);
    assert(a.len() > 0 && a[0] != '+');
    assert(b.len() > 0 && b[0] != '+');
}

} // verus!
