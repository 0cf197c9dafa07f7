//! Choices made on the command line.
use vstd::prelude::*;

use crate::error::DpcError;
use crate::resource::ResourceKind;
use crate::text::{
    ascii_lowercase, chars_of, eq_chars, lower_seq, push_str, string_from_chars, trim, trim_chars,
};

verus! {

/// The type of an input, as the command line names it.
#[derive(Debug, Clone, Copy, PartialEq, Eq, Structural)]
pub enum ResourceType {
    Url,
    Image,
    Figma,
}

/// How results are written.
#[derive(Debug, Clone, Copy, PartialEq, Eq, Structural)]
pub enum OutputFormat {
    Json,
    Pretty,
}

impl Default for OutputFormat {
    fn default() -> (r: OutputFormat)
        ensures
            r == OutputFormat::Json,
    {
        OutputFormat::Json
    }
}

pub open spec fn kind_of_type(t: ResourceType) -> ResourceKind {
    match t {
        ResourceType::Url => ResourceKind::Url,
        ResourceType::Image => ResourceKind::Image,
        ResourceType::Figma => ResourceKind::Figma,
    }
}

/// The kind of input that a type given on the command line stands for.
pub fn resource_kind_from_cli(rt: ResourceType) -> (r: ResourceKind)
    ensures
        r == kind_of_type(rt),
{
    match rt {
        ResourceType::Url => ResourceKind::Url,
        ResourceType::Image => ResourceKind::Image,
        ResourceType::Figma => ResourceKind::Figma,
    }
}

/// Reads the stack to generate code for: `html+tailwind` in any ASCII case
/// and with any surrounding white space; anything else is refused.
pub fn normalize_stack(stack: &str) -> (r: Result<String, DpcError>)
    ensures
        lower_seq(trim(stack@)) == "html+tailwind"@ <==> r is Ok,
        r matches Ok(s) ==> s@ == "html+tailwind"@,
        r matches Err(e) ==> (e matches DpcError::Config(m) && m@ == "Unsupported stack '"@
            + stack@ + "'; supported: html+tailwind"@),
{
    let cs = chars_of(stack);
    let t = trim_chars(cs.as_slice());
    let l = ascii_lowercase(t.as_slice());
    let want = chars_of("html+tailwind");
    if eq_chars(l.as_slice(), want.as_slice()) {
        return Ok(string_from_chars(l.as_slice()));
    }
    let mut v: Vec<char> = Vec::new();
    push_str(&mut v, "Unsupported stack '");
    push_str(&mut v, stack);
    push_str(&mut v, "'; supported: html+tailwind");
    proof {
        assert(v@ =~= "Unsupported stack '"@ + stack@ + "'; supported: html+tailwind"@);
    }
    Err(DpcError::Config(string_from_chars(v.as_slice())))
}

/// The element has text: some that is not all white space.
pub open spec fn has_text(text: Option<Seq<char>>) -> bool {
    match text {
        Some(t) => trim(t).len() > 0,
        None => false,
    }
}

pub open spec fn text_view(o: Option<&str>) -> Option<Seq<char>> {
    match o {
        Some(s) => Some(s@),
        None => None,
    }
}

/// Whether a DOM element's text is there and not blank.
pub fn node_has_text(text: Option<&str>) -> (b: bool)
    ensures
        b == has_text(text_view(text)),
{
    match text {
        Some(t) => {
            let cs = chars_of(t);
            trim_chars(cs.as_slice()).len() > 0
        },
        None => false,
    }
}

/// Whether a Figma node's text is there and not blank.
pub fn figma_has_text(text: Option<&str>) -> (b: bool)
    ensures
        b == has_text(text_view(text)),
{
    node_has_text(text)
}

/// The tag is that of a main heading (`h1` to `h3`, any ASCII case).
pub open spec fn heading_tag(tag: Seq<char>) -> bool {
    let l = lower_seq(tag);
    l == "h1"@ || l == "h2"@ || l == "h3"@
}

/// Whether a DOM element is a main heading.
pub fn is_heading(tag: &str) -> (b: bool)
    ensures
        b == heading_tag(tag@),
{
    let cs = chars_of(tag);
    let l = ascii_lowercase(cs.as_slice());
    let h1 = chars_of("h1");
    let h2 = chars_of("h2");
    let h3 = chars_of("h3");
    eq_chars(l.as_slice(), h1.as_slice()) || eq_chars(l.as_slice(), h2.as_slice()) || eq_chars(
        l.as_slice(),
        h3.as_slice(),
    )
}

} // verus!
