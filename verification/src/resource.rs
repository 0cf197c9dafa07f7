//! Classifying an input (a web URL, a Figma URL or a local image) and
//! extracting the Figma file key and node id.
use vstd::prelude::*;

use crate::text::{
    chars_of, contains, contains_chars, eq_chars, owned, push_str, starts_with, starts_with_chars,
    string_from_chars,
};

verus! {

/// Classification of an input resource.
#[derive(Debug, Clone, Copy, PartialEq, Eq, Structural)]
pub enum ResourceKind {
    /// Web URL to be rendered in a browser
    Url,
    /// Local image file
    Image,
    /// Figma design reference
    Figma,
}

/// The Figma file key and node id of a Figma URL.
#[derive(Debug)]
pub struct FigmaInfo {
    pub file_key: String,
    pub node_id: Option<String>,
}

/// An input with its kind.
#[derive(Debug)]
pub struct ParsedResource {
    pub kind: ResourceKind,
    pub value: String,
    pub figma_info: Option<FigmaInfo>,
}

/// Why an input was refused.
#[derive(Debug)]
pub enum ResourceParseError {
    InvalidUrl { value: String, message: String },
    FigmaMissingFileKey { url: String },
    FileNotFound { path: String },
    UnsupportedExtension { extension: String, supported: String },
}

/// What the URL parser reports of a URL: its host, its path segments (none
/// for a URL that cannot be a base) and its decoded query pairs.
#[derive(Debug)]
pub struct UrlParts {
    pub host: Option<String>,
    pub segments: Option<Vec<String>>,
    pub query: Vec<(String, String)>,
}

pub type UrlView = (Option<Seq<char>>, Option<Seq<Seq<char>>>, Seq<(Seq<char>, Seq<char>)>);

pub open spec fn opt_text(o: Option<String>) -> Option<Seq<char>> {
    match o {
        Some(s) => Some(s@),
        None => None,
    }
}

pub open spec fn url_view(p: UrlParts) -> UrlView {
    (
        opt_text(p.host),
        match p.segments {
            Some(v) => Some(v@.map_values(|s: String| s@)),
            None => None,
        },
        p.query@.map_values(|kv: (String, String)| (kv.0@, kv.1@)),
    )
}

/// What `url::Url::parse` gives for a string: the parts that this library
/// reads (host, path segments, query pairs), or the parser's error message.
pub uninterp spec fn url_parse(input: Seq<char>) -> Result<UrlView, Seq<char>>;

/// `url::Url::parse`, then `host_str`, `path_segments` and `query_pairs` of
/// the result, or the `Display` text of the parse error. Claimed: the outcome
/// is `url_parse` of the input; nothing is claimed of what `url_parse` is.
#[verifier::external_body]
fn parse_url(input: &str) -> (r: Result<UrlParts, String>)
    ensures
        match r {
            Ok(p) => url_parse(input@) == Ok::<UrlView, Seq<char>>(url_view(p)),
            Err(m) => url_parse(input@) == Err::<UrlView, Seq<char>>(m@),
        },
{
    match url::Url::parse(input) {
        Ok(u) => Ok(UrlParts {
            host: u.host_str().map(|h| h.to_string()),
            segments: u.path_segments().map(|s| s.map(|x| x.to_string()).collect()),
            query: u.query_pairs().map(|(k, v)| (k.into_owned(), v.into_owned())).collect(),
        }),
        Err(e) => Err(e.to_string()),
    }
}

/// `s` holds none of `.`, `/`, `\\`.
pub open spec fn no_dot_or_separator(s: Seq<char>) -> bool {
    forall|i: int| 0 <= i < s.len() ==> s[i] != '.' && s[i] != '/' && s[i] != '\\'
}

/// `v` is `p` + `.` + `e`, where `e` is a non-empty extension without `.`,
/// `/` or `\\`, and `p` is a non-empty path that separates its parts with
/// `/` only, holds no `:` (no drive or other prefix on any platform), does
/// not start with `//`, and does not end in `/` or `.`: the path's file name
/// then ends in `.e` after a non-empty stem on every platform.
pub open spec fn plain_dotted(v: Seq<char>, p: Seq<char>, e: Seq<char>) -> bool {
    &&& v == p + seq!['.'] + e
    &&& e.len() > 0
    &&& no_dot_or_separator(e)
    &&& p.len() > 0
    &&& forall|i: int| 0 <= i < p.len() ==> p[i] != ':' && p[i] != '\\'
    &&& !(p.len() >= 2 && p[0] == '/' && p[1] == '/')
    &&& p.last() != '/'
    &&& p.last() != '.'
}

/// The index of the last `.` of `v`, or -1.
pub open spec fn last_dot(v: Seq<char>) -> int
    decreases v.len(),
{
    if v.len() == 0 {
        -1
    } else if v.last() == '.' {
        v.len() - 1
    } else {
        last_dot(v.drop_last())
    }
}

/// The extension of `v` when `v` splits at its last `.` as `plain_dotted`
/// asks.
pub open spec fn plain_extension(v: Seq<char>) -> Option<Seq<char>> {
    let i = last_dot(v);
    if i >= 0 && plain_dotted(v, v.subrange(0, i), v.subrange(i + 1, v.len() as int)) {
        Some(v.subrange(i + 1, v.len() as int))
    } else {
        None
    }
}

/// `Path::extension` of the input taken as a path, as text. Its documentation:
/// the part of the file name after its final `.`, or none when the file name
/// has no `.` after its first character. Claimed, on every platform: no
/// extension when the input holds no `.`, and `e` for an input that
/// `plain_dotted` splits as `p` + `.` + `e`. Other inputs (drive prefixes,
/// `\\` separators) depend on the platform's path syntax and are left open,
/// but for this: an extension holds no `.`.
#[verifier::external_body]
fn path_extension(value: &str) -> (r: Option<String>)
    ensures
        r matches Some(e) ==> !e@.contains('.'),
        !value@.contains('.') ==> r is None,
        plain_extension(value@) is Some ==> opt_text(r) == plain_extension(value@),
{
    std::path::Path::new(value).extension().and_then(|e| e.to_str()).map(|e| e.to_string())
}

/// What `str::to_lowercase` gives (full Unicode lower-casing).
pub uninterp spec fn unicode_lowercase(s: Seq<char>) -> Seq<char>;

/// `str::to_lowercase`. Claimed: the result is `unicode_lowercase` of the input.
#[verifier::external_body]
pub(crate) fn to_lowercase(s: &str) -> (r: String)
    ensures
        r@ == unicode_lowercase(s@),
{
    s.to_lowercase()
}

/// A refusal: variant code (in declaration order) and its two texts, empty
/// where the variant carries fewer.
pub type ErrView = (nat, Seq<char>, Seq<char>);

pub open spec fn err_view(e: ResourceParseError) -> ErrView {
    match e {
        ResourceParseError::InvalidUrl { value, message } => (0, value@, message@),
        ResourceParseError::FigmaMissingFileKey { url } => (1, url@, Seq::<char>::empty()),
        ResourceParseError::FileNotFound { path } => (2, path@, Seq::<char>::empty()),
        ResourceParseError::UnsupportedExtension { extension, supported } => (
            3,
            extension@,
            supported@,
        ),
    }
}

pub type InfoView = (Seq<char>, Option<Seq<char>>);

pub open spec fn info_view(i: FigmaInfo) -> InfoView {
    (i.file_key@, opt_text(i.node_id))
}

pub type ParsedView = (ResourceKind, Seq<char>, Option<InfoView>);

pub open spec fn parsed_view(p: ParsedResource) -> ParsedView {
    (
        p.kind,
        p.value@,
        match p.figma_info {
            Some(i) => Some(info_view(i)),
            None => None,
        },
    )
}

/// The index of the first segment that is `file` or `design`, if any.
pub open spec fn key_marker(segs: Seq<Seq<char>>) -> Option<int>
    decreases segs.len(),
{
    if segs.len() == 0 {
        None
    } else {
        match key_marker(segs.drop_last()) {
            Some(i) => Some(i),
            None => if segs.last() == "file"@ || segs.last() == "design"@ {
                Some(segs.len() - 1)
            } else {
                None
            },
        }
    }
}

/// The value of the first query pair whose key is `node-id`.
pub open spec fn node_id_value(q: Seq<(Seq<char>, Seq<char>)>) -> Option<Seq<char>>
    decreases q.len(),
{
    if q.len() == 0 {
        None
    } else {
        match node_id_value(q.drop_last()) {
            Some(v) => Some(v),
            None => if q.last().0 == "node-id"@ {
                Some(q.last().1)
            } else {
                None
            },
        }
    }
}

/// The text with every `-` replaced by `:`.
pub open spec fn dashes_to_colons(s: Seq<char>) -> Seq<char> {
    s.map_values(|c: char| if c == '-' {
        ':'
    } else {
        c
    })
}

/// The Figma file key (the segment after the first `file` or `design`
/// segment) and node id (the `node-id` query value with `-` read as `:`).
pub open spec fn figma_info_outcome(value: Seq<char>, u: Result<UrlView, Seq<char>>) -> Result<
    InfoView,
    ErrView,
> {
    match u {
        Err(m) => Err((0, value, m)),
        Ok(parts) => {
            let segs = match parts.1 {
                Some(s) => s,
                None => Seq::<Seq<char>>::empty(),
            };
            match key_marker(segs) {
                Some(i) => if i + 1 < segs.len() {
                    Ok(
                        (
                            segs[i + 1],
                            match node_id_value(parts.2) {
                                Some(v) => Some(dashes_to_colons(v)),
                                None => None,
                            },
                        ),
                    )
                } else {
                    Err((1, value, Seq::<char>::empty()))
                },
                None => Err((1, value, Seq::<char>::empty())),
            }
        },
    }
}

/// An http(s) input is a Figma resource when its host mentions `figma.com`,
/// otherwise a web page.
pub open spec fn url_resource_outcome(value: Seq<char>, u: Result<UrlView, Seq<char>>) -> Result<
    ParsedView,
    ErrView,
> {
    match u {
        Err(m) => Err((0, value, m)),
        Ok(parts) => {
            let host = match parts.0 {
                Some(h) => h,
                None => Seq::<char>::empty(),
            };
            if contains(host, "figma.com"@) {
                match figma_info_outcome(value, u) {
                    Ok(info) => Ok((ResourceKind::Figma, value, Some(info))),
                    Err(e) => Err(e),
                }
            } else {
                Ok((ResourceKind::Url, value, None))
            }
        },
    }
}

pub open spec fn supported_extension(e: Seq<char>) -> bool {
    e == "png"@ || e == "jpg"@ || e == "jpeg"@ || e == "webp"@ || e == "gif"@
}

/// The image extensions, as the refusal of another extension lists them.
pub open spec fn image_extensions() -> Seq<Seq<char>> {
    seq!["png"@, "jpg"@, "jpeg"@, "webp"@, "gif"@]
}

/// A local input is classified by its (lower-cased) extension first: an
/// extension among the listed image extensions gives an image when the file
/// exists and a missing file otherwise; any other extension is refused with
/// the list of supported extensions, which names exactly those extensions;
/// no extension is refused as `no extension`.
pub proof fn lemma_local_extensions(value: Seq<char>, ext: Option<Seq<char>>, is_file: bool)
    ensures
        ext matches Some(e) && image_extensions().contains(e) ==> local_resource_outcome(
            value,
            ext,
            is_file,
        ) == if is_file {
            Ok::<ParsedView, ErrView>((ResourceKind::Image, value, None))
        } else {
            Err::<ParsedView, ErrView>((2, value, Seq::<char>::empty()))
        },
        ext matches Some(e) && e.len() > 0 && !image_extensions().contains(e)
            ==> local_resource_outcome(value, ext, is_file) == Err::<ParsedView, ErrView>(
            (3, ext->0, "png, jpg, jpeg, webp, gif"@),
        ),
        ext is None ==> local_resource_outcome(value, ext, is_file) == Err::<ParsedView, ErrView>(
            (3, "no extension"@, "png, jpg, jpeg, webp, gif"@),
        ),
        "png, jpg, jpeg, webp, gif"@ == image_extensions()[0] + ", "@ + image_extensions()[1] + ", "@
            + image_extensions()[2] + ", "@ + image_extensions()[3] + ", "@
            + image_extensions()[4],
{
    reveal_strlit("png");
    reveal_strlit("jpg");
    reveal_strlit("jpeg");
    reveal_strlit("webp");
    reveal_strlit("gif");
    reveal_strlit(", ");
    reveal_strlit("");
    reveal_strlit("png, jpg, jpeg, webp, gif");
    let l = image_extensions();
    if let Some(e) = ext {
        if l.contains(e) {
            let i = choose|i: int| 0 <= i < l.len() && l[i] == e;
            assert(supported_extension(e));
        } else {
            assert(l[0] == "png"@ && l[1] == "jpg"@ && l[2] == "jpeg"@ && l[3] == "webp"@ && l[4]
                == "gif"@);
            if supported_extension(e) {
                if e == "png"@ {
                    assert(l.contains(e));
                } else if e == "jpg"@ {
                    assert(l[1] == e);
                } else if e == "jpeg"@ {
                    assert(l[2] == e);
                } else if e == "webp"@ {
                    assert(l[3] == e);
                } else {
                    assert(l[4] == e);
                }
            }
        }
    }
    assert("png, jpg, jpeg, webp, gif"@ =~= l[0] + ", "@ + l[1] + ", "@ + l[2] + ", "@ + l[3]
        + ", "@ + l[4]);
}

/// A local input must have an image extension (given lower-cased) and name
/// an existing file.
/// The input starts with `http://` or `https://`.
pub open spec fn web_address(v: Seq<char>) -> bool {
    starts_with(v, "http://"@) || starts_with(v, "https://"@)
}

/// A result of classification taken by its view.
pub open spec fn outcome_view(r: Result<ParsedResource, ResourceParseError>) -> Result<ParsedView, ErrView> {
    match r {
        Ok(p) => Ok(parsed_view(p)),
        Err(e) => Err(err_view(e)),
    }
}

pub open spec fn local_resource_outcome(value: Seq<char>, ext: Option<Seq<char>>, is_file: bool) -> Result<
    ParsedView,
    ErrView,
> {
    let e = match ext {
        Some(x) => x,
        None => Seq::<char>::empty(),
    };
    if !supported_extension(e) {
        Err(
            (
                3,
                if e.len() == 0 {
                    "no extension"@
                } else {
                    e
                },
                "png, jpg, jpeg, webp, gif"@,
            ),
        )
    } else if !is_file {
        Err((2, value, Seq::<char>::empty()))
    } else {
        Ok((ResourceKind::Image, value, None))
    }
}

fn text_is(s: &String, lit: &str) -> (b: bool)
    ensures
        b == (s@ == lit@),
{
    let a = chars_of(s.as_str());
    let l = chars_of(lit);
    eq_chars(a.as_slice(), l.as_slice())
}

fn clone_text(s: &String) -> (r: String)
    ensures
        r@ == s@,
{
    owned(s.as_str())
}

/// Reads the Figma file key and node id from what the URL parser reported.
pub fn figma_info_from_url(value: &str, url: &Result<UrlParts, String>) -> (r: Result<
    FigmaInfo,
    ResourceParseError,
>)
    ensures
        figma_info_outcome(
            value@,
            match url {
                Ok(p) => Ok::<UrlView, Seq<char>>(url_view(*p)),
                Err(m) => Err::<UrlView, Seq<char>>(m@),
            },
        ) == match r {
            Ok(i) => Ok::<InfoView, ErrView>(info_view(i)),
            Err(e) => Err::<InfoView, ErrView>(err_view(e)),
        },
{
    let parts = match url {
        Err(m) => {
            return Err(
                ResourceParseError::InvalidUrl { value: owned(value), message: clone_text(m) },
            );
        },
        Ok(p) => p,
    };
    let ghost uv = url_view(*parts);
    let empty: Vec<String> = Vec::new();
    let segs: &Vec<String> = match &parts.segments {
        Some(s) => s,
        None => &empty,
    };
    let ghost sv = segs@.map_values(|s: String| s@);
    proof {
        assert(sv =~= match uv.1 {
            Some(s) => s,
            None => Seq::<Seq<char>>::empty(),
        });
    }
    let n = segs.len();
    let mut i: usize = 0;
    let mut found: bool = false;
    while i < n && !found
        invariant
            i <= n,
            n == segs@.len(),
            sv == segs@.map_values(|s: String| s@),
            found ==> i >= 1 && key_marker(sv) == Some((i - 1) as int),
            !found ==> key_marker(sv.take(i as int)) is None,
        decreases n - i + if found {
            0int
        } else {
            1int
        },
    {
        let hit = text_is(&segs[i], "file") || text_is(&segs[i], "design");
        proof {
            assert(sv.take(i + 1).drop_last() =~= sv.take(i as int));
            assert(sv.take(i + 1).last() == segs@[i as int]@);
            if hit {
                lemma_key_marker_extend(sv, i as int + 1);
            }
        }
        found = hit;
        i = i + 1;
    }
    proof {
        if !found {
            assert(sv.take(n as int) =~= sv);
        }
    }
    if !found || i >= n {
        return Err(ResourceParseError::FigmaMissingFileKey { url: owned(value) });
    }
    let file_key = clone_text(&segs[i]);
    let q = &parts.query;
    let ghost qv = q@.map_values(|kv: (String, String)| (kv.0@, kv.1@));
    let m = q.len();
    let mut j: usize = 0;
    let mut node: Option<String> = None;
    while j < m && node.is_none()
        invariant
            j <= m,
            m == q@.len(),
            qv == q@.map_values(|kv: (String, String)| (kv.0@, kv.1@)),
            match node {
                Some(v) => j >= 1 && (node_id_value(qv) matches Some(x) && v@ == dashes_to_colons(
                    x,
                )),
                None => node_id_value(qv.take(j as int)) is None,
            },
        decreases m - j + if node is Some {
            0int
        } else {
            1int
        },
    {
        proof {
            assert(qv.take(j + 1).drop_last() =~= qv.take(j as int));
            assert(qv.take(j + 1).last() == (q@[j as int].0@, q@[j as int].1@));
        }
        if text_is(&q[j].0, "node-id") {
            let v = replace_dashes(&q[j].1);
            proof {
                lemma_node_id_extend(qv, j as int + 1);
            }
            node = Some(v);
        }
        j = j + 1;
    }
    proof {
        if node is None {
            assert(qv.take(m as int) =~= qv);
        }
    }
    let node_id = match node {
        Some(v) => Some(v),
        None => None,
    };
    let r = FigmaInfo { file_key, node_id };
    proof {
        assert(uv.2 == qv);
    }
    Ok(r)
}

fn replace_dashes(s: &String) -> (r: String)
    ensures
        r@ == dashes_to_colons(s@),
{
    let cs = chars_of(s.as_str());
    let mut out: Vec<char> = Vec::new();
    for i in 0..cs.len()
        invariant
            out@ == dashes_to_colons(cs@.take(i as int)),
    {
        let c = cs[i];
        if c == '-' {
            out.push(':');
        } else {
            out.push(c);
        }
        proof {
            assert(dashes_to_colons(cs@.take(i + 1)) =~= out@);
        }
    }
    proof {
        assert(cs@.take(cs@.len() as int) =~= cs@);
    }
    string_from_chars(out.as_slice())
}

proof fn lemma_key_marker_extend(s: Seq<Seq<char>>, k: int)
    requires
        1 <= k <= s.len(),
        key_marker(s.take(k - 1)) is None,
        s[k - 1] == "file"@ || s[k - 1] == "design"@,
    ensures
        key_marker(s) == Some(k - 1),
    decreases s.len(),
{
    if s.len() == k {
        assert(s.drop_last() =~= s.take(k - 1));
    } else {
        assert(s.drop_last().take(k - 1) =~= s.take(k - 1));
        lemma_key_marker_extend(s.drop_last(), k);
    }
}

proof fn lemma_node_id_extend(q: Seq<(Seq<char>, Seq<char>)>, k: int)
    requires
        1 <= k <= q.len(),
        node_id_value(q.take(k - 1)) is None,
        q[k - 1].0 == "node-id"@,
    ensures
        node_id_value(q) == Some(q[k - 1].1),
    decreases q.len(),
{
    if q.len() == k {
        assert(q.drop_last() =~= q.take(k - 1));
    } else {
        assert(q.drop_last().take(k - 1) =~= q.take(k - 1));
        lemma_node_id_extend(q.drop_last(), k);
    }
}

/// Classifies an http(s) input from what the URL parser reported of it.
pub fn resource_from_url(value: &str, url: Result<UrlParts, String>) -> (r: Result<
    ParsedResource,
    ResourceParseError,
>)
    ensures
        url_resource_outcome(
            value@,
            match url {
                Ok(p) => Ok::<UrlView, Seq<char>>(url_view(p)),
                Err(m) => Err::<UrlView, Seq<char>>(m@),
            },
        ) == match r {
            Ok(p) => Ok::<ParsedView, ErrView>(parsed_view(p)),
            Err(e) => Err::<ParsedView, ErrView>(err_view(e)),
        },
{
    let is_figma = match &url {
        Err(_) => false,
        Ok(p) => match &p.host {
            Some(h) => {
                let hc = chars_of(h.as_str());
                let pat = chars_of("figma.com");
                contains_chars(hc.as_slice(), pat.as_slice())
            },
            None => {
                let pat = chars_of("figma.com");
                let e: Vec<char> = Vec::new();
                contains_chars(e.as_slice(), pat.as_slice())
            },
        },
    };
    match &url {
        Err(m) => Err(
            ResourceParseError::InvalidUrl { value: owned(value), message: clone_text(m) },
        ),
        Ok(_) => {
            if is_figma {
                match figma_info_from_url(value, &url) {
                    Ok(info) => Ok(
                        ParsedResource {
                            kind: ResourceKind::Figma,
                            value: owned(value),
                            figma_info: Some(info),
                        },
                    ),
                    Err(e) => Err(e),
                }
            } else {
                Ok(ParsedResource { kind: ResourceKind::Url, value: owned(value), figma_info: None })
            }
        },
    }
}

fn is_supported(e: &String) -> (b: bool)
    ensures
        b == supported_extension(e@),
{
    text_is(e, "png") || text_is(e, "jpg") || text_is(e, "jpeg") || text_is(e, "webp") || text_is(
        e,
        "gif",
    )
}

/// Classifies a local input from its lower-cased extension and whether it
/// names an existing file.
pub fn resource_from_local(value: &str, extension: Option<String>, is_file: bool) -> (r: Result<
    ParsedResource,
    ResourceParseError,
>)
    ensures
        local_resource_outcome(value@, opt_text(extension), is_file) == match r {
            Ok(p) => Ok::<ParsedView, ErrView>(parsed_view(p)),
            Err(e) => Err::<ParsedView, ErrView>(err_view(e)),
        },
{
    let ghost ev = match opt_text(extension) {
        Some(x) => x,
        None => Seq::<char>::empty(),
    };
    let e = match extension {
        Some(x) => x,
        None => owned(""),
    };
    proof {
        reveal_strlit("");
        assert(e@ =~= ev);
    }
    if !is_supported(&e) {
        let shown = if e.as_str().is_empty() {
            owned("no extension")
        } else {
            e
        };
        return Err(
            ResourceParseError::UnsupportedExtension {
                extension: shown,
                supported: owned("png, jpg, jpeg, webp, gif"),
            },
        );
    }
    if !is_file {
        return Err(ResourceParseError::FileNotFound { path: owned(value) });
    }
    Ok(ParsedResource { kind: ResourceKind::Image, value: owned(value), figma_info: None })
}

/// Classifies an input. With `override_type` the input is taken to be of
/// that kind (a Figma one keeps whatever Figma details its URL yields);
/// otherwise `http://` and `https://` inputs are URLs (Figma when the host
/// mentions `figma.com`) and anything else is a local image, which must have
/// an image extension (case aside) and, as `is_file` reports, exist as a file.
pub fn parse_resource(value: &str, override_type: Option<ResourceKind>, is_file: bool) -> (r: Result<
    ParsedResource,
    ResourceParseError,
>)
    ensures
        override_type matches Some(kind) ==> (r matches Ok(p) && p.kind == kind && p.value@
            == value@ && (kind == ResourceKind::Figma ==> match figma_info_outcome(
            value@,
            url_parse(value@),
        ) {
            Ok(i) => p.figma_info matches Some(fi) && info_view(fi) == i,
            Err(_) => p.figma_info is None,
        }) && (kind != ResourceKind::Figma ==> p.figma_info is None)),
        override_type is None && (starts_with(value@, "http://"@) || starts_with(
            value@,
            "https://"@,
        )) ==> url_resource_outcome(value@, url_parse(value@)) == match r {
            Ok(p) => Ok::<ParsedView, ErrView>(parsed_view(p)),
            Err(e) => Err::<ParsedView, ErrView>(err_view(e)),
        },
        override_type is None && !(starts_with(value@, "http://"@) || starts_with(
            value@,
            "https://"@,
        )) ==> exists|x: Option<Seq<char>>| #[trigger]
            local_resource_outcome(value@, x, is_file) == outcome_view(r),
        override_type is None && !web_address(value@) && !value@.contains('.') ==> outcome_view(r)
            == local_resource_outcome(value@, None, is_file),
        override_type is None && !web_address(value@) && plain_extension(value@) is Some
            ==> outcome_view(r) == local_resource_outcome(
            value@,
            Some(unicode_lowercase(plain_extension(value@)->0)),
            is_file,
        ),
{
    if let Some(kind) = override_type {
        let info = if kind == ResourceKind::Figma {
            let u = parse_url(value);
            match figma_info_from_url(value, &u) {
                Ok(i) => Some(i),
                Err(_) => None,
            }
        } else {
            None
        };
        return Ok(ParsedResource { kind, value: owned(value), figma_info: info });
    }
    let cs = chars_of(value);
    let http = chars_of("http://");
    let https = chars_of("https://");
    if starts_with_chars(cs.as_slice(), http.as_slice()) || starts_with_chars(
        cs.as_slice(),
        https.as_slice(),
    ) {
        let u = parse_url(value);
        resource_from_url(value, u)
    } else {
        let ext = match path_extension(value) {
            Some(e) => Some(to_lowercase(e.as_str())),
            None => None,
        };
        let ghost x = opt_text(ext);
        let r = resource_from_local(value, ext, is_file);
        proof {
            assert(local_resource_outcome(value@, x, is_file) == outcome_view(r));
        }
        r
    }
}

fn joined3(a: &str, b: &str, c: &str) -> (r: String)
    ensures
        r@ == a@ + b@ + c@,
{
    let mut out: Vec<char> = Vec::new();
    push_str(&mut out, a);
    push_str(&mut out, b);
    push_str(&mut out, c);
    proof {
        assert(out@ =~= a@ + b@ + c@);
    }
    string_from_chars(out.as_slice())
}

fn joined4(a: &str, b: &str, c: &str, d: &str, e: &str) -> (r: String)
    ensures
        r@ == a@ + b@ + c@ + d@ + e@,
{
    let mut out: Vec<char> = Vec::new();
    push_str(&mut out, a);
    push_str(&mut out, b);
    push_str(&mut out, c);
    push_str(&mut out, d);
    push_str(&mut out, e);
    proof {
        assert(out@ =~= a@ + b@ + c@ + d@ + e@);
    }
    string_from_chars(out.as_slice())
}

impl ResourceParseError {
    /// The text that describes the refusal.
    pub fn message(&self) -> (r: String)
        ensures
            r@ == (match self {
                ResourceParseError::InvalidUrl { value, message } => "Invalid URL '"@ + value@
                    + "': "@ + message@
                    + ". Hint: include http(s):// and ensure the URL is well-formed."@,
                ResourceParseError::FigmaMissingFileKey { url } =>
                    "Figma URL missing file key in '"@ + url@
                    + "'. Hint: use https://www.figma.com/file/<FILE_KEY>/... and node-id if needed."@,
                ResourceParseError::FileNotFound { path } => "Local file not found: "@ + path@
                    + ". Hint: check the path relative to the current working directory or use an absolute path."@,
                ResourceParseError::UnsupportedExtension { extension, supported } =>
                    "Unsupported file extension '"@ + extension@ + "'. Supported image extensions: "@
                    + supported@ + "."@,
            }),
    {
        match self {
            ResourceParseError::InvalidUrl { value, message } => joined4(
                "Invalid URL '",
                value.as_str(),
                "': ",
                message.as_str(),
                ". Hint: include http(s):// and ensure the URL is well-formed.",
            ),
            ResourceParseError::FigmaMissingFileKey { url } => joined3(
                "Figma URL missing file key in '",
                url.as_str(),
                "'. Hint: use https://www.figma.com/file/<FILE_KEY>/... and node-id if needed.",
            ),
            ResourceParseError::FileNotFound { path } => joined3(
                "Local file not found: ",
                path.as_str(),
                ". Hint: check the path relative to the current working directory or use an absolute path.",
            ),
            ResourceParseError::UnsupportedExtension { extension, supported } => joined4(
                "Unsupported file extension '",
                extension.as_str(),
                "'. Supported image extensions: ",
                supported.as_str(),
                ".",
            ),
        }
    }
}

} // verus!
