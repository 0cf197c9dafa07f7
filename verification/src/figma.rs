//! Figma: authentication, export formats, and the decisions the API clients
//! make on requests and responses.
use vstd::prelude::*;

use crate::error::DpcError;
use crate::json::{field_text, json_field, json_field_of, or_field, or_field_of, text_of_field};
use crate::resource::{to_lowercase, unicode_lowercase, FigmaInfo};
use crate::text::{
    chars_of, decimal, eq_chars, owned, parse_u64_chars, parse_unsigned, push_decimal, push_str,
    starts_with, starts_with_chars, string_from_chars, trim, trim_chars,
};

verus! {

/// How requests to Figma are authenticated.
#[derive(Debug, Clone)]
pub enum FigmaAuth {
    PersonalAccessToken(String),
    OAuthToken(String),
}

pub open spec fn auth_token(a: FigmaAuth) -> Seq<char> {
    match a {
        FigmaAuth::PersonalAccessToken(t) => t@,
        FigmaAuth::OAuthToken(t) => t@,
    }
}

/// The header that carries the credentials: its name and its value.
pub open spec fn auth_header(a: FigmaAuth) -> (Seq<char>, Seq<char>) {
    match a {
        FigmaAuth::PersonalAccessToken(t) => ("X-FIGMA-TOKEN"@, t@),
        FigmaAuth::OAuthToken(t) => ("Authorization"@, "Bearer "@ + t@),
    }
}

impl FigmaAuth {
    /// The credentials found in the environment: a non-empty personal
    /// access token (`FIGMA_TOKEN`) first, else a non-empty OAuth token
    /// (`FIGMA_OAUTH_TOKEN`).
    pub fn from_tokens(figma_token: Option<String>, oauth_token: Option<String>) -> (r: Option<
        FigmaAuth,
    >)
        ensures
            match figma_token {
                Some(t) if t@.len() > 0 => r == Some(FigmaAuth::PersonalAccessToken(t)),
                _ => match oauth_token {
                    Some(t) if t@.len() > 0 => r == Some(FigmaAuth::OAuthToken(t)),
                    _ => r is None,
                },
            },
    {
        if let Some(t) = figma_token {
            if t.as_str().unicode_len() > 0 {
                return Some(FigmaAuth::PersonalAccessToken(t));
            }
        }
        if let Some(t) = oauth_token {
            if t.as_str().unicode_len() > 0 {
                return Some(FigmaAuth::OAuthToken(t));
            }
        }
        None
    }

    /// The token, whichever its kind.
    pub fn token(&self) -> (r: &String)
        ensures
            r@ == auth_token(*self),
    {
        match self {
            FigmaAuth::PersonalAccessToken(t) => t,
            FigmaAuth::OAuthToken(t) => t,
        }
    }

    /// The header that authenticates a request.
    pub fn header(&self) -> (r: (String, String))
        ensures
            (r.0@, r.1@) == auth_header(*self),
    {
        match self {
            FigmaAuth::PersonalAccessToken(t) => (owned("X-FIGMA-TOKEN"), owned(t.as_str())),
            FigmaAuth::OAuthToken(t) => {
                let mut v: Vec<char> = Vec::new();
                push_str(&mut v, "Bearer ");
                push_str(&mut v, t.as_str());
                (owned("Authorization"), string_from_chars(v.as_slice()))
            },
        }
    }
}

/// Image formats of the export endpoint.
#[derive(Debug, Clone, Copy, PartialEq, Eq, Structural)]
pub enum ImageFormat {
    Png,
    Jpg,
    Svg,
    Pdf,
}

pub open spec fn image_format_name(f: ImageFormat) -> Seq<char> {
    match f {
        ImageFormat::Png => "png"@,
        ImageFormat::Jpg => "jpg"@,
        ImageFormat::Svg => "svg"@,
        ImageFormat::Pdf => "pdf"@,
    }
}

impl ImageFormat {
    /// The name of the format in export requests.
    pub fn as_str(&self) -> (r: &'static str)
        ensures
            r@ == image_format_name(*self),
    {
        match self {
            ImageFormat::Png => "png",
            ImageFormat::Jpg => "jpg",
            ImageFormat::Svg => "svg",
            ImageFormat::Pdf => "pdf",
        }
    }
}

/// Image formats that an export of a node can be asked in.
#[derive(Debug, Clone, Copy, PartialEq, Eq, Structural)]
pub enum FigmaImageFormat {
    Png,
    Jpg,
    Svg,
}

pub open spec fn figma_image_format_name(f: FigmaImageFormat) -> Seq<char> {
    match f {
        FigmaImageFormat::Png => "png"@,
        FigmaImageFormat::Jpg => "jpg"@,
        FigmaImageFormat::Svg => "svg"@,
    }
}

impl FigmaImageFormat {
    /// The name of the format in export requests.
    pub fn as_str(&self) -> (r: &'static str)
        ensures
            r@ == figma_image_format_name(*self),
    {
        match self {
            FigmaImageFormat::Png => "png",
            FigmaImageFormat::Jpg => "jpg",
            FigmaImageFormat::Svg => "svg",
        }
    }
}

/// The answer of the image export endpoint: the image URL of each node, as
/// (node id, URL) pairs, and the error text when there is one.
#[derive(Debug, Clone)]
pub struct FigmaImageResponse {
    pub images: Vec<(String, String)>,
    pub err: Option<String>,
}

/// The URLs of an export, by node id.
#[derive(Debug, Clone)]
pub struct FigmaImageExport {
    pub images: Vec<(String, String)>,
}

/// The URL given for a node, the first pair with that id.
pub open spec fn url_for(images: Seq<(String, String)>, node_id: Seq<char>) -> Option<Seq<char>>
    decreases images.len(),
{
    if images.len() == 0 {
        None
    } else if images[0].0@ == node_id {
        Some(images[0].1@)
    } else {
        url_for(images.drop_first(), node_id)
    }
}

/// Looks up the URL given for a node.
pub fn find_image_url(images: &Vec<(String, String)>, node_id: &str) -> (r: Option<String>)
    ensures
        match url_for(images@, node_id@) {
            Some(u) => r matches Some(s) && s@ == u,
            None => r is None,
        },
{
    let id = chars_of(node_id);
    let mut k: usize = 0;
    proof {
        assert(images@.subrange(0, images@.len() as int) =~= images@);
    }
    while k < images.len()
        invariant
            k <= images@.len(),
            id@ == node_id@,
            url_for(images@, node_id@) == url_for(images@.subrange(k as int, images@.len() as int), node_id@),
        decreases images@.len() - k,
    {
        let key = chars_of(images[k].0.as_str());
        proof {
            assert(images@.subrange(k as int, images@.len() as int).drop_first() =~= images@.subrange(
                k + 1,
                images@.len() as int,
            ));
            assert(images@.subrange(k as int, images@.len() as int)[0] == images@[k as int]);
        }
        if eq_chars(key.as_slice(), id.as_slice()) {
            return Some(owned(images[k].1.as_str()));
        }
        k = k + 1;
    }
    None
}

// ---------------------------------------------------------------------------
// The Figma client of the rendering pipeline
// ---------------------------------------------------------------------------

/// What can go wrong talking to Figma. Errors of the HTTP client are
/// carried as their message.
#[derive(Debug)]
pub enum FigmaError {
    Request(String),
    Api { status: u16, message: String },
    MissingToken,
    InvalidFileKey(String),
    NodeNotFound(String),
    RateLimited(u64),
}

/// The `Display` text of a Figma error.
pub open spec fn figma_error_text(e: FigmaError) -> Seq<char> {
    match e {
        FigmaError::Request(m) => "HTTP request failed: "@ + m@,
        FigmaError::Api { status, message } => "Figma API error ("@ + decimal(status as nat)
            + "): "@ + message@,
        FigmaError::MissingToken => "Missing access token"@,
        FigmaError::InvalidFileKey(k) => "Invalid file key: "@ + k@,
        FigmaError::NodeNotFound(id) => "Node not found: "@ + id@,
        FigmaError::RateLimited(s) => "Rate limited, retry after "@ + decimal(s as nat)
            + " seconds"@,
    }
}

/// A valid HTTP status code: three digits.
pub open spec fn valid_status(code: u16) -> bool {
    100 <= code <= 999
}

fn text_of(head: &str, body: &str) -> (r: String)
    ensures
        r@ == head@ + body@,
{
    let mut v: Vec<char> = Vec::new();
    push_str(&mut v, head);
    push_str(&mut v, body);
    string_from_chars(v.as_slice())
}

fn text_with_number(head: &str, n: u64, tail: &str) -> (r: String)
    ensures
        r@ == head@ + decimal(n as nat) + tail@,
{
    let mut v: Vec<char> = Vec::new();
    push_str(&mut v, head);
    push_decimal(&mut v, n);
    push_str(&mut v, tail);
    proof {
        assert(v@ =~= head@ + decimal(n as nat) + tail@);
    }
    string_from_chars(v.as_slice())
}

impl FigmaError {
    /// The text that describes the error.
    pub fn message(&self) -> (r: String)
        ensures
            r@ == figma_error_text(*self),
    {
        match self {
            FigmaError::Request(m) => text_of("HTTP request failed: ", m.as_str()),
            FigmaError::Api { status, message } => {
                let mut v: Vec<char> = Vec::new();
                push_str(&mut v, "Figma API error (");
                push_decimal(&mut v, *status as u64);
                push_str(&mut v, "): ");
                push_str(&mut v, message.as_str());
                proof {
                    assert(v@ =~= figma_error_text(*self));
                }
                string_from_chars(v.as_slice())
            },
            FigmaError::MissingToken => owned("Missing access token"),
            FigmaError::InvalidFileKey(k) => text_of("Invalid file key: ", k.as_str()),
            FigmaError::NodeNotFound(id) => text_of("Node not found: ", id.as_str()),
            FigmaError::RateLimited(s) => text_with_number(
                "Rate limited, retry after ",
                *s,
                " seconds",
            ),
        }
    }
}

/// Turns a Figma error into an error of the pipeline: request failures are
/// network errors, API errors keep their status (500 when it is no valid
/// HTTP status), a missing token is a configuration error, and an unknown
/// file key, a missing node or a rate limit are Figma API errors with their
/// explanation (429 for the rate limit).
pub fn map_figma_error(e: FigmaError) -> (r: DpcError)
    ensures
        match e {
            FigmaError::Request(m) => r == DpcError::Network(m),
            FigmaError::Api { status, message } => r == (DpcError::FigmaApi {
                status: Some(if valid_status(status) { status } else { 500u16 }),
                message,
            }),
            FigmaError::MissingToken => r matches DpcError::Config(m) && m@
                == "Missing Figma token; set FIGMA_TOKEN or FIGMA_OAUTH_TOKEN"@,
            FigmaError::InvalidFileKey(k) => r matches DpcError::FigmaApi { status, message }
                && status is None && message@ == "Invalid Figma file key: "@ + k@,
            FigmaError::NodeNotFound(id) => r matches DpcError::FigmaApi { status, message }
                && status is None && message@ == "Node not found: "@ + id@,
            FigmaError::RateLimited(secs) => r matches DpcError::FigmaApi { status, message }
                && status == Some(429u16) && message@ == "Rate limited, retry after "@ + decimal(
                secs as nat,
            ) + " seconds"@,
        },
{
    match e {
        FigmaError::Request(m) => DpcError::Network(m),
        FigmaError::Api { status, message } => {
            let code: u16 = if 100 <= status && status <= 999 {
                status
            } else {
                500
            };
            DpcError::FigmaApi { status: Some(code), message }
        },
        FigmaError::MissingToken => DpcError::Config(
            owned("Missing Figma token; set FIGMA_TOKEN or FIGMA_OAUTH_TOKEN"),
        ),
        FigmaError::InvalidFileKey(k) => DpcError::FigmaApi {
            status: None,
            message: text_of("Invalid Figma file key: ", k.as_str()),
        },
        FigmaError::NodeNotFound(id) => DpcError::FigmaApi {
            status: None,
            message: text_of("Node not found: ", id.as_str()),
        },
        FigmaError::RateLimited(secs) => DpcError::FigmaApi {
            status: Some(429),
            message: text_with_number("Rate limited, retry after ", secs, " seconds"),
        },
    }
}

/// A client needs a token.
pub fn check_token(auth: &FigmaAuth) -> (r: Result<(), FigmaError>)
    ensures
        r is Err <==> auth_token(*auth).len() == 0,
        r matches Err(e) ==> e is MissingToken,
{
    if auth.token().as_str().unicode_len() == 0 {
        Err(FigmaError::MissingToken)
    } else {
        Ok(())
    }
}

/// An HTTP status of success.
pub open spec fn is_success(status: u16) -> bool {
    200 <= status <= 299
}

/// What a response of the API means before its body is read as data: 429
/// is a rate limit, with the wait given by the `Retry-After` header when it
/// is a number and 60 seconds otherwise; another failure status is an API
/// error with the body as its message; a success is `None`.
pub fn response_error(status: u16, retry_after: Option<&str>, body: String) -> (r: Option<
    FigmaError,
>)
    ensures
        status == 429 ==> (r matches Some(FigmaError::RateLimited(secs)) && secs == match retry_after {
            Some(h) => match parse_unsigned(h@, u64::MAX as nat) {
                Some(v) => v as u64,
                None => 60u64,
            },
            None => 60u64,
        }),
        status != 429 && !is_success(status) ==> r == Some(
            FigmaError::Api { status, message: body },
        ),
        status != 429 && is_success(status) ==> r is None,
{
    if status == 429 {
        let secs: u64 = match retry_after {
            Some(h) => {
                let cs = chars_of(h);
                match parse_u64_chars(cs.as_slice()) {
                    Some(v) => v,
                    None => 60,
                }
            },
            None => 60,
        };
        return Some(FigmaError::RateLimited(secs));
    }
    if !(200 <= status && status <= 299) {
        return Some(FigmaError::Api { status, message: body });
    }
    None
}

/// The URL given for the exported node, or `NodeNotFound`.
pub fn exported_image_url(export: &FigmaImageExport, node_id: &str) -> (r: Result<
    String,
    FigmaError,
>)
    ensures
        match url_for(export.images@, node_id@) {
            Some(u) => r matches Ok(s) && s@ == u,
            None => r matches Err(FigmaError::NodeNotFound(id)) && id@ == node_id@,
        },
{
    match find_image_url(&export.images, node_id) {
        Some(u) => Ok(u),
        None => Err(FigmaError::NodeNotFound(owned(node_id))),
    }
}

/// The request of a render is complete: a file key, a node id and an
/// output path that are not blank (the path not empty).
pub fn check_render_request(file_key: &str, node_id: &str, output_path: &str) -> (r: Result<
    (),
    DpcError,
>)
    ensures
        trim(file_key@).len() == 0 ==> (r matches Err(DpcError::Config(m)) && m@
            == "Figma file key is required for export"@),
        trim(file_key@).len() > 0 && trim(node_id@).len() == 0 ==> (r matches Err(
            DpcError::Config(m),
        ) && m@ == "Figma node id is required for export"@),
        trim(file_key@).len() > 0 && trim(node_id@).len() > 0 && output_path@.len() == 0 ==> (r matches Err(
            DpcError::Config(m),
        ) && m@ == "Figma export output_path is required"@),
        trim(file_key@).len() > 0 && trim(node_id@).len() > 0 && output_path@.len() > 0 ==> r is Ok,
{
    let fk = chars_of(file_key);
    if trim_chars(fk.as_slice()).len() == 0 {
        return Err(DpcError::Config(owned("Figma file key is required for export")));
    }
    let ni = chars_of(node_id);
    if trim_chars(ni.as_slice()).len() == 0 {
        return Err(DpcError::Config(owned("Figma node id is required for export")));
    }
    if output_path.unicode_len() == 0 {
        return Err(DpcError::Config(owned("Figma export output_path is required")));
    }
    Ok(())
}

/// The kind of a paint.
#[derive(Debug, Clone, Copy, PartialEq, Eq, Structural)]
pub enum FigmaPaintKind {
    Solid,
    Gradient,
    Image,
}

/// The kind of a paint by its type, lower-cased: `solid`, `image`, any
/// `gradient...`, and solid for anything else.
pub open spec fn paint_kind_of(paint_type: Seq<char>) -> FigmaPaintKind {
    let l = unicode_lowercase(paint_type);
    if l == "solid"@ {
        FigmaPaintKind::Solid
    } else if l == "image"@ {
        FigmaPaintKind::Image
    } else if starts_with(l, "gradient"@) {
        FigmaPaintKind::Gradient
    } else {
        FigmaPaintKind::Solid
    }
}

/// Classifies a paint by its type.
pub fn map_paint_kind(paint_type: &str) -> (k: FigmaPaintKind)
    ensures
        k == paint_kind_of(paint_type@),
{
    let l = to_lowercase(paint_type);
    let cs = chars_of(l.as_str());
    let solid = chars_of("solid");
    let image = chars_of("image");
    let gradient = chars_of("gradient");
    if eq_chars(cs.as_slice(), solid.as_slice()) {
        FigmaPaintKind::Solid
    } else if eq_chars(cs.as_slice(), image.as_slice()) {
        FigmaPaintKind::Image
    } else if starts_with_chars(cs.as_slice(), gradient.as_slice()) {
        FigmaPaintKind::Gradient
    } else {
        FigmaPaintKind::Solid
    }
}

// ---------------------------------------------------------------------------
// The Figma client of the command line
// ---------------------------------------------------------------------------

/// Node ids are needed for an export.
pub fn validate_node_ids(node_ids: &Vec<String>, context: &str) -> (r: Result<(), DpcError>)
    ensures
        node_ids@.len() == 0 <==> r is Err,
        r matches Err(e) ==> (e matches DpcError::Config(m) && m@
            == "node_ids cannot be empty when "@ + context@),
{
    if node_ids.len() == 0 {
        return Err(DpcError::Config(text_of("node_ids cannot be empty when ", context)));
    }
    Ok(())
}

/// The ids joined with commas.
pub open spec fn comma_joined(ids: Seq<String>) -> Seq<char>
    decreases ids.len(),
{
    if ids.len() == 0 {
        Seq::empty()
    } else if ids.len() == 1 {
        ids[0]@
    } else {
        comma_joined(ids.drop_last()) + ","@ + ids.last()@
    }
}

/// The path of a request for some nodes of a file; nodes are needed.
pub fn nodes_path(file_key: &str, node_ids: &Vec<String>) -> (r: Result<String, DpcError>)
    ensures
        node_ids@.len() == 0 <==> r is Err,
        r matches Err(e) ==> (e matches DpcError::Config(m) && m@
            == "node_ids cannot be empty when fetching nodes from Figma"@),
        r matches Ok(p) ==> p@ == "/v1/files/"@ + file_key@ + "/nodes?ids="@ + comma_joined(
            node_ids@,
        ),
{
    if node_ids.len() == 0 {
        return Err(DpcError::Config(owned("node_ids cannot be empty when fetching nodes from Figma")));
    }
    let mut v: Vec<char> = Vec::new();
    push_str(&mut v, "/v1/files/");
    push_str(&mut v, file_key);
    push_str(&mut v, "/nodes?ids=");
    let ghost head = v@;
    for k in 0..node_ids.len()
        invariant
            v@ == head + comma_joined(node_ids@.take(k as int)),
    {
        if k > 0 {
            push_str(&mut v, ",");
        }
        push_str(&mut v, node_ids[k].as_str());
        proof {
            assert(node_ids@.take(k + 1).drop_last() =~= node_ids@.take(k as int));
            if k == 0 {
                assert(node_ids@.take(0) =~= Seq::<String>::empty());
            }
            assert(v@ =~= head + comma_joined(node_ids@.take(k + 1)));
        }
    }
    proof {
        assert(node_ids@.take(node_ids@.len() as int) =~= node_ids@);
    }
    Ok(string_from_chars(v.as_slice()))
}

/// The string under `err` of a JSON body, else under `error` when it has no
/// `err`; `None` when that field is not a string or neither is there.
pub open spec fn json_error_text(body: Seq<char>) -> Option<Seq<char>> {
    field_text(or_field(json_field(body, "err"@), body, "error"@))
}

fn error_text_in_body(body: &str) -> (r: Option<String>)
    ensures
        match json_error_text(body@) {
            Some(t) => r matches Some(s) && s@ == t,
            None => r is None,
        },
{
    let f = json_field_of(body, "err");
    let f = or_field_of(f, body, "error");
    text_of_field(f)
}

/// The message of a failed API call, from its status, its body and its
/// `Retry-After` header.
pub open spec fn api_error_message(status: u16, body_text: Option<Seq<char>>, retry_after: Option<
    Seq<char>,
>) -> Seq<char> {
    if status == 429 && retry_after is Some {
        match body_text {
            Some(m) => m + " (rate limited, retry after "@ + retry_after->0 + "s)"@,
            None => "rate limited by Figma API, retry after "@ + retry_after->0 + "s"@,
        }
    } else {
        match body_text {
            Some(m) => m,
            None => "Figma API returned status "@ + decimal(status as nat),
        }
    }
}

pub open spec fn str_view(o: Option<&str>) -> Option<Seq<char>> {
    match o {
        Some(s) => Some(s@),
        None => None,
    }
}

/// The message of a failed API call: the error text of the body, marked as
/// a rate limit on 429 with a `Retry-After`; without such a text, the rate
/// limit or the status.
pub fn error_message(status: u16, body: &str, retry_after: Option<&str>) -> (r: String)
    ensures
        r@ == api_error_message(status, json_error_text(body@), str_view(retry_after)),
{
    let from_body = error_text_in_body(body);
    let mut v: Vec<char> = Vec::new();
    if status == 429 && retry_after.is_some() {
        let retry = retry_after.unwrap();
        match from_body {
            Some(m) => {
                push_str(&mut v, m.as_str());
                push_str(&mut v, " (rate limited, retry after ");
                push_str(&mut v, retry);
                push_str(&mut v, "s)");
            },
            None => {
                push_str(&mut v, "rate limited by Figma API, retry after ");
                push_str(&mut v, retry);
                push_str(&mut v, "s");
            },
        }
    } else {
        match from_body {
            Some(m) => {
                return m;
            },
            None => {
                push_str(&mut v, "Figma API returned status ");
                push_decimal(&mut v, status as u64);
            },
        }
    }
    proof {
        assert(v@ =~= api_error_message(status, json_error_text(body@), str_view(retry_after)));
    }
    string_from_chars(v.as_slice())
}

/// The error of a failed API call.
pub fn api_error(status: u16, body: &str, retry_after: Option<&str>) -> (r: DpcError)
    ensures
        r matches DpcError::FigmaApi { status: s, message } && s == Some(status) && message@
            == api_error_message(status, json_error_text(body@), str_view(retry_after)),
{
    DpcError::figma_api(Some(status), error_message(status, body, retry_after))
}

/// The URL of an exported node, or an API error naming the node.
pub fn image_url_for_node(response: &FigmaImageResponse, node_id: &str) -> (r: Result<
    String,
    DpcError,
>)
    ensures
        match url_for(response.images@, node_id@) {
            Some(u) => r matches Ok(s) && s@ == u,
            None => r matches Err(DpcError::FigmaApi { status, message }) && status is None
                && message@ == "image URL missing for node "@ + node_id@,
        },
{
    match find_image_url(&response.images, node_id) {
        Some(u) => Ok(u),
        None => Err(
            DpcError::FigmaApi {
                status: None,
                message: text_of("image URL missing for node ", node_id),
            },
        ),
    }
}

/// The error of a failed image download.
pub fn download_error(status: u16, body: &str) -> (r: DpcError)
    ensures
        r matches DpcError::FigmaApi { status: s, message } && s == Some(status) && message@
            == "failed to download image (status "@ + decimal(status as nat) + "): "@ + body@,
{
    let mut v: Vec<char> = Vec::new();
    push_str(&mut v, "failed to download image (status ");
    push_decimal(&mut v, status as u64);
    push_str(&mut v, "): ");
    push_str(&mut v, body);
    proof {
        assert(v@ =~= "failed to download image (status "@ + decimal(status as nat) + "): "@ + body@);
    }
    DpcError::figma_api(Some(status), string_from_chars(v.as_slice()))
}

/// What rendering a Figma input needs: its file key, its node id and
/// credentials; the first one missing is the error.
pub fn figma_render_request(info: &Option<FigmaInfo>, auth: Option<FigmaAuth>) -> (r: Result<
    (String, String, FigmaAuth),
    DpcError,
>)
    ensures
        info is None ==> (r matches Err(DpcError::Config(m)) && m@ == "Missing Figma file key"@),
        info matches Some(i) && i.node_id is None ==> (r matches Err(DpcError::Config(m)) && m@
            == "Figma node-id is required"@),
        info matches Some(i) && i.node_id is Some && auth is None ==> (r matches Err(
            DpcError::Config(m),
        ) && m@ == "Figma token missing; set FIGMA_TOKEN or FIGMA_OAUTH_TOKEN"@),
        info is Some && info->0.node_id is Some && auth is Some ==> (r matches Ok((k, n, a)) && k@
            == info->0.file_key@ && n@ == info->0.node_id->0@ && a == auth->0),
{
    let i = match info {
        None => {
            return Err(DpcError::Config(owned("Missing Figma file key")));
        },
        Some(i) => i,
    };
    let node_id = match &i.node_id {
        None => {
            return Err(DpcError::Config(owned("Figma node-id is required")));
        },
        Some(n) => owned(n.as_str()),
    };
    match auth {
        None => Err(DpcError::Config(owned("Figma token missing; set FIGMA_TOKEN or FIGMA_OAUTH_TOKEN"))),
        Some(a) => Ok((owned(i.file_key.as_str()), node_id, a)),
    }
}

} // verus!
