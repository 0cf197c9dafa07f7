//! Images as text for JSON requests: base64 and `data:` URLs.
use vstd::prelude::*;

use crate::text::{push_str, string_from_chars};

verus! {

/// The character of the standard base64 alphabet for a 6-bit value.
pub open spec fn base64_digit(v: int) -> char {
    if v < 26 {
        (65 + v) as char
    } else if v < 52 {
        (97 + v - 26) as char
    } else if v < 62 {
        (48 + v - 52) as char
    } else if v == 62 {
        '+'
    } else {
        '/'
    }
}

/// Standard base64 (RFC 4648, alphabet `A-Z a-z 0-9 + /`, `=` padding):
/// every three bytes give four characters; a last one or two bytes give two
/// or three characters and `=` up to four.
pub open spec fn base64_standard(b: Seq<u8>) -> Seq<char>
    decreases b.len(),
{
    if b.len() == 0 {
        Seq::empty()
    } else if b.len() == 1 {
        seq![base64_digit((b[0] as int) / 4), base64_digit(((b[0] as int) % 4) * 16), '=', '=']
    } else if b.len() == 2 {
        seq![
            base64_digit((b[0] as int) / 4),
            base64_digit(((b[0] as int) % 4) * 16 + (b[1] as int) / 16),
            base64_digit(((b[1] as int) % 16) * 4),
            '=',
        ]
    } else {
        seq![
            base64_digit((b[0] as int) / 4),
            base64_digit(((b[0] as int) % 4) * 16 + (b[1] as int) / 16),
            base64_digit(((b[1] as int) % 16) * 4 + (b[2] as int) / 64),
            base64_digit((b[2] as int) % 64),
        ] + base64_standard(b.skip(3))
    }
}

/// `base64::Engine::encode` of `base64::engine::general_purpose::STANDARD`.
/// Claimed: the result is `base64_standard` of the bytes, the encoding its
/// documentation names (standard alphabet, with padding). The crate panics when the length of the encoding
/// overflows `usize`, which the bound on the input rules out.
#[verifier::external_body]
fn encode_base64(bytes: &[u8]) -> (r: String)
    requires
        bytes@.len() <= usize::MAX / 4 * 3,
    ensures
        r@ == base64_standard(bytes@),
{
    base64::Engine::encode(&base64::engine::general_purpose::STANDARD, bytes)
}

pub open spec fn png_data_url_prefix() -> Seq<char> {
    "data:image/png;base64,"@
}

/// A PNG image as a request carries it: its base64 text, and the `data:`
/// URL that holds that text.
pub fn request_image_fields(bytes: &[u8]) -> (r: (String, String))
    requires
        bytes@.len() <= usize::MAX / 4 * 3,
    ensures
        r.0@ == base64_standard(bytes@),
        r.1@ == png_data_url_prefix() + base64_standard(bytes@),
{
    let encoded = encode_base64(bytes);
    let mut v: Vec<char> = Vec::new();
    push_str(&mut v, "data:image/png;base64,");
    push_str(&mut v, encoded.as_str());
    let url = string_from_chars(v.as_slice());
    (encoded, url)
}

} // verus!
