//! Color comparison: its settings, and how colors are written.
use vstd::prelude::*;

use crate::text::string_from_chars;

verus! {

/// Settings of the palette comparison: how many dominant colors are
/// looked for, and every how many pixels one is sampled.
#[derive(Debug, Clone, Copy, PartialEq, Eq, Structural)]
pub struct ColorPaletteMetric {
    pub clusters: usize,
    pub sample_stride: u32,
}

impl Default for ColorPaletteMetric {
    fn default() -> (r: ColorPaletteMetric)
        ensures
            r.clusters == 5,
            r.sample_stride == 4,
    {
        ColorPaletteMetric { clusters: 5, sample_stride: 4 }
    }
}

/// A hexadecimal digit, in upper or lower case.
pub open spec fn hex_digit(d: nat, upper: bool) -> char {
    if d < 10 {
        (('0' as u32) + d) as char
    } else if upper {
        (('A' as u32) + d - 10) as char
    } else {
        (('a' as u32) + d - 10) as char
    }
}

/// `#RRGGBB`: each channel as two hexadecimal digits.
pub open spec fn hex_text(rgb: [u8; 3], upper: bool) -> Seq<char> {
    seq![
        '#',
        hex_digit((rgb[0] / 16) as nat, upper),
        hex_digit((rgb[0] % 16) as nat, upper),
        hex_digit((rgb[1] / 16) as nat, upper),
        hex_digit((rgb[1] % 16) as nat, upper),
        hex_digit((rgb[2] / 16) as nat, upper),
        hex_digit((rgb[2] % 16) as nat, upper),
    ]
}

fn digit(d: u8, upper: bool) -> (c: char)
    requires
        d < 16,
    ensures
        c == hex_digit(d as nat, upper),
{
    let v: u8 = if d < 10 {
        48 + d
    } else if upper {
        55 + d
    } else {
        87 + d
    };
    v as char
}

/// Writes a color as `#RRGGBB`, with upper or lower case digits.
pub fn hex_color(rgb: [u8; 3], upper: bool) -> (r: String)
    ensures
        r@ == hex_text(rgb, upper),
{
    let mut v: Vec<char> = Vec::new();
    v.push('#');
    for k in 0..3
        invariant
            v@.len() == 1 + 2 * k,
            v@[0] == '#',
            forall|q: int|
                0 <= q < k ==> v@[1 + 2 * q] == hex_digit((rgb[q] / 16) as nat, upper) && v@[2 + 2
                    * q] == hex_digit((rgb[q] % 16) as nat, upper),
    {
        let b = rgb[k];
        v.push(digit(b / 16, upper));
        v.push(digit(b % 16, upper));
    }
    proof {
        assert(v@ =~= hex_text(rgb, upper));
    }
    string_from_chars(v.as_slice())
}

} // verus!
