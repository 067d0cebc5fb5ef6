//! The ASCII-art fallback: raw image bytes become a string of characters,
//! one per pixel of a scaled-down grayscale version, darkest pixels mapped
//! to the densest glyphs.

use vstd::prelude::*;
use vstd::arithmetic::div_mod::lemma_div_is_ordered;
use crate::error::YomuError;
use crate::text::push_char;

verus! {

/// A grayscale bitmap: one byte per pixel, row-major.
pub struct LumaBitmap {
    /// Width in pixels.
    pub width: u32,
    /// Height in pixels.
    pub height: u32,
    /// One brightness byte per pixel, row-major: 0 is black, 255 is white.
    pub pixels: Vec<u8>,
}

impl LumaBitmap {
    /// The buffer holds exactly one byte per pixel.
    pub open spec fn wf(&self) -> bool {
        self.pixels@.len() == self.width * self.height
    }
}

/// The 70-step grayscale ramp, darkest first, so that brightness 0 maps to
/// `'$'` and brightness 255 to `' '`.
pub open spec fn spec_charset() -> Seq<char> {
    seq![
        '$', '@', 'B', '%', '8', '&', 'W', 'M', '#', '*',
        'o', 'a', 'h', 'k', 'b', 'd', 'p', 'q', 'w', 'm',
        'Z', 'O', '0', 'Q', 'L', 'C', 'J', 'U', 'Y', 'X',
        'z', 'c', 'v', 'u', 'n', 'x', 'r', 'j', 'f', 't',
        '/', '\\', '|', '(', ')', '1', '{', '}', '[', ']',
        '?', '-', '_', '+', '~', '<', '>', 'i', '!', 'l',
        'I', ';', ':', ',', '"', '^', '`', '\'', '.', ' ',
    ]
}

/// Which step of the ramp a brightness byte selects: 0 (black) gives the
/// first step, 255 (white) the last.
pub open spec fn spec_brightness_index(b: u8) -> int {
    (b * 69) / 255
}

/// The rendered text of a prefix of the pixel buffer: one ramp character
/// per pixel, and a line break after every `width` pixels except at the
/// very end.
pub open spec fn spec_ascii_prefix(pixels: Seq<u8>, width: nat, n: int) -> Seq<char>
    decreases n,
{
    if n <= 0 {
        Seq::empty()
    } else {
        let prev = spec_ascii_prefix(pixels, width, n - 1);
        let with_char = prev.push(spec_charset()[spec_brightness_index(pixels[n - 1])]);
        if n % (width as int) == 0 && n < pixels.len() {
            with_char.push('\n')
        } else {
            with_char
        }
    }
}

/// The rendered text of a whole pixel buffer.
pub open spec fn spec_ascii_art(pixels: Seq<u8>, width: nat) -> Seq<char> {
    spec_ascii_prefix(pixels, width, pixels.len() as int)
}

/// The ramp as an executable vector.
fn charset() -> (v: Vec<char>)
    ensures
        v@ =~= spec_charset(),
{
    let mut v: Vec<char> = Vec::new();
    v.push('$'); v.push('@'); v.push('B'); v.push('%'); v.push('8');
    v.push('&'); v.push('W'); v.push('M'); v.push('#'); v.push('*');
    v.push('o'); v.push('a'); v.push('h'); v.push('k'); v.push('b');
    v.push('d'); v.push('p'); v.push('q'); v.push('w'); v.push('m');
    v.push('Z'); v.push('O'); v.push('0'); v.push('Q'); v.push('L');
    v.push('C'); v.push('J'); v.push('U'); v.push('Y'); v.push('X');
    v.push('z'); v.push('c'); v.push('v'); v.push('u'); v.push('n');
    v.push('x'); v.push('r'); v.push('j'); v.push('f'); v.push('t');
    v.push('/'); v.push('\\'); v.push('|'); v.push('('); v.push(')');
    v.push('1'); v.push('{'); v.push('}'); v.push('['); v.push(']');
    v.push('?'); v.push('-'); v.push('_'); v.push('+'); v.push('~');
    v.push('<'); v.push('>'); v.push('i'); v.push('!'); v.push('l');
    v.push('I'); v.push(';'); v.push(':'); v.push(','); v.push('"');
    v.push('^'); v.push('`'); v.push('\''); v.push('.'); v.push(' ');
    v
}

/// Renders a grayscale pixel buffer as text, one ramp character per pixel
/// and a line break after every `width` pixels except at the very end.
pub fn render_ascii(pixels: &Vec<u8>, width: u32) -> (r: String)
    requires
        width >= 1,
    ensures
        r@ == spec_ascii_art(pixels@, width as nat),
{
    let chars = charset();
    let mut out = String::new();
    let mut i: usize = 0;
    while i < pixels.len()
        invariant
            width >= 1,
            chars@ =~= spec_charset(),
            0 <= i <= pixels@.len(),
            out@ == spec_ascii_prefix(pixels@, width as nat, i as int),
        decreases pixels@.len() - i,
    {
        let b = pixels[i];
        let index = (b as usize * 69) / 255;
        proof {
            assert(index == spec_brightness_index(b));
            assert(b as int * 69 <= 17595);
            lemma_div_is_ordered(b as int * 69, 17595, 255);
            assert(index <= 69);
        }
        push_char(&mut out, chars[index]);
        if (i + 1) % (width as usize) == 0 && i + 1 < pixels.len() {
            push_char(&mut out, '\n');
        }
        proof {
            assert(out@ == spec_ascii_prefix(pixels@, width as nat, i + 1));
        }
        i = i + 1;
    }
    out
}

/// Relies on image::load_from_memory, DynamicImage::resize with the
/// Triangle filter, and to_luma8: decodes raw bytes, scales the image to
/// the maximum size that fits within the given bounds with its aspect
/// ratio preserved (each dimension at least one pixel), converts it to
/// grayscale, and hands back the packed one-byte-per-pixel buffer.
#[verifier::external_body]
fn decode_to_luma(bytes: &[u8], width: u32, height: u32) -> (r: Result<LumaBitmap, YomuError>)
    requires
        width >= 1,
        height >= 1,
    ensures
        r matches Ok(l) ==> l.wf() && 1 <= l.width <= width && 1 <= l.height <= height,
        r matches Err(e) ==> e == YomuError::Decode,
{
    match image::load_from_memory(bytes) {
        Ok(img) => {
            let small = img.resize(width, height, image::imageops::FilterType::Triangle).to_luma8();
            let w = small.width();
            let h = small.height();
            Ok(LumaBitmap { width: w, height: h, pixels: small.into_raw() })
        },
        Err(_) => Err(YomuError::Decode),
    }
}

/// Converts raw image bytes into an ASCII art string.
///
/// The image is decoded and scaled to fit within `width` by `height / 2`
/// pixels — half the height, since a terminal cell is roughly twice as
/// tall as it is wide — converted to grayscale, and rendered with
/// [`render_ascii`], which breaks lines after every `width` characters.
pub fn convert_to_ascii(bytes: &[u8], width: u32, height: u32) -> (r: Result<String, YomuError>)
    requires
        width >= 1,
        height >= 2,
    ensures
        r matches Err(e) ==> e == YomuError::Decode,
        r matches Ok(s) ==> exists|l: LumaBitmap|
            #![trigger spec_ascii_art(l.pixels@, width as nat)]
            l.wf() && 1 <= l.width <= width && 1 <= l.height <= height / 2 && s@
                == spec_ascii_art(l.pixels@, width as nat),
{
    match decode_to_luma(bytes, width, height / 2) {
        Ok(l) => {
            let s = render_ascii(&l.pixels, width);
            proof {
                assert(l.wf() && 1 <= l.width <= width && 1 <= l.height <= height / 2 && s@
                    == spec_ascii_art(l.pixels@, width as nat));
            }
            Ok(s)
        },
        Err(e) => Err(e),
    }
}

} // verus!
