//! Palette quantization: RGBA pixel buffer in, palette-index buffer out.
//!
//! Each pixel is handled independently: a fully transparent pixel maps to the
//! sentinel, an opaque pixel maps to the palette position of its (R, G, B)
//! triple, and an opaque color the palette does not hold falls back to the
//! sentinel (indistinguishable from transparency in the output).

use vstd::prelude::*;

verus! {

use crate::SENTINEL;
use crate::palette::{Color, Palette, lookup_spec, lemma_lookup_in_range};

/// Bytes per pixel in an RGBA buffer.
pub const BYTES_PER_PIXEL: usize = 4;

/// Why quantization can fail.
#[derive(Clone, Copy, PartialEq, Eq, Structural, Debug)]
pub enum QuantizeError {
    /// The pixel buffer's length is not a multiple of the four bytes a pixel
    /// takes, so it does not describe a whole number of pixels.
    LengthNotPixelAligned,
}

/// The (R, G, B) triple of pixel `i` of `pixels`.
pub open spec fn pixel_color(pixels: Seq<u8>, i: int) -> Color
    recommends
        0 <= i,
        4 * i + 3 < pixels.len(),
{
    Color { r: pixels[4 * i], g: pixels[4 * i + 1], b: pixels[4 * i + 2] }
}

/// The index emitted for pixel `i` of `pixels`: the sentinel when the pixel
/// is fully transparent or its color is not in the palette, else the palette
/// position of the color.
pub open spec fn pixel_index_spec(pixels: Seq<u8>, colors: Seq<Color>, i: int) -> u8
    recommends
        0 <= i,
        4 * i + 3 < pixels.len(),
{
    if pixels[4 * i + 3] == 0 {
        SENTINEL
    } else {
        match lookup_spec(colors, pixel_color(pixels, i)) {
            Some(j) => j as u8,
            None => SENTINEL,
        }
    }
}

/// A fully transparent pixel always maps to the sentinel, whatever its
/// (R, G, B) values.
pub proof fn lemma_transparent_pixel(pixels: Seq<u8>, colors: Seq<Color>, i: int)
    requires
        0 <= i,
        4 * i + 3 < pixels.len(),
        pixels[4 * i + 3] == 0,
    ensures
        pixel_index_spec(pixels, colors, i) == SENTINEL,
{
}

/// An opaque pixel whose triple is a palette entry maps to that entry's
/// position — the last such position, if the palette repeats the triple.
pub proof fn lemma_palette_hit(pixels: Seq<u8>, colors: Seq<Color>, i: int, j: int)
    requires
        0 <= i,
        4 * i + 3 < pixels.len(),
        pixels[4 * i + 3] != 0,
        colors.len() <= 255,
        0 <= j < colors.len(),
        colors[j] == pixel_color(pixels, i),
        forall|j2: int| j < j2 < colors.len() ==> colors[j2] != pixel_color(pixels, i),
    ensures
        pixel_index_spec(pixels, colors, i) == j as u8,
{
    crate::palette::lemma_lookup_is_last_match(colors, pixel_color(pixels, i), j);
}

/// Quantizes an RGBA buffer against a palette: one index byte per pixel,
/// each either the sentinel or the palette position of the pixel's color.
pub fn index(pixels: &Vec<u8>, palette: &Palette) -> (r: Result<Vec<u8>, QuantizeError>)
    requires
        palette.wf(),
    ensures
        r is Ok <==> pixels@.len() % 4 == 0,
        r matches Ok(out) ==> {
            &&& out@.len() == pixels@.len() / 4
            &&& forall|i: int|
                0 <= i < out@.len() ==> out@[i] == pixel_index_spec(pixels@, palette@, i)
            &&& forall|i: int|
                0 <= i < out@.len() ==> out@[i] == SENTINEL || out@[i] < palette@.len()
        },
        r matches Err(e) ==> e == QuantizeError::LengthNotPixelAligned,
{
    if pixels.len() % BYTES_PER_PIXEL != 0 {
        return Err(QuantizeError::LengthNotPixelAligned);
    }
    let n = pixels.len() / BYTES_PER_PIXEL;
    let mut out: Vec<u8> = Vec::new();
    let mut i: usize = 0;
    while i < n
        invariant
            palette.wf(),
            pixels@.len() % 4 == 0,
            pixels@.len() <= usize::MAX,
            n == pixels@.len() / 4,
            i <= n,
            out@.len() == i,
            forall|j: int| 0 <= j < i ==> out@[j] == pixel_index_spec(pixels@, palette@, j),
            forall|j: int| 0 <= j < i ==> out@[j] == SENTINEL || out@[j] < palette@.len(),
        decreases n - i,
    {
        proof {
            vstd::arithmetic::div_mod::lemma_fundamental_div_mod(pixels@.len() as int, 4);
            assert(pixels@.len() == 4 * n);
        }
        let alpha = pixels[4 * i + 3];
        let value: u8 = if alpha == 0 {
            SENTINEL
        } else {
            let c = Color { r: pixels[4 * i], g: pixels[4 * i + 1], b: pixels[4 * i + 2] };
            match palette.lookup(c) {
                Some(j) => {
                    proof {
                        lemma_lookup_in_range(palette@, c);
                    }
                    j
                },
                None => SENTINEL,
            }
        };
        out.push(value);
        i = i + 1;
    }
    Ok(out)
}

} // verus!
