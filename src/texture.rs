//! The parts of texture sampling that work on whole numbers: nearest-pixel
//! lookup in decoded image data, and the cell parity of a checker pattern.

use vstd::prelude::*;

verus! {

/// Decoded image data: `width * height` pixels, three bytes each, row-major
/// with the top row first.
pub struct ImageTexture {
    pub image: Vec<u8>,
    pub width: u32,
    pub height: u32,
}

/// Debug texture that shows the surface coordinates themselves as a color.
pub struct UVTexture;

/// Flat byte position of the pixel in column `s` of row `t`.
pub open spec fn texel_offset(width: int, s: int, t: int) -> int {
    (t * width + s) * 3
}

proof fn lemma_u32_product(a: u32, b: u32)
    ensures
        0 <= a * b <= 0xffff_ffff * 0xffff_ffff,
{
    assert(0 <= a * b <= 0xffff_ffff * 0xffff_ffff) by (nonlinear_arith)
        requires
            0 <= a <= 0xffff_ffff,
            0 <= b <= 0xffff_ffff,
    ;
}

impl ImageTexture {
    /// The image holds exactly three bytes for each of its pixels.
    pub open spec fn wf(&self) -> bool {
        self.image@.len() == self.width * self.height * 3
    }

    /// Wraps decoded RGB8 data; `None` when its length is not three bytes
    /// per pixel of a `width` by `height` image.
    pub fn from_rgb(image: Vec<u8>, width: u32, height: u32) -> (r: Option<Self>)
        ensures
            r is Some <==> image@.len() == width * height * 3,
            r matches Some(tex) ==> tex.wf() && tex.image@ == image@ && tex.width == width
                && tex.height == height,
    {
        proof {
            lemma_u32_product(width, height);
        }
        let n: u128 = width as u128 * height as u128 * 3;
        if image.len() as u128 == n {
            Some(ImageTexture { image, width, height })
        } else {
            None
        }
    }

    /// Nearest-pixel lookup: the red, green and blue bytes stored at flat
    /// pixel position `t * width + s`; `None` when that lies past the data.
    pub fn texel(&self, s: u32, t: u32) -> (r: Option<(u8, u8, u8)>)
        ensures
            r is Some <==> texel_offset(self.width as int, s as int, t as int) + 3
                <= self.image@.len(),
            r matches Some(c) ==> {
                let o = texel_offset(self.width as int, s as int, t as int);
                c == (self.image@[o], self.image@[o + 1], self.image@[o + 2])
            },
    {
        proof {
            lemma_u32_product(t, self.width);
        }
        let row: u128 = t as u128 * self.width as u128;
        let pos: u128 = (row + s as u128) * 3;
        if pos + 3 <= self.image.len() as u128 {
            let o = pos as usize;
            Some((self.image[o], self.image[o + 1], self.image[o + 2]))
        } else {
            None
        }
    }
}

/// Whether the checker cell at integer cell coordinates `(s, t)` takes the
/// even color: exactly when `s + t` is even.
pub fn checker_is_even(s: i64, t: i64) -> (r: bool)
    ensures
        r == ((s as int + t as int) % 2 == 0),
{
    let sum: i128 = s as i128 + t as i128;
    sum % 2 == 0
}

} // verus!
