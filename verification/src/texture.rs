//! Textures: a closed set of variants mapping a surface parametrization
//! `(u, v)` and a 3D point to a color. The checker pattern takes the sign
//! of a product of sines from lattice parity with respect to the scaled
//! circle constant; the image texture does a nearest-pixel lookup over a
//! decoded byte buffer.
use vstd::prelude::*;

use crate::fx::{Fx, ediv, fclamp, is_odd, sabs};
use crate::utils::{PI_RAW, clamp};
use crate::vec3::{Color, Point3, V3, Vec3, vbounded};

verus! {

/// A texture: constant color, 3D checker of two sub-textures, or image.
pub enum Texture {
    Solid(SolidColor),
    Checker(CheckerTexture),
    Image(ImageTexture),
}

#[derive(Clone, Copy, Debug, PartialEq, Eq, Structural)]
pub struct SolidColor {
    pub color_value: Color,
}

pub struct CheckerTexture {
    pub odd: Box<Texture>,
    pub even: Box<Texture>,
}

pub struct ImageTexture {
    pub bytes_per_pixel: usize,
    pub data: Vec<u8>,
    pub width: usize,
    pub height: usize,
    pub bytes_per_scanline: usize,
}

/// Whether the checker pattern is in its odd cell at `p`: the sign of
/// `sin(10x) * sin(10y) * sin(10z)`, read off the parity of the number of
/// half-periods each scaled coordinate has crossed.
pub open spec fn checker_odd(p: V3) -> bool {
    ((10 * p.x) / (PI_RAW as int) + (10 * p.y) / (PI_RAW as int) + (10 * p.z) / (PI_RAW as int))
        % 2 == 1
}

impl ImageTexture {
    /// Well-formed pixel storage: three bytes per pixel, row-major, with
    /// consistent dimensions — or no data at all.
    pub open spec fn wf(self) -> bool {
        self.bytes_per_pixel == 3 && (self.data@.len() == 0 || (1 <= self.width
            <= 0xffff_ffff && 1 <= self.height <= 0xffff_ffff && self.bytes_per_scanline == 3
            * self.width && self.data@.len() == 3 * self.width * self.height))
    }
}

/// Nearest-pixel image lookup: clamp `(u, v)` to the unit square, flip `v`,
/// scale to pixel indices and normalize the bytes to `[0, 1]`; black when
/// no image data is loaded.
pub open spec fn image_value(it: ImageTexture, u: int, v: int) -> V3 {
    if it.data@.len() == 0 {
        V3 { x: 0, y: 0, z: 0 }
    } else {
        let uu = fclamp(u, 0, 65536);
        let vv = 65536 - fclamp(v, 0, 65536);
        let i0 = (uu * it.width) / 65536;
        let j0 = (vv * it.height) / 65536;
        let i = if i0 >= it.width {
            it.width - 1
        } else {
            i0
        };
        let j = if j0 >= it.height {
            it.height - 1
        } else {
            j0
        };
        let off = j * it.bytes_per_scanline + i * it.bytes_per_pixel;
        V3 {
            x: (it.data@[off] * 65536) / 255,
            y: (it.data@[off + 1] * 65536) / 255,
            z: (it.data@[off + 2] * 65536) / 255,
        }
    }
}

/// Well-formedness of a texture: sub-textures well-formed and constant
/// colors within the radiance magnitude bound.
pub open spec fn twf(t: Texture) -> bool
    decreases t,
{
    match t {
        Texture::Solid(s) => vbounded(s.color_value@, 0x4000_0000),
        Texture::Checker(c) => twf(*c.odd) && twf(*c.even),
        Texture::Image(it) => it.wf(),
    }
}

/// The color of a texture at `(u, v)` and point `p`.
pub open spec fn tex_value(t: Texture, u: int, v: int, p: V3) -> V3
    decreases t,
{
    match t {
        Texture::Solid(s) => s.color_value@,
        Texture::Checker(c) => if checker_odd(p) {
            tex_value(*c.odd, u, v, p)
        } else {
            tex_value(*c.even, u, v, p)
        },
        Texture::Image(it) => image_value(it, u, v),
    }
}

impl SolidColor {
    pub fn new() -> (r: SolidColor)
        ensures
            r.color_value@ == (V3 { x: 0, y: 0, z: 0 }),
    {
        SolidColor { color_value: Color::new() }
    }

    pub fn from(c: Color) -> (r: SolidColor)
        ensures
            r.color_value == c,
    {
        SolidColor { color_value: c }
    }

    pub fn fromrgb(r: Fx, g: Fx, b: Fx) -> (res: SolidColor)
        ensures
            res.color_value@ == (V3 { x: r.0 as int, y: g.0 as int, z: b.0 as int }),
    {
        SolidColor { color_value: Color::from(r, g, b) }
    }

    pub fn value(&self, u: Fx, v: Fx, p: &Point3) -> (r: Color)
        ensures
            r == self.color_value,
    {
        self.color_value
    }
}

impl CheckerTexture {
    pub fn from_texture(even: Texture, odd: Texture) -> (r: CheckerTexture)
        ensures
            *r.even == even,
            *r.odd == odd,
    {
        CheckerTexture { odd: Box::new(odd), even: Box::new(even) }
    }

    pub fn from_colors(c1: Color, c2: Color) -> (r: CheckerTexture)
        ensures
            *r.even == Texture::Solid(SolidColor { color_value: c1 }),
            *r.odd == Texture::Solid(SolidColor { color_value: c2 }),
    {
        CheckerTexture {
            even: Box::new(Texture::Solid(SolidColor::from(c1))),
            odd: Box::new(Texture::Solid(SolidColor::from(c2))),
        }
    }
}

impl ImageTexture {
    /// An image texture with no data; it samples as black.
    pub fn new() -> (r: ImageTexture)
        ensures
            r.wf(),
            r.data@.len() == 0,
    {
        ImageTexture { data: Vec::new(), bytes_per_pixel: 3, width: 0, height: 0, bytes_per_scanline: 0 }
    }

    /// Wraps an already decoded RGB byte buffer: consistent dimensions are
    /// stored with the data as-is; inconsistent ones degrade to the empty
    /// texture, so a failed load never aborts a render.
    pub fn from_decoded(width: usize, height: usize, data: Vec<u8>) -> (r: ImageTexture)
        ensures
            r.wf(),
            (1 <= width <= 0xffff_ffff && 1 <= height <= 0xffff_ffff && data@.len() == 3 * width
                * height) ==> (r.width == width && r.height == height && r.bytes_per_pixel == 3
                && r.bytes_per_scanline == 3 * width && r.data@ == data@),
            !(1 <= width <= 0xffff_ffff && 1 <= height <= 0xffff_ffff && data@.len() == 3 * width
                * height) ==> r.data@.len() == 0,
    {
        let n = data.len();
        proof {
            if height >= 1 {
                assert(3 * width <= 3 * width * height) by (nonlinear_arith)
                    requires
                        height >= 1,
                        width >= 0;
            }
        }
        let row = match 3usize.checked_mul(width) {
            Some(t) => t,
            None => {
                return ImageTexture::new();
            },
        };
        let total = match row.checked_mul(height) {
            Some(t) => t,
            None => {
                proof {
                    assert(row * height == 3 * width * height) by (nonlinear_arith)
                        requires
                            row == 3 * width;
                }
                return ImageTexture::new();
            },
        };
        proof {
            assert(total == 3 * width * height) by (nonlinear_arith)
                requires
                    row == 3 * width,
                    total == row * height;
        }
        if width >= 1 && height >= 1 && width <= 0xffff_ffff && height <= 0xffff_ffff && n
            == total {
            ImageTexture { bytes_per_pixel: 3, bytes_per_scanline: row, data, width, height }
        } else {
            ImageTexture::new()
        }
    }

    pub fn value(&self, u: Fx, v: Fx, p: &Point3) -> (r: Color)
        requires
            self.wf(),
        ensures
            r@ == image_value(*self, u.0 as int, v.0 as int),
            vbounded(r@, 0x4000_0000),
    {
        if self.data.len() == 0 {
            return Color::new();
        }
        let uu = clamp(u, Fx(0), Fx(65536));
        let vv = Fx(65536).sub(clamp(v, Fx(0), Fx(65536)));
        proof {
            assert((uu.0 as int) * (self.width as int) <= 65536 * 0xffff_ffff) by (nonlinear_arith)
                requires
                    0 <= uu.0 <= 65536,
                    self.width <= 0xffff_ffff;
            assert((vv.0 as int) * (self.height as int) <= 65536 * 0xffff_ffff)
                by (nonlinear_arith)
                requires
                    0 <= vv.0 <= 65536,
                    self.height <= 0xffff_ffff;
        }
        let i0: u64 = ((uu.0 as u64) * (self.width as u64)) / 65536;
        let j0: u64 = ((vv.0 as u64) * (self.height as u64)) / 65536;
        let i: usize = if i0 >= self.width as u64 {
            self.width - 1
        } else {
            i0 as usize
        };
        let j: usize = if j0 >= self.height as u64 {
            self.height - 1
        } else {
            j0 as usize
        };
        proof {
            assert(j * (3 * self.width) + i * 3 + 3 <= 3 * self.width * self.height)
                by (nonlinear_arith)
                requires
                    i < self.width,
                    j < self.height,
                    self.width >= 1,
                    self.height >= 1;
        }
        let offset: usize = j * self.bytes_per_scanline + i * self.bytes_per_pixel;
        let b0 = self.data[offset];
        let b1 = self.data[offset + 1];
        let b2 = self.data[offset + 2];
        let cx = Fx((((b0 as u64) * 65536) / 255) as i64);
        let cy = Fx((((b1 as u64) * 65536) / 255) as i64);
        let cz = Fx((((b2 as u64) * 65536) / 255) as i64);
        proof {
            vstd::arithmetic::div_mod::lemma_div_is_ordered(
                b0 as int * 65536,
                (255 * 65536) as int,
                255,
            );
            vstd::arithmetic::div_mod::lemma_div_is_ordered(
                b1 as int * 65536,
                (255 * 65536) as int,
                255,
            );
            vstd::arithmetic::div_mod::lemma_div_is_ordered(
                b2 as int * 65536,
                (255 * 65536) as int,
                255,
            );
        }
        Color::from(cx, cy, cz)
    }
}

impl Texture {
    /// The color of this texture at `(u, v)` and point `p`.
    pub fn value(&self, u: Fx, v: Fx, p: &Point3) -> (r: Color)
        requires
            twf(*self),
            vbounded(p@, 0x4000_0000),
        ensures
            r@ == tex_value(*self, u.0 as int, v.0 as int, p@),
            vbounded(r@, 0x4000_0000),
        decreases *self,
    {
        match self {
            Texture::Solid(s) => s.value(u, v, p),
            Texture::Checker(c) => {
                let q1 = ediv(p.x().0 * 10, PI_RAW);
                let q2 = ediv(p.y().0 * 10, PI_RAW);
                let q3 = ediv(p.z().0 * 10, PI_RAW);
                if is_odd(q1 + q2 + q3) {
                    c.odd.value(u, v, p)
                } else {
                    c.even.value(u, v, p)
                }
            },
            Texture::Image(it) => it.value(u, v, p),
        }
    }
}

} // verus!
