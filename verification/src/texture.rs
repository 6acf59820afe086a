//! Textures as they were opened: images of any of the pixel formats that the `image` crate knows.
use vstd::prelude::*;

use crate::color::Rgba;
use crate::outside;
use crate::picture;
use crate::picture::Picture;

verus! {

/// The ways in which an image stores a pixel.
#[derive(Clone, Copy, Debug, PartialEq, Eq, Structural)]
pub enum PixelKind {
    Luma8,
    LumaA8,
    Rgb8,
    Rgba8,
    Luma16,
    LumaA16,
    Rgb16,
    Rgba16,
    RgbFloat,
    RgbaFloat,
}

impl PixelKind {
    /// Whether the pixels are shades of grey.
    pub open spec fn is_grey(self) -> bool {
        match self {
            PixelKind::Luma8
            | PixelKind::LumaA8
            | PixelKind::Luma16
            | PixelKind::LumaA16 => true,
            _ => false,
        }
    }

    /// Whether the pixels have an alpha, which is then their last sample.
    pub open spec fn has_alpha(self) -> bool {
        match self {
            PixelKind::LumaA8
            | PixelKind::Rgba8
            | PixelKind::LumaA16
            | PixelKind::Rgba16
            | PixelKind::RgbaFloat => true,
            _ => false,
        }
    }

    /// Whether the samples are floats.
    pub open spec fn is_float(self) -> bool {
        self == PixelKind::RgbFloat || self == PixelKind::RgbaFloat
    }

    /// How many samples a pixel has.
    pub open spec fn channels(self) -> nat {
        (if self.is_grey() {
            1nat
        } else {
            3nat
        }) + (if self.has_alpha() {
            1nat
        } else {
            0nat
        })
    }

    /// A sample as a byte. A byte is kept, and a word is scaled and rounded. A float of zero is zero
    /// and one of one is the largest byte; of others nothing is said but that the bit pattern
    /// settles it.
    pub open spec fn byte(self, sample: u32) -> u8 {
        match self {
            PixelKind::Luma8
            | PixelKind::LumaA8
            | PixelKind::Rgb8
            | PixelKind::Rgba8 => sample as u8,
            PixelKind::Luma16
            | PixelKind::LumaA16
            | PixelKind::Rgb16
            | PixelKind::Rgba16 => ((sample + 128) / 257) as u8,
            PixelKind::RgbFloat | PixelKind::RgbaFloat => if sample == 0 {
                0
            } else if sample == 0x3F80_0000 {
                255
            } else {
                outside::float_byte(sample)
            },
        }
    }

    /// A pixel with these samples as an eight bit colour. Grey stands for red, green and blue, and
    /// a pixel without alpha is opaque.
    pub open spec fn rgba(self, samples: Seq<u32>) -> Rgba {
        let alpha = if self.has_alpha() {
            self.byte(samples.last())
        } else {
            255
        };
        if self.is_grey() {
            let grey = self.byte(samples[0]);
            Rgba { r: grey, g: grey, b: grey, a: alpha }
        } else {
            Rgba {
                r: self.byte(samples[0]),
                g: self.byte(samples[1]),
                b: self.byte(samples[2]),
                a: alpha,
            }
        }
    }
}

/// What an image holds: its size, its kind of pixels, and the samples of each pixel, row by row. A
/// sample is a byte, a word, or the bit pattern of a float.
pub struct Contents {
    pub width: u32,
    pub height: u32,
    pub kind: PixelKind,
    pub pixels: Seq<Seq<u32>>,
}

impl Contents {
    /// There is one pixel for each cell.
    pub open spec fn wf(self) -> bool {
        self.pixels.len() == self.width * self.height
    }

    /// Whether column `x` of row `y` lies in the image.
    pub open spec fn covers(self, x: int, y: int) -> bool {
        0 <= x < self.width && 0 <= y < self.height
    }

    /// The samples in column `x` of row `y`.
    pub open spec fn at(self, x: int, y: int) -> Seq<u32> {
        picture::cell(self.pixels, self.width as int, x, y)
    }

    /// The eight bit colour in column `x` of row `y`.
    pub open spec fn rgba(self, x: int, y: int) -> Rgba {
        self.kind.rgba(self.at(x, y))
    }

    /// Whether every sample is zero.
    pub open spec fn is_zero(self) -> bool {
        forall|i: int|
            0 <= i < self.pixels.len() ==> #[trigger] self.pixels[i] == Seq::new(
                self.kind.channels(),
                |k: int| 0u32,
            )
    }

    /// Whether there is an alpha, and it is zero throughout.
    pub open spec fn is_transparent(self) -> bool {
        &&& self.kind.has_alpha()
        &&& forall|i: int| 0 <= i < self.pixels.len() ==> (#[trigger] self.pixels[i]).last() == 0
    }
}

/// The samples of an eight bit colour.
pub open spec fn rgba_samples(c: Rgba) -> Seq<u32> {
    seq![c.r as u32, c.g as u32, c.b as u32, c.a as u32]
}

/// An image that holds the colours of a picture.
pub open spec fn rgba_contents(p: (u32, u32, Seq<Rgba>)) -> Contents {
    Contents {
        width: p.0,
        height: p.1,
        kind: PixelKind::Rgba8,
        pixels: p.2.map_values(|c: Rgba| rgba_samples(c)),
    }
}

/// A texture, in the pixel format that it came in.
pub struct Texture {
    pub image: image::DynamicImage,
}

impl View for Texture {
    type V = Contents;

    /// What the image holds.
    open spec fn view(&self) -> Contents {
        outside::image_contents(self.image)
    }
}

impl Texture {
    /// A texture that holds the colours of a picture.
    pub fn from_picture(p: &Picture) -> (out: Texture)
        requires
            p.wf(),
            picture::fits_memory(p.width as int, p.height as int),
        ensures
            out@ == rgba_contents(p@),
    {
        Texture { image: outside::image_of(p) }
    }

    /// The texture in eight bit colours.
    pub fn to_picture(&self) -> (out: Picture)
        ensures
            out.wf(),
            self@.wf(),
            out.width == self@.width,
            out.height == self@.height,
            forall|x: int, y: int|
                out.covers(x, y) ==> #[trigger] out.at(x, y) == self@.rgba(x, y),
    {
        let width: u32 = self.image.width();
        if width == 0 {
            Picture { width, height: self.image.height(), pixels: Vec::new() }
        } else {
            outside::read_pixels(&self.image)
        }
    }
}

/// A picture keeps its colours when it is made a texture.
pub proof fn picture_reads_back(p: (u32, u32, Seq<Rgba>), x: int, y: int)
    requires
        p.2.len() == p.0 * p.1,
        0 <= x < p.0,
        0 <= y < p.1,
    ensures
        rgba_contents(p).wf(),
        rgba_contents(p).rgba(x, y) == picture::cell(p.2, p.0 as int, x, y),
{
    picture::lemma_cell_in_grid(p.0 as int, p.1 as int, x, y);
}

/// An image whose alpha is zero throughout is clear throughout.
pub proof fn transparent_images_are_clear(c: Contents, x: int, y: int)
    requires
        c.wf(),
        c.is_transparent(),
        c.covers(x, y),
    ensures
        c.rgba(x, y).a == 0,
{
    picture::lemma_cell_in_grid(c.width as int, c.height as int, x, y);
    assert(c.pixels[picture::cell_index(c.width as int, x, y)].last() == 0);
}

/// An image whose pixels have no alpha is opaque.
pub proof fn images_without_alpha_are_opaque(c: Contents, x: int, y: int)
    requires
        !c.kind.has_alpha(),
    ensures
        c.rgba(x, y).a == 255,
{
}

/// An image has the pixels from its first to its last column and row and no others, and their
/// samples stand in its list row after row; the eight bit colour of a pixel is that of its samples.
pub proof fn image_is_its_rows(c: Contents, x: int, y: int)
    ensures
        c.covers(x, y) <==> 0 <= x && x < c.width && 0 <= y && y < c.height,
        c.at(x, y) == c.pixels[x + c.width * y],
        c.rgba(x, y) == c.kind.rgba(c.pixels[x + c.width * y]),
        c.wf() <==> c.pixels.len() == c.height * c.width,
{
    assert(c.width * y == y * c.width) by (nonlinear_arith);
    assert(c.width * c.height == c.height * c.width) by (nonlinear_arith);
}

/// Pixels of bytes are read as they are: red, green, blue and alpha in this order, or grey and alpha.
/// A missing alpha is full.
pub proof fn bytes_are_read_as_they_are(a: u8, b: u8, c: u8, d: u8)
    ensures
        PixelKind::Rgba8.rgba(seq![a as u32, b as u32, c as u32, d as u32]) == (Rgba {
            r: a,
            g: b,
            b: c,
            a: d,
        }),
        PixelKind::Rgb8.rgba(seq![a as u32, b as u32, c as u32]) == (Rgba {
            r: a,
            g: b,
            b: c,
            a: 255,
        }),
        PixelKind::LumaA8.rgba(seq![a as u32, b as u32]) == (Rgba { r: a, g: a, b: a, a: b }),
        PixelKind::Luma8.rgba(seq![a as u32]) == (Rgba { r: a, g: a, b: a, a: 255 }),
{
}

/// A word is read as the byte whose two hundred and fifty-seven fold lies nearest to it.
pub proof fn words_are_read_as_the_nearest_byte(a: u16, b: u16, c: u16, d: u16)
    ensures
        ({
            let p = PixelKind::Rgba16.rgba(seq![a as u32, b as u32, c as u32, d as u32]);
            let q = PixelKind::Rgb16.rgba(seq![a as u32, b as u32, c as u32]);
            let s = PixelKind::LumaA16.rgba(seq![a as u32, b as u32]);
            let t = PixelKind::Luma16.rgba(seq![a as u32]);
            &&& -128 <= 257 * p.r - a <= 128
            &&& -128 <= 257 * p.g - b <= 128
            &&& -128 <= 257 * p.b - c <= 128
            &&& -128 <= 257 * p.a - d <= 128
            &&& q == (Rgba { r: p.r, g: p.g, b: p.b, a: 255 })
            &&& s == (Rgba { r: p.r, g: p.r, b: p.r, a: p.g })
            &&& t == (Rgba { r: p.r, g: p.r, b: p.r, a: 255 })
        }),
{
}

/// The samples of a colour are its red, green, blue and alpha, in this order.
pub proof fn colors_have_four_samples(c: Rgba)
    ensures
        rgba_samples(c).len() == 4,
        rgba_samples(c)[0] == c.r,
        rgba_samples(c)[1] == c.g,
        rgba_samples(c)[2] == c.b,
        rgba_samples(c)[3] == c.a,
{
}

/// A picture made a texture has the four channels of each colour as its samples, in order.
pub proof fn picture_gives_its_channels(p: (u32, u32, Seq<Rgba>), i: int)
    requires
        0 <= i < p.2.len(),
    ensures
        rgba_contents(p).width == p.0,
        rgba_contents(p).height == p.1,
        rgba_contents(p).kind == PixelKind::Rgba8,
        rgba_contents(p).pixels.len() == p.2.len(),
        rgba_contents(p).pixels[i].len() == 4,
        rgba_contents(p).pixels[i][0] == p.2[i].r,
        rgba_contents(p).pixels[i][1] == p.2[i].g,
        rgba_contents(p).pixels[i][2] == p.2[i].b,
        rgba_contents(p).pixels[i][3] == p.2[i].a,
{
}

/// The ten kinds of pixels by their samples: one for grey, three for colours, and one more for alpha.
pub proof fn kinds_are_told_by_their_samples(kind: PixelKind)
    ensures
        PixelKind::Luma8.channels() == 1,
        PixelKind::LumaA8.channels() == 2,
        PixelKind::Rgb8.channels() == 3,
        PixelKind::Rgba8.channels() == 4,
        PixelKind::Luma16.channels() == 1,
        PixelKind::LumaA16.channels() == 2,
        PixelKind::Rgb16.channels() == 3,
        PixelKind::Rgba16.channels() == 4,
        PixelKind::RgbFloat.channels() == 3,
        PixelKind::RgbaFloat.channels() == 4,
        kind.has_alpha() <==> kind.channels() % 2 == 0,
        kind.is_grey() <==> kind.channels() <= 2,
        kind.is_float() <==> kind == PixelKind::RgbFloat || kind == PixelKind::RgbaFloat,
{
}

/// Floats of zero and one are read as the least and the largest byte, in every channel, and a missing
/// alpha is full.
pub proof fn floats_keep_their_extremes(a: bool, b: bool, c: bool, d: bool)
    ensures
        ({
            let bits = |full: bool|
                if full {
                    0x3F80_0000u32
                } else {
                    0u32
                };
            let byte = |full: bool|
                if full {
                    255u8
                } else {
                    0u8
                };
            &&& PixelKind::RgbaFloat.rgba(seq![bits(a), bits(b), bits(c), bits(d)]) == (Rgba {
                r: byte(a),
                g: byte(b),
                b: byte(c),
                a: byte(d),
            })
            &&& PixelKind::RgbFloat.rgba(seq![bits(a), bits(b), bits(c)]) == (Rgba {
                r: byte(a),
                g: byte(b),
                b: byte(c),
                a: 255,
            })
        }),
{
}

/// An image is transparent exactly if its pixels have an alpha and the last sample of each is zero,
/// and it is zero exactly if every sample of its pixels is.
pub proof fn transparency_is_a_last_sample_of_zero(c: Contents)
    ensures
        c.is_transparent() <==> c.kind.channels() % 2 == 0 && forall|i: int|
            0 <= i < c.pixels.len() ==> (#[trigger] c.pixels[i]).last() == 0,
        c.is_zero() ==> forall|i: int, k: int|
            0 <= i < c.pixels.len() && 0 <= k < c.kind.channels() ==> #[trigger] c.pixels[i][k] == 0,
{
}

} // verus!
