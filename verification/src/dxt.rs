//! Decoding of the block compressed texture formats DXT1, DXT3 and DXT5.
//!
//! All three cut a picture into blocks of four by four texels, stored row by row. Blocks on the
//! right and lower edges may reach past the picture. A block that the data does not hold in full
//! leaves its texels transparent black.
use vstd::prelude::*;

use crate::bytes;
use crate::bytes::{read_le16, read_le24};
use crate::color;
use crate::color::{decode_rgb565, lerp_color, repeat_nibble, Rgba};
use crate::picture;
use crate::picture::{blank, Picture};

verus! {

/// How many blocks of four texels cover `n` texels.
pub open spec fn blocks(n: int) -> int {
    (n + 3) / 4
}

/// The number, in storage order, of the block that holds column `x` of row `y`.
pub open spec fn block_of(width: int, x: int, y: int) -> int {
    picture::cell_index(blocks(width), x / 4, y / 4)
}

/// Entry `k` of the palette that two packed colours at `at` span. With `punch_through`, two
/// colours that do not descend span one mean and a transparent entry in place of two thirds.
pub open spec fn palette_entry(data: Seq<u8>, at: int, punch_through: bool, k: int) -> Rgba {
    let packed0 = bytes::le16(data, at);
    let packed1 = bytes::le16(data, at + 2);
    let c0 = color::rgb565(packed0 as u16);
    let c1 = color::rgb565(packed1 as u16);
    if k == 0 {
        c0
    } else if k == 1 {
        c1
    } else if punch_through && packed0 <= packed1 {
        if k == 2 {
            color::mixed(c0, c1, 1, 1)
        } else {
            color::clear()
        }
    } else if k == 2 {
        color::mixed(c0, c1, 2, 1)
    } else {
        color::mixed(c0, c1, 1, 2)
    }
}

/// The two bits of `row` for column `px`, counted from the low end.
pub open spec fn two_bits(row: u8, px: int) -> int {
    if px == 0 {
        row as int % 4
    } else if px == 1 {
        row as int / 4 % 4
    } else if px == 2 {
        row as int / 16 % 4
    } else {
        row as int / 64
    }
}

/// The three bits of `word` for the texel number `k` out of eight, counted from the low end.
pub open spec fn three_bits(word: int, k: int) -> int {
    if k == 0 {
        word % 8
    } else if k == 1 {
        word / 8 % 8
    } else if k == 2 {
        word / 64 % 8
    } else if k == 3 {
        word / 512 % 8
    } else if k == 4 {
        word / 4096 % 8
    } else if k == 5 {
        word / 32768 % 8
    } else if k == 6 {
        word / 262144 % 8
    } else {
        word / 2097152 % 8
    }
}

/// The palette entry chosen for column `px` of row `py` of the colour block at `at`: the two packed
/// colours are followed by one byte for each row.
pub open spec fn choice(data: Seq<u8>, at: int, px: int, py: int) -> int {
    two_bits(data[at + 4 + py], px)
}

/// The colour of column `px` of row `py` of the colour block at `at`.
pub open spec fn block_color(
    data: Seq<u8>,
    at: int,
    punch_through: bool,
    px: int,
    py: int,
) -> Rgba {
    palette_entry(data, at, punch_through, choice(data, at, px, py))
}

/// The alpha that a DXT3 block at `at` stores for column `px` of row `py`: a nibble, written twice.
pub open spec fn explicit_alpha(data: Seq<u8>, at: int, px: int, py: int) -> int {
    let pair = data[at + 2 * py + px / 2] as int;
    if px % 2 == 0 {
        pair % 16 * 17
    } else {
        pair / 16 * 17
    }
}

/// Entry `k` of the alpha ramp that two end points span in a DXT5 block: six steps between
/// descending end points, else four steps and the two extremes.
pub open spec fn ramp_entry(a0: u8, a1: u8, k: int) -> int {
    if k == 0 {
        a0 as int
    } else if k == 1 {
        a1 as int
    } else if a0 > a1 {
        ((8 - k) * a0 + (k - 1) * a1) / 7
    } else if k < 6 {
        ((6 - k) * a0 + (k - 1) * a1) / 5
    } else if k == 6 {
        0
    } else {
        255
    }
}

/// The entry of the alpha ramp chosen for column `px` of row `py` of a DXT5 block at `at`: after the
/// two end points three bytes hold the choices for the two upper rows, and three more those for the
/// lower rows.
pub open spec fn alpha_choice(data: Seq<u8>, at: int, px: int, py: int) -> int {
    three_bits(bytes::le24(data, at + 2 + 3 * (py / 2)), 4 * (py % 2) + px)
}

/// The alpha that a DXT5 block at `at` stores for column `px` of row `py`.
pub open spec fn ramp_alpha(data: Seq<u8>, at: int, px: int, py: int) -> int {
    ramp_entry(data[at], data[at + 1], alpha_choice(data, at, px, py))
}

/// Column `px` of row `py` of the DXT1 block at `at`.
pub open spec fn dxt1_texel(data: Seq<u8>, at: int, px: int, py: int) -> Rgba {
    block_color(data, at, true, px, py)
}

/// Column `px` of row `py` of the DXT3 block at `at`.
pub open spec fn dxt3_texel(data: Seq<u8>, at: int, px: int, py: int) -> Rgba {
    let c = block_color(data, at + 8, false, px, py);
    Rgba { r: c.r, g: c.g, b: c.b, a: explicit_alpha(data, at, px, py) as u8 }
}

/// Column `px` of row `py` of the DXT5 block at `at`.
pub open spec fn dxt5_texel(data: Seq<u8>, at: int, px: int, py: int) -> Rgba {
    let c = block_color(data, at + 8, false, px, py);
    Rgba { r: c.r, g: c.g, b: c.b, a: ramp_alpha(data, at, px, py) as u8 }
}

/// The block compressed formats.
#[derive(Clone, Copy, Debug, PartialEq, Eq, Structural)]
pub enum BlockFormat {
    /// Colours only; a block may have transparent texels.
    Dxt1,
    /// Colours, and four bits of alpha for each texel.
    Dxt3,
    /// Colours, and an alpha picked from a ramp for each texel.
    Dxt5,
}

impl BlockFormat {
    /// How many bytes a block takes.
    pub open spec fn block_bytes(self) -> int {
        if self == BlockFormat::Dxt1 {
            8
        } else {
            16
        }
    }

    /// Column `px` of row `py` of the block at `at`.
    pub open spec fn texel(self, data: Seq<u8>, at: int, px: int, py: int) -> Rgba {
        match self {
            BlockFormat::Dxt1 => dxt1_texel(data, at, px, py),
            BlockFormat::Dxt3 => dxt3_texel(data, at, px, py),
            BlockFormat::Dxt5 => dxt5_texel(data, at, px, py),
        }
    }

    /// Column `x` of row `y` of a picture that is `width` texels wide: what its block holds for it,
    /// or transparent black where the data ends before the block does.
    pub open spec fn pixel(self, data: Seq<u8>, width: int, x: int, y: int) -> Rgba {
        let at = self.block_bytes() * block_of(width, x, y);
        if at + self.block_bytes() <= data.len() {
            self.texel(data, at, x % 4, y % 4)
        } else {
            color::clear()
        }
    }
}

/// The four colours that a colour block picks from.
fn palette(data: &[u8], at: usize, punch_through: bool) -> (out: [Rgba; 4])
    requires
        at + 4 <= data.len(),
    ensures
        forall|k: int|
            0 <= k < 4 ==> #[trigger] out@[k] == palette_entry(
                data@,
                at as int,
                punch_through,
                k,
            ),
{
    let packed0: u16 = read_le16(data, at);
    let packed1: u16 = read_le16(data, at + 2);
    let c0 = decode_rgb565(packed0);
    let c1 = decode_rgb565(packed1);
    if punch_through && packed0 <= packed1 {
        [c0, c1, lerp_color(c0, c1, 1, 1), Rgba { r: 0, g: 0, b: 0, a: 0 }]
    } else {
        [c0, c1, lerp_color(c0, c1, 2, 1), lerp_color(c0, c1, 1, 2)]
    }
}

/// The two bits of `row` for column `px`.
fn pick_two_bits(row: u8, px: usize) -> (out: usize)
    requires
        px < 4,
    ensures
        out == two_bits(row, px as int),
        out < 4,
{
    let shift: u8 = 2 * px as u8;
    assert(shift == 0 ==> (row >> shift) & 3 == row % 4) by (bit_vector);
    assert(shift == 2 ==> (row >> shift) & 3 == row / 4 % 4) by (bit_vector);
    assert(shift == 4 ==> (row >> shift) & 3 == row / 16 % 4) by (bit_vector);
    assert(shift == 6 ==> (row >> shift) & 3 == row / 64) by (bit_vector);
    ((row >> shift) & 3) as usize
}

/// The three bits of `word` for the texel number `k` out of eight.
fn pick_three_bits(word: u32, k: usize) -> (out: usize)
    requires
        k < 8,
    ensures
        out == three_bits(word as int, k as int),
        out < 8,
{
    let shift: u32 = 3 * k as u32;
    assert((shift == 0 ==> (word >> shift) & 7 == word % 8) && (shift == 3 ==> (word >> shift) & 7
        == word / 8 % 8) && (shift == 6 ==> (word >> shift) & 7 == word / 64 % 8) && (shift == 9
        ==> (word >> shift) & 7 == word / 512 % 8)) by (bit_vector);
    assert((shift == 12 ==> (word >> shift) & 7 == word / 4096 % 8) && (shift == 15 ==> (word
        >> shift) & 7 == word / 32768 % 8) && (shift == 18 ==> (word >> shift) & 7 == word / 262144
        % 8) && (shift == 21 ==> (word >> shift) & 7 == word / 2097152 % 8)) by (bit_vector);
    ((word >> shift) & 7) as usize
}

/// The eight alphas that a DXT5 block picks from.
fn alpha_ramp(a0: u8, a1: u8) -> (out: [u8; 8])
    ensures
        forall|k: int| 0 <= k < 8 ==> #[trigger] out@[k] == ramp_entry(a0, a1, k),
{
    let mut out: [u8; 8] = [0; 8];
    out[0] = a0;
    out[1] = a1;
    if a0 > a1 {
        for i in 1usize..7usize
            invariant
                a0 > a1,
                forall|k: int| 0 <= k < i + 1 ==> #[trigger] out@[k] == ramp_entry(a0, a1, k),
        {
            assert((7 - i) * a0 + i * a1 <= 7 * 255 && 0 <= (7 - i) * a0 && 0 <= i * a1 && (7 - i)
                * a0 <= 7 * 255 && i * a1 <= 7 * 255) by (nonlinear_arith)
                requires
                    0 <= i <= 7,
                    a0 <= 255,
                    a1 <= 255,
            ;
            out[i + 1] = (((7 - i) * a0 as usize + i * a1 as usize) / 7) as u8;
        }
    } else {
        for i in 1usize..5usize
            invariant
                a0 <= a1,
                forall|k: int| 0 <= k < i + 1 ==> #[trigger] out@[k] == ramp_entry(a0, a1, k),
        {
            assert((5 - i) * a0 + i * a1 <= 5 * 255 && 0 <= (5 - i) * a0 && 0 <= i * a1 && (5 - i)
                * a0 <= 5 * 255 && i * a1 <= 5 * 255) by (nonlinear_arith)
                requires
                    0 <= i <= 5,
                    a0 <= 255,
                    a1 <= 255,
            ;
            out[i + 1] = (((5 - i) * a0 as usize + i * a1 as usize) / 5) as u8;
        }
        out[6] = 0;
        out[7] = 255;
    }
    out
}

/// The sixteen texels of the DXT1 block at `at`, row by row.
fn decode_dxt1_block(data: &[u8], at: usize) -> (out: [Rgba; 16])
    requires
        at + 8 <= data.len(),
    ensures
        forall|px: int, py: int|
            0 <= px < 4 && 0 <= py < 4 ==> #[trigger] picture::cell(out@, 4, px, py) == dxt1_texel(
                data@,
                at as int,
                px,
                py,
            ),
{
    let colors = palette(data, at, true);
    let mut out: [Rgba; 16] = [Rgba { r: 0, g: 0, b: 0, a: 0 };16];
    for t in 0usize..16usize
        invariant
            at + 8 <= data.len(),
            forall|k: int|
                0 <= k < 4 ==> #[trigger] colors@[k] == palette_entry(data@, at as int, true, k),
            forall|i: int| 0 <= i < t ==> #[trigger] out@[i] == dxt1_texel(data@, at as int, i % 4, i / 4),
    {
        let k: usize = pick_two_bits(data[at + 4 + t / 4], t % 4);
        out[t] = colors[k];
    }
    out
}

/// The sixteen texels of the DXT3 block at `at`, row by row.
fn decode_dxt3_block(data: &[u8], at: usize) -> (out: [Rgba; 16])
    requires
        at + 16 <= data.len(),
    ensures
        forall|px: int, py: int|
            0 <= px < 4 && 0 <= py < 4 ==> #[trigger] picture::cell(out@, 4, px, py) == dxt3_texel(
                data@,
                at as int,
                px,
                py,
            ),
{
    let colors = palette(data, at + 8, false);
    let mut out: [Rgba; 16] = [Rgba { r: 0, g: 0, b: 0, a: 0 };16];
    for t in 0usize..16usize
        invariant
            at + 16 <= data.len(),
            forall|k: int|
                0 <= k < 4 ==> #[trigger] colors@[k] == palette_entry(data@, at + 8, false, k),
            forall|i: int|
                0 <= i < t ==> #[trigger] out@[i] == dxt3_texel(data@, at as int, i % 4, i / 4),
    {
        let k: usize = pick_two_bits(data[at + 12 + t / 4], t % 4);
        let c = colors[k];
        let pair: u8 = data[at + t / 2];
        let nibble: u8 = if t % 2 == 0 {
            pair % 16
        } else {
            pair / 16
        };
        out[t] = Rgba { r: c.r, g: c.g, b: c.b, a: repeat_nibble(nibble) };
    }
    out
}

/// Texel number `t` of the DXT5 block at `at`, counted row by row, given the colours and alphas that
/// the block picks from.
fn decode_dxt5_texel(
    data: &[u8],
    at: usize,
    colors: &[Rgba; 4],
    alphas: &[u8; 8],
    t: usize,
) -> (out: Rgba)
    requires
        at + 16 <= data.len(),
        t < 16,
        forall|k: int|
            0 <= k < 4 ==> #[trigger] colors@[k] == palette_entry(data@, at + 8, false, k),
        forall|k: int|
            0 <= k < 8 ==> #[trigger] alphas@[k] == ramp_entry(data@[at as int], data@[at + 1], k),
    ensures
        out == dxt5_texel(data@, at as int, t as int % 4, t as int / 4),
{
    let px: usize = t % 4;
    let py: usize = t / 4;
    let k: usize = pick_two_bits(data[at + 12 + py], px);
    let word: u32 = read_le24(data, at + 2 + 3 * (py / 2));
    let a: usize = pick_three_bits(word, 4 * (py % 2) + px);
    let c = colors[k];
    Rgba { r: c.r, g: c.g, b: c.b, a: alphas[a] }
}

/// The sixteen texels of the DXT5 block at `at`, row by row.
fn decode_dxt5_block(data: &[u8], at: usize) -> (out: [Rgba; 16])
    requires
        at + 16 <= data.len(),
    ensures
        forall|px: int, py: int|
            0 <= px < 4 && 0 <= py < 4 ==> #[trigger] picture::cell(out@, 4, px, py) == dxt5_texel(
                data@,
                at as int,
                px,
                py,
            ),
{
    let alphas = alpha_ramp(data[at], data[at + 1]);
    let colors = palette(data, at + 8, false);
    let mut out: [Rgba; 16] = [Rgba { r: 0, g: 0, b: 0, a: 0 };16];
    for t in 0usize..16usize
        invariant
            at + 16 <= data.len(),
            forall|k: int|
                0 <= k < 4 ==> #[trigger] colors@[k] == palette_entry(data@, at + 8, false, k),
            forall|k: int|
                0 <= k < 8 ==> #[trigger] alphas@[k] == ramp_entry(
                    data@[at as int],
                    data@[at + 1],
                    k,
                ),
            forall|i: int|
                0 <= i < t ==> #[trigger] out@[i] == dxt5_texel(data@, at as int, i % 4, i / 4),
    {
        out[t] = decode_dxt5_texel(data, at, &colors, &alphas, t);
    }
    out
}

/// Copies the texels of block `bx`, `by` into the picture, as far as they lie in it.
fn write_block(out: &mut Picture, bx: u32, by: u32, texels: &[Rgba; 16])
    requires
        old(out).wf(),
        bx < blocks(old(out).width as int),
        by < blocks(old(out).height as int),
    ensures
        final(out).wf(),
        final(out).width == old(out).width,
        final(out).height == old(out).height,
        forall|x: int, y: int|
            old(out).covers(x, y) ==> #[trigger] final(out).at(x, y) == if x / 4 == bx && y / 4
                == by {
                picture::cell(texels@, 4, x % 4, y % 4)
            } else {
                old(out).at(x, y)
            },
{
    let width: u32 = out.width;
    let height: u32 = out.height;
    for t in 0u32..16u32
        invariant
            out.wf(),
            out.width == width,
            out.height == height,
            width == old(out).width,
            height == old(out).height,
            bx < blocks(width as int),
            by < blocks(height as int),
            forall|x: int, y: int|
                out.covers(x, y) ==> #[trigger] out.at(x, y) == if x / 4 == bx && y / 4 == by && 4
                    * (y % 4) + x % 4 < t {
                    picture::cell(texels@, 4, x % 4, y % 4)
                } else {
                    old(out).at(x, y)
                },
    {
        let ghost before = *out;
        let px: u32 = t % 4;
        let py: u32 = t / 4;
        if px < width - 4 * bx && py < height - 4 * by {
            let x: u32 = 4 * bx + px;
            let y: u32 = 4 * by + py;
            out.put(x, y, texels[t as usize]);
            assert(picture::cell(texels@, 4, px as int, py as int) == texels@[t as int]);
        }
    }
}

/// Decodes a block compressed picture, block by block.
fn decompress(format: BlockFormat, data: &[u8], width: u32, height: u32) -> (out: Picture)
    requires
        width * height * 4 <= u32::MAX,
        picture::fits_memory(width as int, height as int),
    ensures
        out.wf(),
        out.width == width,
        out.height == height,
        forall|x: int, y: int|
            out.covers(x, y) ==> #[trigger] out.at(x, y) == format.pixel(
                data@,
                width as int,
                x,
                y,
            ),
{
    let mut out = blank(width, height);
    let blocks_x: u32 = width / 4 + (if width % 4 == 0 { 0u32 } else { 1u32 });
    let blocks_y: u32 = height / 4 + (if height % 4 == 0 { 0u32 } else { 1u32 });
    let size: u64 = match format {
        BlockFormat::Dxt1 => 8,
        _ => 16,
    };
    for by in 0u32..blocks_y
        invariant
            width * height * 4 <= u32::MAX,
            size == format.block_bytes(),
            blocks_x == blocks(width as int),
            blocks_y == blocks(height as int),
            out.wf(),
            out.width == width,
            out.height == height,
            forall|x: int, y: int|
                out.covers(x, y) ==> #[trigger] out.at(x, y) == if y / 4 < by {
                    format.pixel(data@, width as int, x, y)
                } else {
                    color::clear()
                },
    {
        for bx in 0u32..blocks_x
            invariant
                width * height * 4 <= u32::MAX,
                by < blocks_y,
                size == format.block_bytes(),
                blocks_x == blocks(width as int),
                blocks_y == blocks(height as int),
                out.wf(),
                out.width == width,
                out.height == height,
                forall|x: int, y: int|
                    out.covers(x, y) ==> #[trigger] out.at(x, y) == if y / 4 < by || (y / 4 == by
                        && x / 4 < bx) {
                        format.pixel(data@, width as int, x, y)
                    } else {
                        color::clear()
                    },
        {
            assert(width <= width * height && height <= width * height) by (nonlinear_arith)
                requires
                    0 < width,
                    0 < height,
            ;
            assert(0 <= by * blocks_x <= 0x1000_0000 * 0x1000_0000) by (nonlinear_arith)
                requires
                    0 <= by <= 0x1000_0000,
                    0 <= blocks_x <= 0x1000_0000,
            ;
            let block: u64 = by as u64 * blocks_x as u64 + bx as u64;
            assert(size * block == if format == BlockFormat::Dxt1 {
                8 * block
            } else {
                16 * block
            });
            let at: u64 = size * block;
            if at + size <= data.len() as u64 {
                let texels = match format {
                    BlockFormat::Dxt1 => decode_dxt1_block(data, at as usize),
                    BlockFormat::Dxt3 => decode_dxt3_block(data, at as usize),
                    BlockFormat::Dxt5 => decode_dxt5_block(data, at as usize),
                };
                write_block(&mut out, bx, by, &texels);
            }
        }
    }
    out
}

/// Decodes a DXT1 picture. Blocks that `data` does not hold in full stay transparent black.
pub fn decompress_dxt1(data: &[u8], width: u32, height: u32) -> (out: Picture)
    requires
        width * height * 4 <= u32::MAX,
        picture::fits_memory(width as int, height as int),
    ensures
        out.wf(),
        out.width == width,
        out.height == height,
        forall|x: int, y: int|
            out.covers(x, y) ==> #[trigger] out.at(x, y) == BlockFormat::Dxt1.pixel(
                data@,
                width as int,
                x,
                y,
            ),
{
    decompress(BlockFormat::Dxt1, data, width, height)
}

/// Decodes a DXT3 picture. Blocks that `data` does not hold in full stay transparent black.
pub fn decompress_dxt3(data: &[u8], width: u32, height: u32) -> (out: Picture)
    requires
        width * height * 4 <= u32::MAX,
        picture::fits_memory(width as int, height as int),
    ensures
        out.wf(),
        out.width == width,
        out.height == height,
        forall|x: int, y: int|
            out.covers(x, y) ==> #[trigger] out.at(x, y) == BlockFormat::Dxt3.pixel(
                data@,
                width as int,
                x,
                y,
            ),
{
    decompress(BlockFormat::Dxt3, data, width, height)
}

/// Decodes a DXT5 picture. Blocks that `data` does not hold in full stay transparent black.
pub fn decompress_dxt5(data: &[u8], width: u32, height: u32) -> (out: Picture)
    requires
        width * height * 4 <= u32::MAX,
        picture::fits_memory(width as int, height as int),
    ensures
        out.wf(),
        out.width == width,
        out.height == height,
        forall|x: int, y: int|
            out.covers(x, y) ==> #[trigger] out.at(x, y) == BlockFormat::Dxt5.pixel(
                data@,
                width as int,
                x,
                y,
            ),
{
    decompress(BlockFormat::Dxt5, data, width, height)
}

/// A texel depends on its own block alone: two pictures of one width whose data agrees on a block
/// agree on its texels.
pub proof fn texel_depends_on_its_block(
    format: BlockFormat,
    data0: Seq<u8>,
    data1: Seq<u8>,
    width: int,
    x: int,
    y: int,
)
    requires
        0 <= x < width,
        0 <= y,
        ({
            let at = format.block_bytes() * block_of(width, x, y);
            &&& at + format.block_bytes() <= data0.len()
            &&& at + format.block_bytes() <= data1.len()
            &&& data0.subrange(at, at + format.block_bytes()) == data1.subrange(
                at,
                at + format.block_bytes(),
            )
        }),
    ensures
        format.pixel(data0, width, x, y) == format.pixel(data1, width, x, y),
{
    let size = format.block_bytes();
    let at = size * block_of(width, x, y);
    assert(0 <= block_of(width, x, y)) by {
        picture::lemma_cell_in_grid(blocks(width), y / 4 + 1, x / 4, y / 4);
    }
    assert(0 <= at);
    assert forall|i: int| at <= i < at + size implies data0[i] == data1[i] by {
        assert(data0.subrange(at, at + size)[i - at] == data1.subrange(at, at + size)[i - at]);
    }
}

/// Data that holds every block in full leaves no texel out.
pub proof fn full_data_covers_picture(
    format: BlockFormat,
    data: Seq<u8>,
    width: int,
    height: int,
    x: int,
    y: int,
)
    requires
        0 <= x < width,
        0 <= y < height,
        data.len() >= format.block_bytes() * (blocks(width) * blocks(height)),
    ensures
        format.pixel(data, width, x, y) == format.texel(
            data,
            format.block_bytes() * block_of(width, x, y),
            x % 4,
            y % 4,
        ),
{
    picture::lemma_cell_in_grid(blocks(width), blocks(height), x / 4, y / 4);
    let block = block_of(width, x, y);
    let all = blocks(width) * blocks(height);
    assert(8 * block + 8 <= 8 * all && 16 * block + 16 <= 16 * all);
    assert(format.block_bytes() * all == if format == BlockFormat::Dxt1 {
        8 * all
    } else {
        16 * all
    });
}

/// Opaque DXT1 blocks, those whose first packed colour is the larger, hold the colours of a DXT3
/// or DXT5 block with the same colour half.
pub proof fn dxt1_agrees_on_descending_blocks(data: Seq<u8>, at: int, px: int, py: int)
    requires
        bytes::le16(data, at) > bytes::le16(data, at + 2),
    ensures
        block_color(data, at, true, px, py) == block_color(data, at, false, px, py),
{
}

/// The number of a texel's block, and that the block lies inside those of the picture.
proof fn lemma_block_of(width: int, height: int, x: int, y: int)
    requires
        0 <= x < width,
        0 <= y < height,
    ensures
        0 <= block_of(width, x, y) < blocks(width) * blocks(height),
{
    picture::lemma_cell_in_grid(blocks(width), blocks(height), x / 4, y / 4);
}

/// Data that ends early keeps the blocks that it holds in full, whatever would follow, and leaves
/// the other texels clear.
pub proof fn truncated_data_keeps_its_blocks(
    format: BlockFormat,
    data: Seq<u8>,
    full: Seq<u8>,
    width: int,
    height: int,
    x: int,
    y: int,
)
    requires
        0 <= x < width,
        0 <= y < height,
        data.len() <= full.len(),
        full.take(data.len() as int) == data,
    ensures
        block_of(width, x, y) < data.len() as int / format.block_bytes() ==> format.pixel(
            data,
            width,
            x,
            y,
        ) == format.pixel(full, width, x, y),
        block_of(width, x, y) >= data.len() as int / format.block_bytes() ==> format.pixel(
            data,
            width,
            x,
            y,
        ) == color::clear(),
{
    lemma_block_of(width, height, x, y);
    let size = format.block_bytes();
    let at = size * block_of(width, x, y);
    if at + size <= data.len() {
        assert(full.subrange(at, at + size) =~= data.subrange(at, at + size)) by {
            assert forall|i: int| at <= i < at + size implies full[i] == data[i] by {
                assert(full.take(data.len() as int)[i] == full[i]);
            }
        }
        texel_depends_on_its_block(format, data, full, width, x, y);
    }
}

/// The alpha half of a block has no part in its colours: DXT3 and DXT5 data that agree on the colour
/// halves have the same red, green and blue everywhere.
pub proof fn alpha_half_does_not_touch_colors(
    data3: Seq<u8>,
    data5: Seq<u8>,
    width: int,
    height: int,
    x: int,
    y: int,
)
    requires
        0 <= x < width,
        0 <= y < height,
        data3.len() == data5.len(),
        forall|i: int| 0 <= i < data3.len() && i % 16 >= 8 ==> data3[i] == #[trigger] data5[i],
    ensures
        ({
            let c3 = BlockFormat::Dxt3.pixel(data3, width, x, y);
            let c5 = BlockFormat::Dxt5.pixel(data5, width, x, y);
            c3.r == c5.r && c3.g == c5.g && c3.b == c5.b
        }),
{
    lemma_block_of(width, height, x, y);
    let at = 16 * block_of(width, x, y);
    if at + 16 <= data3.len() {
        assert forall|i: int| at + 8 <= i < at + 16 implies data3[i] == #[trigger] data5[i] by {
            assert(i % 16 >= 8);
        }
    }
}

/// DXT1 data made of the colour halves of DXT5 data has its red, green and blue everywhere, and is
/// opaque, where the first packed colour of every block is the larger.
pub proof fn dxt1_is_the_color_half_of_dxt5(
    data1: Seq<u8>,
    data5: Seq<u8>,
    width: int,
    height: int,
    x: int,
    y: int,
)
    requires
        0 <= x < width,
        0 <= y < height,
        data1.len() == 8 * (blocks(width) * blocks(height)),
        data5.len() == 16 * (blocks(width) * blocks(height)),
        forall|i: int| 0 <= i < data1.len() ==> #[trigger] data1[i] == data5[16 * (i / 8) + 8 + i % 8],
        forall|b: int|
            0 <= b < blocks(width) * blocks(height) ==> #[trigger] bytes::le16(data5, 16 * b + 8)
                > bytes::le16(data5, 16 * b + 10),
    ensures
        ({
            let c1 = BlockFormat::Dxt1.pixel(data1, width, x, y);
            let c5 = BlockFormat::Dxt5.pixel(data5, width, x, y);
            c1.r == c5.r && c1.g == c5.g && c1.b == c5.b && c1.a == 255
        }),
{
    lemma_block_of(width, height, x, y);
    let b = block_of(width, x, y);
    assert forall|j: int| 0 <= j < 8 implies data1[8 * b + j] == #[trigger] data5[16 * b + 8 + j] by {
        let i = 8 * b + j;
        assert(i / 8 == b && i % 8 == j);
        assert(data1[i] == data5[16 * (i / 8) + 8 + i % 8]);
    }
    assert(bytes::le16(data5, 16 * b + 8) > bytes::le16(data5, 16 * b + 10));
    let py = y % 4;
    assert(data1[8 * b + 0] == data5[16 * b + 8 + 0]);
    assert(data1[8 * b + 1] == data5[16 * b + 8 + 1]);
    assert(data1[8 * b + 2] == data5[16 * b + 8 + 2]);
    assert(data1[8 * b + 3] == data5[16 * b + 8 + 3]);
    assert(data1[8 * b + (4 + py)] == data5[16 * b + 8 + (4 + py)]);
}

/// A DXT1 texel is opaque or transparent black.
pub proof fn dxt1_texels_are_opaque_or_clear(data: Seq<u8>, at: int, px: int, py: int)
    ensures
        dxt1_texel(data, at, px, py).a == 255 || dxt1_texel(data, at, px, py) == color::clear(),
{
}

/// The ramp of a DXT5 block stays between its end points while they descend.
pub proof fn ramp_lies_between_end_points(a0: u8, a1: u8, k: int)
    requires
        a0 > a1,
        0 <= k < 8,
    ensures
        a1 <= ramp_entry(a0, a1, k) <= a0,
{
    if 2 <= k {
        assert(7 * a1 <= (8 - k) * a0 + (k - 1) * a1 <= 7 * a0) by (nonlinear_arith)
            requires
                a0 > a1,
                2 <= k < 8,
        ;
    }
}

/// The choices of a row of a colour block, weighed by the powers of four from the left, make up the
/// row's byte: the fifth byte of the block for the first row, the sixth for the second and so on.
pub proof fn choices_make_up_their_byte(data: Seq<u8>, at: int, py: int)
    requires
        0 <= py < 4,
    ensures
        choice(data, at, 0, py) + 4 * choice(data, at, 1, py) + 16 * choice(data, at, 2, py) + 64
            * choice(data, at, 3, py) == data[at + 4 + py],
        forall|px: int| 0 <= px < 4 ==> 0 <= #[trigger] choice(data, at, px, py) < 4,
{
    let row = data[at + 4 + py];
    assert(row % 4 + 4 * (row / 4 % 4) + 16 * (row / 16 % 4) + 64 * (row / 64) == row && row / 64
        < 4) by (bit_vector);
}

/// The sixteen choices of a colour block, weighed by the powers of four, make up the word in its last
/// four bytes.
pub proof fn choices_make_up_the_index_word(data: Seq<u8>, at: int)
    ensures
        (choice(data, at, 0, 0) + 4 * choice(data, at, 1, 0) + 16 * choice(data, at, 2, 0) + 64
            * choice(data, at, 3, 0)) + 0x100 * (choice(data, at, 0, 1) + 4 * choice(data, at, 1, 1)
            + 16 * choice(data, at, 2, 1) + 64 * choice(data, at, 3, 1)) + 0x1_0000 * (choice(
            data,
            at,
            0,
            2,
        ) + 4 * choice(data, at, 1, 2) + 16 * choice(data, at, 2, 2) + 64 * choice(data, at, 3, 2))
            + 0x100_0000 * (choice(data, at, 0, 3) + 4 * choice(data, at, 1, 3) + 16 * choice(
            data,
            at,
            2,
            3,
        ) + 64 * choice(data, at, 3, 3)) == data[at + 4] + 0x100 * data[at + 5] + 0x1_0000 * data[at
            + 6] + 0x100_0000 * data[at + 7],
{
    choices_make_up_their_byte(data, at, 0);
    choices_make_up_their_byte(data, at, 1);
    choices_make_up_their_byte(data, at, 2);
    choices_make_up_their_byte(data, at, 3);
}

/// The alpha choices of two rows of a DXT5 block, weighed by the powers of eight from the left and
/// from the top, make up their three bytes: the third to the fifth of the block for the two upper
/// rows, the sixth to the eighth for the two lower ones.
pub proof fn alpha_choices_make_up_their_bytes(data: Seq<u8>, at: int, half: int)
    requires
        half == 0 || half == 1,
    ensures
        alpha_choice(data, at, 0, 2 * half) + 0o10 * alpha_choice(data, at, 1, 2 * half) + 0o100
            * alpha_choice(data, at, 2, 2 * half) + 0o1000 * alpha_choice(data, at, 3, 2 * half)
            + 0o10000 * alpha_choice(data, at, 0, 2 * half + 1) + 0o100000 * alpha_choice(
            data,
            at,
            1,
            2 * half + 1,
        ) + 0o1000000 * alpha_choice(data, at, 2, 2 * half + 1) + 0o10000000 * alpha_choice(
            data,
            at,
            3,
            2 * half + 1,
        ) == data[at + 2 + 3 * half] + 0x100 * data[at + 3 + 3 * half] + 0x1_0000 * data[at + 4 + 3
            * half],
        forall|px: int, py: int|
            0 <= px < 4 && 2 * half <= py <= 2 * half + 1 ==> 0 <= #[trigger] alpha_choice(
                data,
                at,
                px,
                py,
            ) < 8,
{
    let word = bytes::le24(data, at + 2 + 3 * half) as u32;
    assert(word < 0x100_0000);
    assert((2 * half) / 2 == half && (2 * half + 1) / 2 == half && (2 * half) % 2 == 0 && (2 * half
        + 1) % 2 == 1);
    assert(word % 8 + 8 * (word / 8 % 8) + 64 * (word / 64 % 8) + 512 * (word / 512 % 8) + 4096 * (
    word / 4096 % 8) + 32768 * (word / 32768 % 8) + 262144 * (word / 262144 % 8) + 2097152 * (word
        / 2097152 % 8) == word) by (bit_vector)
        requires
            word < 0x100_0000,
    ;
    assert forall|px: int, py: int|
        0 <= px < 4 && 2 * half <= py <= 2 * half + 1 implies 0 <= #[trigger] alpha_choice(
        data,
        at,
        px,
        py,
    ) < 8 by {}
}

/// The explicit alphas of a row of a DXT3 block are nibbles written twice, and the nibbles make up
/// the row's two bytes, the left one of a pair in the low half.
pub proof fn explicit_alphas_make_up_their_bytes(data: Seq<u8>, at: int, py: int)
    requires
        0 <= py < 4,
    ensures
        explicit_alpha(data, at, 0, py) + 16 * explicit_alpha(data, at, 1, py) == 17 * data[at + 2
            * py],
        explicit_alpha(data, at, 2, py) + 16 * explicit_alpha(data, at, 3, py) == 17 * data[at + 2
            * py + 1],
        forall|px: int|
            0 <= px < 4 ==> 0 <= #[trigger] explicit_alpha(data, at, px, py) <= 255
                && explicit_alpha(data, at, px, py) % 16 == explicit_alpha(data, at, px, py) / 16,
{
    let a = data[at + 2 * py];
    let b = data[at + 2 * py + 1];
    assert(a % 16 + 16 * (a / 16) == a && b % 16 + 16 * (b / 16) == b && a / 16 < 16 && b / 16 < 16)
        by (bit_vector);
}

/// The alpha ramp starts with its two end points. While they descend, seven times a later entry is
/// at most six below the weighed sum of the end points, and never above it. Else five times an entry
/// is at most four below, and the ramp ends with the two extremes.
pub proof fn ramp_is_evenly_weighed(a0: u8, a1: u8, k: int)
    ensures
        ramp_entry(a0, a1, 0) == a0,
        ramp_entry(a0, a1, 1) == a1,
        a0 > a1 && 2 <= k <= 7 ==> 0 <= (8 - k) * a0 + (k - 1) * a1 - 7 * ramp_entry(a0, a1, k) <= 6,
        a0 <= a1 && 2 <= k <= 5 ==> 0 <= (6 - k) * a0 + (k - 1) * a1 - 5 * ramp_entry(a0, a1, k) <= 4,
        a0 <= a1 ==> ramp_entry(a0, a1, 6) == 0 && ramp_entry(a0, a1, 7) == 255,
{
}

/// The steps of an ascending ramp lie between its end points and never fall.
pub proof fn ascending_ramp_rises(a0: u8, a1: u8, j: int, k: int)
    requires
        a0 <= a1,
        2 <= j <= k <= 5,
    ensures
        a0 <= ramp_entry(a0, a1, j) <= ramp_entry(a0, a1, k) <= a1,
{
    assert(5 * a0 <= (6 - j) * a0 + (j - 1) * a1 <= (6 - k) * a0 + (k - 1) * a1 <= 5 * a1)
        by (nonlinear_arith)
        requires
            a0 <= a1,
            2 <= j <= k <= 5,
    ;
}

/// A palette starts with the two colours of the block's first two words, low byte first, unpacked.
pub proof fn palette_starts_with_the_packed_colors(data: Seq<u8>, at: int, punch_through: bool)
    ensures
        palette_entry(data, at, punch_through, 0) == color::rgb565(
            (data[at] + 256 * data[at + 1]) as u16,
        ),
        palette_entry(data, at, punch_through, 1) == color::rgb565(
            (data[at + 2] + 256 * data[at + 3]) as u16,
        ),
{
}

/// The other two entries of a palette. Where holes are allowed and the first word is not the larger,
/// they are the mean of the two colours and nothing. Else they lie a third and two thirds of the way
/// from the first colour to the second. All means are rounded down and opaque.
pub proof fn palette_steps_between_its_colors(data: Seq<u8>, at: int, punch_through: bool)
    ensures
        ({
            let c0 = palette_entry(data, at, punch_through, 0);
            let c1 = palette_entry(data, at, punch_through, 1);
            let c2 = palette_entry(data, at, punch_through, 2);
            let c3 = palette_entry(data, at, punch_through, 3);
            let descends = data[at] + 256 * data[at + 1] > data[at + 2] + 256 * data[at + 3];
            &&& (!punch_through || descends) ==> {
                &&& 0 <= 2 * c0.r + c1.r - 3 * c2.r <= 2
                &&& 0 <= 2 * c0.g + c1.g - 3 * c2.g <= 2
                &&& 0 <= 2 * c0.b + c1.b - 3 * c2.b <= 2
                &&& 0 <= c0.r + 2 * c1.r - 3 * c3.r <= 2
                &&& 0 <= c0.g + 2 * c1.g - 3 * c3.g <= 2
                &&& 0 <= c0.b + 2 * c1.b - 3 * c3.b <= 2
                &&& c2.a == 255
                &&& c3.a == 255
            }
            &&& (punch_through && !descends) ==> {
                &&& 0 <= c0.r + c1.r - 2 * c2.r <= 1
                &&& 0 <= c0.g + c1.g - 2 * c2.g <= 1
                &&& 0 <= c0.b + c1.b - 2 * c2.b <= 1
                &&& c2.a == 255
                &&& c3 == (Rgba { r: 0, g: 0, b: 0, a: 0 })
            }
        }),
{
    let c0 = palette_entry(data, at, punch_through, 0);
    let c1 = palette_entry(data, at, punch_through, 1);
    color::mixed_is_the_mean(c0, c1, 2, 1);
    color::mixed_is_the_mean(c0, c1, 1, 2);
    color::mixed_is_the_mean(c0, c1, 1, 1);
}

/// A picture of four by four texels is one block.
proof fn lemma_single_block(px: int, py: int)
    requires
        0 <= px < 4,
        0 <= py < 4,
    ensures
        block_of(4, px, py) == 0,
        px % 4 == px,
        py % 4 == py,
{
    assert(px / 4 == 0 && py / 4 == 0 && blocks(4) == 1);
}

/// A colour block taken out of the data keeps its colours.
proof fn lemma_color_moves(
    data: Seq<u8>,
    at: int,
    alone: Seq<u8>,
    from: int,
    punch_through: bool,
    px: int,
    py: int,
)
    requires
        0 <= px < 4,
        0 <= py < 4,
        data[at] == alone[from],
        data[at + 1] == alone[from + 1],
        data[at + 2] == alone[from + 2],
        data[at + 3] == alone[from + 3],
        data[at + 4 + py] == alone[from + 4 + py],
    ensures
        block_color(data, at, punch_through, px, py) == block_color(
            alone,
            from,
            punch_through,
            px,
            py,
        ),
{
}

/// A block taken out of the data keeps its texels.
proof fn lemma_texel_moves(format: BlockFormat, data: Seq<u8>, at: int, px: int, py: int)
    requires
        0 <= at,
        at + format.block_bytes() <= data.len(),
        0 <= px < 4,
        0 <= py < 4,
    ensures
        format.texel(data, at, px, py) == format.texel(
            data.subrange(at, at + format.block_bytes()),
            0,
            px,
            py,
        ),
{
    let alone = data.subrange(at, at + format.block_bytes());
    match format {
        BlockFormat::Dxt1 => {
            lemma_color_moves(data, at, alone, 0, true, px, py);
        },
        BlockFormat::Dxt3 => {
            lemma_color_moves(data, at + 8, alone, 8, false, px, py);
            assert(data[at + 2 * py + px / 2] == alone[2 * py + px / 2]);
        },
        BlockFormat::Dxt5 => {
            lemma_color_moves(data, at + 8, alone, 8, false, px, py);
            let half = py / 2;
            assert(data[at] == alone[0] && data[at + 1] == alone[1]);
            assert(bytes::le24(data, at + 2 + 3 * half) == bytes::le24(alone, 2 + 3 * half));
        },
    }
}

/// A picture is made of blocks of four by four texels that follow one another in rows: a texel is
/// what the picture of four by four made of its block alone has in its place. Where the data does
/// not hold the whole block, nothing is there.
pub proof fn texel_is_that_of_its_block_alone(
    format: BlockFormat,
    data: Seq<u8>,
    width: int,
    x: int,
    y: int,
)
    requires
        0 <= x < width,
        0 <= y,
    ensures
        ({
            let size = match format {
                BlockFormat::Dxt1 => 8int,
                BlockFormat::Dxt3 => 16int,
                BlockFormat::Dxt5 => 16int,
            };
            let at = size * ((y / 4) * ((width + 3) / 4) + x / 4);
            &&& 0 <= at
            &&& at + size <= data.len() ==> format.pixel(data, width, x, y) == format.pixel(
                data.subrange(at, at + size),
                4,
                x % 4,
                y % 4,
            )
            &&& at + size > data.len() ==> format.pixel(data, width, x, y) == (Rgba {
                r: 0,
                g: 0,
                b: 0,
                a: 0,
            })
        }),
{
    let size = format.block_bytes();
    let at = size * block_of(width, x, y);
    assert(0 <= block_of(width, x, y)) by {
        picture::lemma_cell_in_grid(blocks(width), y / 4 + 1, x / 4, y / 4);
    }
    assert(0 <= at);
    if at + size <= data.len() {
        lemma_single_block(x % 4, y % 4);
        lemma_texel_moves(format, data, at, x % 4, y % 4);
    }
}

/// The texels of a DXT1 block are the palette entries that are chosen for them.
pub proof fn dxt1_block_picks_from_its_palette(block: Seq<u8>, px: int, py: int)
    requires
        block.len() == 8,
        0 <= px < 4,
        0 <= py < 4,
    ensures
        BlockFormat::Dxt1.pixel(block, 4, px, py) == palette_entry(
            block,
            0,
            true,
            choice(block, 0, px, py),
        ),
{
    lemma_single_block(px, py);
}

/// The texels of a DXT3 block have the palette colours that its second half chooses, without holes,
/// and the alphas that its first half gives them.
pub proof fn dxt3_block_picks_from_its_palette(block: Seq<u8>, px: int, py: int)
    requires
        block.len() == 16,
        0 <= px < 4,
        0 <= py < 4,
    ensures
        ({
            let p = BlockFormat::Dxt3.pixel(block, 4, px, py);
            let c = palette_entry(block, 8, false, choice(block, 8, px, py));
            p.r == c.r && p.g == c.g && p.b == c.b && p.a == explicit_alpha(block, 0, px, py)
        }),
{
    lemma_single_block(px, py);
    explicit_alphas_make_up_their_bytes(block, 0, py);
    assert(0 <= explicit_alpha(block, 0, px, py) <= 255);
}

/// The texels of a DXT5 block have the palette colours that its second half chooses, without holes,
/// and the entries of the ramp between its first two bytes that its first half chooses.
pub proof fn dxt5_block_picks_from_its_palette(block: Seq<u8>, px: int, py: int)
    requires
        block.len() == 16,
        0 <= px < 4,
        0 <= py < 4,
    ensures
        ({
            let p = BlockFormat::Dxt5.pixel(block, 4, px, py);
            let c = palette_entry(block, 8, false, choice(block, 8, px, py));
            p.r == c.r && p.g == c.g && p.b == c.b && p.a == ramp_entry(
                block[0],
                block[1],
                alpha_choice(block, 0, px, py),
            )
        }),
{
    lemma_single_block(px, py);
    let k = alpha_choice(block, 0, px, py);
    alpha_choices_make_up_their_bytes(block, 0, py / 2);
    assert(0 <= k < 8);
    ramp_is_evenly_weighed(block[0], block[1], k);
    if block[0] > block[1] {
        ramp_lies_between_end_points(block[0], block[1], k);
    } else if 2 <= k <= 5 {
        ascending_ramp_rises(block[0], block[1], k, k);
    }
}

} // verus!
