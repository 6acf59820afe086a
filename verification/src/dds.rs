//! DirectDraw surfaces: the container that textures are stored in.
use vstd::prelude::*;
use vstd::slice::slice_subrange;

use crate::bytes;
use crate::bytes::{read_le16, read_le32};
use crate::color;
use crate::color::{decode_argb4444, decode_rgb565, Rgba};
use crate::dxt::{decompress_dxt1, decompress_dxt3, decompress_dxt5, BlockFormat};
use crate::outside;
use crate::picture;
use crate::picture::{check_fits_memory, Picture};
use crate::texture;
use crate::texture::{PixelKind, Texture};

verus! {

/// How a surface stores its texels.
#[derive(Clone, Copy, Debug, PartialEq, Eq, Structural)]
pub enum Payload {
    /// Compressed blocks.
    Blocks(BlockFormat),
    /// Sixteen bit words of five, six and five bits.
    Rgb565,
    /// Sixteen bit words of four nibbles.
    Argb4444,
    /// Something that only the `image` crate may know how to decode.
    Other,
}

/// Why a surface could not be loaded.
#[derive(Debug)]
pub enum DdsError {
    /// The bytes do not start with the signature and a whole header.
    NotDds,
    /// The `image` crate refused the surface.
    Decoder(image::ImageError),
}

/// The bytes before the texels: the signature and the header.
pub const HEADER_BYTES: usize = 128;

/// Whether the bytes start with the signature `DDS ` and are long enough to hold a header.
pub open spec fn is_dds(data: Seq<u8>) -> bool {
    &&& data.len() >= 128
    &&& data[0] == 0x44
    &&& data[1] == 0x44
    &&& data[2] == 0x53
    &&& data[3] == 0x20
}

/// The height that the header gives.
pub open spec fn dds_height(data: Seq<u8>) -> int {
    bytes::le32(data, 12)
}

/// The width that the header gives.
pub open spec fn dds_width(data: Seq<u8>) -> int {
    bytes::le32(data, 16)
}

/// Whether the four character code of the pixel format is `DXT` and then `digit`.
pub open spec fn has_code(data: Seq<u8>, digit: u8) -> bool {
    data[84] == 0x44 && data[85] == 0x58 && data[86] == 0x54 && data[87] == digit
}

/// Whether the header asks for words of sixteen bits with these masks for red, green and blue.
pub open spec fn has_words(data: Seq<u8>, r: int, g: int, b: int) -> bool {
    &&& bytes::le32(data, 88) == 16
    &&& bytes::le32(data, 92) == r
    &&& bytes::le32(data, 96) == g
    &&& bytes::le32(data, 100) == b
}

/// How the header says that the texels are stored. The flag for a four character code wins over
/// the one for plain colours.
pub open spec fn dds_payload(data: Seq<u8>) -> Payload {
    let flags = bytes::le32(data, 80);
    if flags / 4 % 2 == 1 {
        if has_code(data, 0x31) {
            Payload::Blocks(BlockFormat::Dxt1)
        } else if has_code(data, 0x33) {
            Payload::Blocks(BlockFormat::Dxt3)
        } else if has_code(data, 0x35) {
            Payload::Blocks(BlockFormat::Dxt5)
        } else {
            Payload::Other
        }
    } else if flags / 64 % 2 == 1 {
        if has_words(data, 0xF800, 0x07E0, 0x001F) {
            Payload::Rgb565
        } else if has_words(data, 0x0F00, 0x00F0, 0x000F) && bytes::le32(data, 104) == 0xF000 {
            Payload::Argb4444
        } else {
            Payload::Other
        }
    } else {
        Payload::Other
    }
}

/// Whether a surface that is decoded here can be: its texels can be counted in bytes by a word of
/// thirty-two bits and allocated, and one that is not compressed holds all of them.
pub open spec fn dds_fits(data: Seq<u8>) -> bool {
    let texels = dds_width(data) * dds_height(data);
    let counted = texels * 4 <= u32::MAX && picture::fits_memory(dds_width(data), dds_height(data));
    is_dds(data) ==> match dds_payload(data) {
        Payload::Blocks(_) => counted,
        Payload::Rgb565 | Payload::Argb4444 => counted && 128 + texels * 2 <= data.len(),
        Payload::Other => true,
    }
}

/// Column `x` of row `y` of a surface with this payload, whose texels are `body`.
pub open spec fn payload_pixel(payload: Payload, body: Seq<u8>, width: int, x: int, y: int) -> Rgba {
    let word = bytes::le16(body, 2 * picture::cell_index(width, x, y)) as u16;
    match payload {
        Payload::Blocks(format) => format.pixel(body, width, x, y),
        Payload::Rgb565 => color::rgb565(word),
        Payload::Argb4444 => color::argb4444(word),
        Payload::Other => color::clear(),
    }
}

/// Unpacks a picture of words of five, six and five bits.
pub fn convert_rgb565_to_rgba8(data: &[u8], width: u32, height: u32) -> (out: Picture)
    requires
        width * height * 4 <= u32::MAX,
        picture::fits_memory(width as int, height as int),
        width * height * 2 <= data@.len(),
    ensures
        out.wf(),
        out.width == width,
        out.height == height,
        forall|x: int, y: int|
            out.covers(x, y) ==> #[trigger] out.at(x, y) == payload_pixel(
                Payload::Rgb565,
                data@,
                width as int,
                x,
                y,
            ),
{
    assert(0 <= width * height) by (nonlinear_arith);
    let count: usize = width as usize * height as usize;
    let mut pixels: Vec<Rgba> = Vec::new();
    for i in 0usize..count
        invariant
            count * 4 <= u32::MAX,
            count * 2 <= data@.len(),
            pixels@.len() == i,
            forall|k: int|
                0 <= k < i ==> #[trigger] pixels@[k] == color::rgb565(
                    bytes::le16(data@, 2 * k) as u16,
                ),
    {
        pixels.push(decode_rgb565(read_le16(data, 2 * i)));
    }
    let out = Picture { width, height, pixels };
    assert forall|x: int, y: int| out.covers(x, y) implies #[trigger] out.at(x, y)
        == payload_pixel(Payload::Rgb565, data@, width as int, x, y) by {
        picture::lemma_cell_in_grid(width as int, height as int, x, y);
    }
    out
}

/// Unpacks a picture of words of four nibbles.
pub fn convert_rgba4444_to_rgba8(data: &[u8], width: u32, height: u32) -> (out: Picture)
    requires
        width * height * 4 <= u32::MAX,
        picture::fits_memory(width as int, height as int),
        width * height * 2 <= data@.len(),
    ensures
        out.wf(),
        out.width == width,
        out.height == height,
        forall|x: int, y: int|
            out.covers(x, y) ==> #[trigger] out.at(x, y) == payload_pixel(
                Payload::Argb4444,
                data@,
                width as int,
                x,
                y,
            ),
{
    assert(0 <= width * height) by (nonlinear_arith);
    let count: usize = width as usize * height as usize;
    let mut pixels: Vec<Rgba> = Vec::new();
    for i in 0usize..count
        invariant
            count * 4 <= u32::MAX,
            count * 2 <= data@.len(),
            pixels@.len() == i,
            forall|k: int|
                0 <= k < i ==> #[trigger] pixels@[k] == color::argb4444(
                    bytes::le16(data@, 2 * k) as u16,
                ),
    {
        pixels.push(decode_argb4444(read_le16(data, 2 * i)));
    }
    let out = Picture { width, height, pixels };
    assert forall|x: int, y: int| out.covers(x, y) implies #[trigger] out.at(x, y)
        == payload_pixel(Payload::Argb4444, data@, width as int, x, y) by {
        picture::lemma_cell_in_grid(width as int, height as int, x, y);
    }
    out
}

/// Tells whether the bytes start as a DirectDraw surface does.
fn check_signature(data: &[u8]) -> (out: bool)
    ensures
        out == is_dds(data@),
{
    data.len() >= HEADER_BYTES && data[0] == 0x44 && data[1] == 0x44 && data[2] == 0x53 && data[3]
        == 0x20
}

/// Reads from the header how the texels are stored.
pub fn read_payload(data: &[u8]) -> (out: Payload)
    requires
        is_dds(data@),
    ensures
        out == dds_payload(data@),
{
    let flags: u32 = read_le32(data, 80);
    assert((flags & 0x4 != 0) == (flags / 4 % 2 == 1) && (flags & 0x40 != 0) == (flags / 64 % 2
        == 1)) by (bit_vector);
    if flags & 0x4 != 0 {
        if data[84] == 0x44 && data[85] == 0x58 && data[86] == 0x54 {
            match data[87] {
                0x31 => Payload::Blocks(BlockFormat::Dxt1),
                0x33 => Payload::Blocks(BlockFormat::Dxt3),
                0x35 => Payload::Blocks(BlockFormat::Dxt5),
                _ => Payload::Other,
            }
        } else {
            Payload::Other
        }
    } else if flags & 0x40 != 0 && read_le32(data, 88) == 16 {
        let r: u32 = read_le32(data, 92);
        let g: u32 = read_le32(data, 96);
        let b: u32 = read_le32(data, 100);
        let a: u32 = read_le32(data, 104);
        if r == 0xF800 && g == 0x07E0 && b == 0x001F {
            Payload::Rgb565
        } else if r == 0x0F00 && g == 0x00F0 && b == 0x000F && a == 0xF000 {
            Payload::Argb4444
        } else {
            Payload::Other
        }
    } else {
        Payload::Other
    }
}

/// Tells whether `load_dds` may be called on these bytes.
pub fn check_dds_fits(data: &[u8]) -> (out: bool)
    ensures
        out == dds_fits(data@),
{
    if !check_signature(data) {
        return true;
    }
    let width: u32 = read_le32(data, 16);
    let height: u32 = read_le32(data, 12);
    assert(0 <= width * height <= u32::MAX * u32::MAX) by (nonlinear_arith)
        requires
            0 <= width <= u32::MAX,
            0 <= height <= u32::MAX,
    ;
    let texels: u64 = width as u64 * height as u64;
    let counted: bool = texels <= 0x3FFF_FFFF && check_fits_memory(width, height);
    match read_payload(data) {
        Payload::Blocks(_) => counted,
        Payload::Rgb565 | Payload::Argb4444 => counted && 128 + texels * 2 <= data.len() as u64,
        Payload::Other => true,
    }
}

/// Loads a DirectDraw surface. Formats that are not decoded here are handed to the `image` crate.
pub fn load_dds(data: &[u8]) -> (out: Result<Texture, DdsError>)
    requires
        dds_fits(data@),
    ensures
        out matches Err(DdsError::NotDds) <==> !is_dds(data@),
        is_dds(data@) && dds_payload(data@) != Payload::Other ==> {
            &&& out matches Ok(t)
            &&& t@.wf()
            &&& t@.width == dds_width(data@)
            &&& t@.height == dds_height(data@)
            &&& t@.kind == PixelKind::Rgba8
            &&& forall|x: int, y: int|
                t@.covers(x, y) ==> #[trigger] t@.at(x, y) == texture::rgba_samples(
                    payload_pixel(dds_payload(data@), data@.skip(128), t@.width as int, x, y),
                )
        },
        is_dds(data@) && dds_payload(data@) == Payload::Other ==> match outside::image_dds(data@) {
            Some(decoded) => out matches Ok(t) && t@ == decoded,
            None => out matches Err(DdsError::Decoder(_)),
        },
{
    if !check_signature(data) {
        return Err(DdsError::NotDds);
    }
    let height: u32 = read_le32(data, 12);
    let width: u32 = read_le32(data, 16);
    let body = slice_subrange(data, HEADER_BYTES, data.len());
    assert(body@ == data@.skip(128));
    let decoded = match read_payload(data) {
        Payload::Blocks(BlockFormat::Dxt1) => decompress_dxt1(body, width, height),
        Payload::Blocks(BlockFormat::Dxt3) => decompress_dxt3(body, width, height),
        Payload::Blocks(BlockFormat::Dxt5) => decompress_dxt5(body, width, height),
        Payload::Rgb565 => convert_rgb565_to_rgba8(body, width, height),
        Payload::Argb4444 => convert_rgba4444_to_rgba8(body, width, height),
        Payload::Other => {
            return match outside::decode_dds(data) {
                Ok(image) => Ok(Texture { image }),
                Err(e) => Err(DdsError::Decoder(e)),
            };
        },
    };
    let out = Texture::from_picture(&decoded);
    assert forall|x: int, y: int| out@.covers(x, y) implies #[trigger] out@.at(x, y)
        == texture::rgba_samples(
        payload_pixel(dds_payload(data@), data@.skip(128), out@.width as int, x, y),
    ) by {
        picture::lemma_cell_in_grid(width as int, height as int, x, y);
        assert(decoded.at(x, y) == payload_pixel(
            dds_payload(data@),
            data@.skip(128),
            width as int,
            x,
            y,
        ));
    }
    Ok(out)
}

/// A surface whose words hold no alpha is opaque.
pub proof fn surfaces_without_alpha_are_opaque(body: Seq<u8>, width: int, x: int, y: int)
    ensures
        payload_pixel(Payload::Rgb565, body, width, x, y).a == 255,
{
}

/// A surface starts with the word whose bytes spell `DDS` and a blank, and has one hundred and
/// twenty-eight bytes or more.
pub proof fn signature_is_one_word(data: Seq<u8>)
    ensures
        is_dds(data) <==> data.len() >= 128 && data[0] + 0x100 * data[1] + 0x1_0000 * data[2]
            + 0x100_0000 * data[3] == 0x2053_4444,
{
}

/// The height stands in bytes twelve to fifteen and the width in the four that follow, low end first.
pub proof fn size_stands_in_the_header(data: Seq<u8>)
    ensures
        dds_height(data) == data[12] + 0x100 * data[13] + 0x1_0000 * data[14] + 0x100_0000
            * data[15],
        dds_width(data) == data[16] + 0x100 * data[17] + 0x1_0000 * data[18] + 0x100_0000
            * data[19],
{
}

/// How the texels are stored depends on two bits of the flags, the one worth four and the one worth
/// sixty-four, and on the pixel format after them: surfaces that agree on those are stored alike,
/// whatever the other bits are.
pub proof fn payload_depends_on_two_flags(data0: Seq<u8>, data1: Seq<u8>)
    requires
        data0.len() >= 128,
        data1.len() >= 128,
        data0[80] as int / 4 % 2 == data1[80] as int / 4 % 2,
        data0[80] as int / 64 % 2 == data1[80] as int / 64 % 2,
        data0.subrange(84, 108) == data1.subrange(84, 108),
    ensures
        dds_payload(data0) == dds_payload(data1),
{
    lemma_flag_bits(data0);
    lemma_flag_bits(data1);
    let (part0, part1) = (data0.subrange(84, 108), data1.subrange(84, 108));
    assert forall|i: int| 84 <= i < 108 implies #[trigger] data0[i] == data1[i] by {
        assert(part0[i - 84] == data0[i]);
        assert(part1[i - 84] == data1[i]);
    }
}

/// The two flags stand in the first byte of their word.
proof fn lemma_flag_bits(data: Seq<u8>)
    ensures
        bytes::le32(data, 80) / 4 % 2 == data[80] as int / 4 % 2,
        bytes::le32(data, 80) / 64 % 2 == data[80] as int / 64 % 2,
{
}

/// The headers of the five formats that are decoded here. With the flag worth four, the four bytes
/// `DXT1`, `DXT3` or `DXT5`. Without it and with the flag worth sixty-four, sixteen bits, and masks of
/// five, six and five bits, or of four bits each with alpha on top. Nothing else is one of them.
pub proof fn payload_is_told_by_the_header(data: Seq<u8>)
    ensures
        ({
            let coded = data[80] as int / 4 % 2 == 1;
            let plain = !coded && data[80] as int / 64 % 2 == 1;
            let code = data[84] + 0x100 * data[85] + 0x1_0000 * data[86] + 0x100_0000 * data[87];
            let count = data[88] + 0x100 * data[89] + 0x1_0000 * data[90] + 0x100_0000 * data[91];
            let red = data[92] + 0x100 * data[93] + 0x1_0000 * data[94] + 0x100_0000 * data[95];
            let green = data[96] + 0x100 * data[97] + 0x1_0000 * data[98] + 0x100_0000 * data[99];
            let blue = data[100] + 0x100 * data[101] + 0x1_0000 * data[102] + 0x100_0000 * data[103];
            let alpha = data[104] + 0x100 * data[105] + 0x1_0000 * data[106] + 0x100_0000
                * data[107];
            let dxt1 = coded && code == 0x3154_5844;
            let dxt3 = coded && code == 0x3354_5844;
            let dxt5 = coded && code == 0x3554_5844;
            let rgb = plain && count == 16 && red == 0xF800 && green == 0x07E0 && blue == 0x001F;
            let argb = plain && count == 16 && red == 0x0F00 && green == 0x00F0 && blue == 0x000F
                && alpha == 0xF000;
            &&& dds_payload(data) == Payload::Blocks(BlockFormat::Dxt1) <==> dxt1
            &&& dds_payload(data) == Payload::Blocks(BlockFormat::Dxt3) <==> dxt3
            &&& dds_payload(data) == Payload::Blocks(BlockFormat::Dxt5) <==> dxt5
            &&& dds_payload(data) == Payload::Rgb565 <==> rgb
            &&& dds_payload(data) == Payload::Argb4444 <==> argb
            &&& dds_payload(data) == Payload::Other <==> !(dxt1 || dxt3 || dxt5 || rgb || argb)
        }),
{
    lemma_flag_bits(data);
}

/// The texels of a surface of words follow one another row after row, two bytes each with the low
/// one first, and the top bits of the channels make up the word again.
pub proof fn words_of_a_surface_pack_back(body: Seq<u8>, width: int, x: int, y: int)
    ensures
        ({
            let word = body[2 * (y * width + x)] + 256 * body[2 * (y * width + x) + 1];
            let c = payload_pixel(Payload::Rgb565, body, width, x, y);
            let d = payload_pixel(Payload::Argb4444, body, width, x, y);
            &&& 2048 * (c.r as int / 8) + 32 * (c.g as int / 4) + c.b as int / 8 == word
            &&& c.r as int % 8 == c.r as int / 32
            &&& c.g as int % 4 == c.g as int / 64
            &&& c.b as int % 8 == c.b as int / 32
            &&& c.a == 255
            &&& 4096 * (d.a as int / 16) + 256 * (d.r as int / 16) + 16 * (d.g as int / 16) + d.b as int
                / 16 == word
            &&& d.a as int % 16 == d.a as int / 16
            &&& d.r as int % 16 == d.r as int / 16
            &&& d.g as int % 16 == d.g as int / 16
            &&& d.b as int % 16 == d.b as int / 16
        }),
{
    let word = bytes::le16(body, 2 * picture::cell_index(width, x, y)) as u16;
    color::rgb565_packs_back(word);
    color::argb4444_packs_back(word);
}

/// The texels of a compressed surface are those of its format.
pub proof fn compressed_surfaces_are_their_blocks(
    format: BlockFormat,
    body: Seq<u8>,
    width: int,
    x: int,
    y: int,
)
    ensures
        payload_pixel(Payload::Blocks(format), body, width, x, y) == format.pixel(body, width, x, y),
{
}

/// Every surface whose texels take at most as many bytes as a word can count, can be allocated, and
/// are all there where they are words, can be loaded; so can one that is handed on or is none.
pub proof fn surfaces_that_hold_their_texels_fit(data: Seq<u8>)
    requires
        ({
            let texels = dds_width(data) * dds_height(data);
            &&& texels * 4 <= u32::MAX
            &&& texels * 4 <= isize::MAX
            &&& 128 + texels * 2 <= data.len() || dds_payload(data) is Blocks
        }) || dds_payload(data) == Payload::Other || !is_dds(data),
    ensures
        dds_fits(data),
{
}

} // verus!
