//! The calls into the `image` crate.
use image::GenericImageView;
use vstd::prelude::*;

use crate::color::Rgba;
use crate::picture;
use crate::picture::Picture;
use crate::rotation::TileRotation;
use crate::texture;
use crate::texture::Contents;

verus! {

/// The error of the `image` crate. Nothing is said of what it holds.
#[verifier::external_type_specification]
#[verifier::external_body]
pub struct ExImageError(image::ImageError);

/// An image of the `image` crate. What it holds is given by `image_contents`.
#[verifier::external_type_specification]
#[verifier::external_body]
pub struct ExDynamicImage(image::DynamicImage);

/// What an image holds: its size, which variant of `DynamicImage` it is, and the samples of its
/// pixels, row by row.
pub uninterp spec fn image_contents(img: image::DynamicImage) -> Contents;

/// The byte that `image` makes of a float sample with this bit pattern when it reads an eight bit
/// pixel.
pub uninterp spec fn float_byte(bits: u32) -> u8;

/// `DynamicImage::width` is the width, and the image holds a pixel for each column of each row.
pub assume_specification[ image::DynamicImage::width ](img: &image::DynamicImage) -> (out: u32)
    ensures
        out == image_contents(*img).width,
        image_contents(*img).pixels.len() == out * image_contents(*img).height,
;

/// `DynamicImage::height` is the height.
pub assume_specification[ image::DynamicImage::height ](img: &image::DynamicImage) -> (out: u32)
    ensures
        out == image_contents(*img).height,
;

/// `DynamicImage::clone` holds the same, which is a pixel for each cell.
pub assume_specification[ <image::DynamicImage as Clone>::clone ](
    img: &image::DynamicImage,
) -> (out: image::DynamicImage)
    ensures
        image_contents(out) == image_contents(*img),
        image_contents(out).wf(),
;

/// `DynamicImage::fliph` mirrors the columns.
pub assume_specification[ image::DynamicImage::fliph ](
    img: &image::DynamicImage,
) -> (out: image::DynamicImage)
    ensures
        image_contents(out) == TileRotation::FlipHorizontal.turned(image_contents(*img)),
;

/// `DynamicImage::flipv` mirrors the rows.
pub assume_specification[ image::DynamicImage::flipv ](
    img: &image::DynamicImage,
) -> (out: image::DynamicImage)
    ensures
        image_contents(out) == TileRotation::FlipVertical.turned(image_contents(*img)),
;

/// `DynamicImage::rotate180` mirrors the columns and the rows.
pub assume_specification[ image::DynamicImage::rotate180 ](
    img: &image::DynamicImage,
) -> (out: image::DynamicImage)
    ensures
        image_contents(out) == TileRotation::Flip.turned(image_contents(*img)),
;

/// `DynamicImage::rotate90` turns an image clockwise: the left column becomes the top row, from
/// right to left.
pub assume_specification[ image::DynamicImage::rotate90 ](
    img: &image::DynamicImage,
) -> (out: image::DynamicImage)
    ensures
        image_contents(out) == TileRotation::Clockwise90.turned(image_contents(*img)),
;

/// `DynamicImage::rotate270` turns an image counterclockwise: the right column becomes the top row.
pub assume_specification[ image::DynamicImage::rotate270 ](
    img: &image::DynamicImage,
) -> (out: image::DynamicImage)
    ensures
        image_contents(out) == TileRotation::CounterClockwise90.turned(image_contents(*img)),
;

/// Calls `RgbaImage::from_raw` and makes the outcome a `DynamicImage`. Claims that it holds the
/// colours of the picture.
#[verifier::external_body]
pub(crate) fn image_of(p: &Picture) -> (out: image::DynamicImage)
    requires
        p.wf(),
        picture::fits_memory(p.width as int, p.height as int),
    ensures
        image_contents(out) == texture::rgba_contents(p@),
{
    let cells = p.pixels.iter().map(|c| [c.r, c.g, c.b, c.a]).collect::<Vec<[u8; 4]>>();
    let buffer = image::RgbaImage::from_raw(p.width, p.height, cells.concat()).unwrap();
    image::DynamicImage::ImageRgba8(buffer)
}

/// Calls `GenericImageView::pixels`, which reads every cell of a `DynamicImage` as an eight bit
/// colour. Claims the size and the colour of each cell. What a float sample other than zero and one
/// reads as is named and left unsaid. An image without columns is left out unless it has at most
/// one row: the iterator would read a cell of the second row.
#[verifier::external_body]
pub(crate) fn read_pixels(img: &image::DynamicImage) -> (out: Picture)
    requires
        image_contents(*img).width > 0 || image_contents(*img).height <= 1,
    ensures
        out.wf(),
        out.width == image_contents(*img).width,
        out.height == image_contents(*img).height,
        forall|x: int, y: int|
            out.covers(x, y) ==> #[trigger] out.at(x, y) == image_contents(*img).rgba(x, y),
        image_contents(*img).kind.is_float() ==> forall|x: int, y: int|
            out.covers(x, y) ==> (#[trigger] out.at(x, y)).r == float_byte(
                image_contents(*img).at(x, y)[0],
            ),
{
    Picture {
        width: img.width(),
        height: img.height(),
        pixels: img.pixels().map(|p| Rgba { r: p.2[0], g: p.2[1], b: p.2[2], a: p.2[3] }).collect(),
    }
}

/// What `image` decodes from the bytes of a DDS file; `None` where it refuses them.
pub uninterp spec fn image_dds(data: Seq<u8>) -> Option<Contents>;

/// Calls `image::load_from_memory_with_format` for the DDS format. Claims that the outcome is
/// settled by the bytes alone. What the decoder makes of the bytes, and what its error holds, is
/// left unsaid.
#[verifier::external_body]
pub(crate) fn decode_dds(data: &[u8]) -> (out: Result<image::DynamicImage, image::ImageError>)
    ensures
        match out {
            Ok(img) => image_dds(data@) == Some(image_contents(img)),
            Err(_) => image_dds(data@) is None,
        },
{
    image::load_from_memory_with_format(data, image::ImageFormat::Dds)
}

/// The longest side that an image may be resized to. Up to here the centre of every column and row
/// of the result is exact in the single precision arithmetic of the resampler.
pub const MAX_SIDE: u32 = 0x80_0000;

/// The longest side that an image with a longer side than `MAX_SIDE` may be resized to. Up to here
/// the places of the columns and rows that go into a result are off by at most a quarter of the
/// step between two columns or rows of the result.
pub const MAX_SMALL_SIDE: u32 = 0x10_0000;

/// Whether a side can be resized without the weights of the resampler adding up to nothing.
pub open spec fn side_resizable(side: int, new_side: int) -> bool {
    &&& new_side <= MAX_SIDE
    &&& side <= MAX_SIDE || new_side <= MAX_SMALL_SIDE
}

/// Whether an image of `width` by `height` can be resized to `new_width` by `new_height`: the
/// weights add up, and the resampler's intermediate image of four floats for each cell and the
/// result can be allocated.
pub open spec fn resizable(width: int, height: int, new_width: int, new_height: int) -> bool {
    &&& side_resizable(width, new_width)
    &&& side_resizable(height, new_height)
    &&& width * new_height * 16 <= isize::MAX
    &&& new_width * new_height * 16 <= isize::MAX
}

/// Whether `out` is what `image` may make of `source` when it resizes it to the size of `out` with
/// the Lanczos filter of window three. The weights go through the sine of `std`, whose precision
/// is left to the platform, so this relates the outcome to the source and does not name it.
pub uninterp spec fn is_lanczos3(source: Contents, out: Contents) -> bool;

/// Calls `DynamicImage::resize_exact` with `FilterType::Lanczos3`. Claims the size and the kind of
/// the result, that it is a Lanczos resampling of the source, that an image which already has the
/// size is copied, that one without cells gives zeros, and that an alpha which is zero throughout
/// stays so. Which samples the resampling gives otherwise is left unsaid.
#[verifier::external_body]
pub(crate) fn resize_exact(
    source: &image::DynamicImage,
    new_width: u32,
    new_height: u32,
) -> (out: image::DynamicImage)
    requires
        resizable(
            image_contents(*source).width as int,
            image_contents(*source).height as int,
            new_width as int,
            new_height as int,
        ),
    ensures
        image_contents(out).wf(),
        image_contents(out).width == new_width,
        image_contents(out).height == new_height,
        image_contents(out).kind == image_contents(*source).kind,
        is_lanczos3(image_contents(*source), image_contents(out)),
        image_contents(*source).width == new_width && image_contents(*source).height == new_height
            ==> image_contents(out) == image_contents(*source),
        image_contents(*source).width == 0 || image_contents(*source).height == 0
            ==> image_contents(out).is_zero(),
        image_contents(*source).is_transparent() ==> image_contents(out).is_transparent(),
{
    source.resize_exact(new_width, new_height, image::imageops::FilterType::Lanczos3)
}

} // verus!
