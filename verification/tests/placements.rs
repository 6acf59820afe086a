use image::{DynamicImage, ImageBuffer, Luma, LumaA, Rgb};
use rose_zone_converter::color::Rgba;
use rose_zone_converter::picture::{blank, check_fits_memory, Picture};
use rose_zone_converter::rotation::{apply_tile_rotation, TileRotation};
use rose_zone_converter::texture::Texture;

fn sample(width: u32, height: u32) -> Picture {
    let mut p = blank(width, height);
    for y in 0..height {
        for x in 0..width {
            p.put(x, y, Rgba { r: x as u8, g: y as u8, b: (3 * x + 7 * y) as u8, a: 200 });
        }
    }
    p
}

fn placed(p: &Picture, rotation: TileRotation) -> Picture {
    apply_tile_rotation(&Texture::from_picture(p), rotation).to_picture()
}

#[test]
fn placements_move_cells() {
    for (width, height) in [(5u32, 3u32), (3, 5), (1, 4), (4, 4)] {
        let p = sample(width, height);
        for y in 0..height {
            for x in 0..width {
                let (mx, my) = (width - 1 - x, height - 1 - y);
                let c = p.get(x, y);
                assert_eq!(placed(&p, TileRotation::Unknown).get(x, y), c);
                assert_eq!(placed(&p, TileRotation::Upright).get(x, y), c);
                assert_eq!(placed(&p, TileRotation::FlipHorizontal).get(mx, y), c);
                assert_eq!(placed(&p, TileRotation::FlipVertical).get(x, my), c);
                assert_eq!(placed(&p, TileRotation::Flip).get(mx, my), c);
                assert_eq!(placed(&p, TileRotation::Clockwise90).get(my, x), c);
                assert_eq!(placed(&p, TileRotation::CounterClockwise90).get(y, mx), c);
            }
        }
    }
}

#[test]
fn textures_without_cells_can_be_read_and_placed() {
    for (width, height) in [(0u32, 0u32), (0, 1), (0, 2), (0, 3), (1, 0), (5, 0)] {
        let t = Texture::from_picture(&blank(width, height));
        let p = t.to_picture();
        assert_eq!((p.width, p.height, p.pixels.len()), (width, height, 0));
        let rotations = [
            TileRotation::Unknown,
            TileRotation::Upright,
            TileRotation::FlipHorizontal,
            TileRotation::FlipVertical,
            TileRotation::Flip,
        ];
        for rotation in rotations {
            let p = apply_tile_rotation(&t, rotation).to_picture();
            assert_eq!((p.width, p.height, p.pixels.len()), (width, height, 0));
        }
        for rotation in [TileRotation::Clockwise90, TileRotation::CounterClockwise90] {
            let p = apply_tile_rotation(&t, rotation).to_picture();
            assert_eq!((p.width, p.height, p.pixels.len()), (height, width, 0));
        }
    }
}

#[test]
fn a_clockwise_turn_brings_the_left_column_to_the_top() {
    let p = sample(2, 3);
    let q = placed(&p, TileRotation::Clockwise90);
    assert_eq!((q.width, q.height), (3, 2));
    assert_eq!(q.get(0, 0), p.get(0, 2));
    assert_eq!(q.get(2, 0), p.get(0, 0));
    assert_eq!(q.get(2, 1), p.get(1, 0));
}

#[test]
fn a_counterclockwise_turn_brings_the_right_column_to_the_top() {
    let p = sample(2, 3);
    let q = placed(&p, TileRotation::CounterClockwise90);
    assert_eq!((q.width, q.height), (3, 2));
    assert_eq!(q.get(0, 0), p.get(1, 0));
    assert_eq!(q.get(2, 0), p.get(1, 2));
    assert_eq!(q.get(0, 1), p.get(0, 0));
}

#[test]
fn placements_can_be_taken_back() {
    let p = sample(4, 7);
    let pairs = [
        (TileRotation::Upright, TileRotation::Upright),
        (TileRotation::FlipHorizontal, TileRotation::FlipHorizontal),
        (TileRotation::FlipVertical, TileRotation::FlipVertical),
        (TileRotation::Flip, TileRotation::Flip),
        (TileRotation::Clockwise90, TileRotation::CounterClockwise90),
        (TileRotation::CounterClockwise90, TileRotation::Clockwise90),
    ];
    for (there, back) in pairs {
        let q = placed(&placed(&p, there), back);
        assert_eq!((q.width, q.height), (4, 7));
        assert_eq!(q.pixels, p.pixels);
    }
}

#[test]
fn half_a_turn() {
    let p = sample(6, 2);
    let half = placed(&p, TileRotation::Flip);
    let mirrored = placed(&placed(&p, TileRotation::FlipHorizontal), TileRotation::FlipVertical);
    assert_eq!(half.pixels, mirrored.pixels);
    let twice = placed(&placed(&p, TileRotation::Clockwise90), TileRotation::Clockwise90);
    assert_eq!(half.pixels, twice.pixels);
    assert_eq!(half.get(0, 0), p.get(5, 1));
}

#[test]
fn placements_keep_the_pixel_format() {
    let words = ImageBuffer::from_raw(2, 1, vec![1u16, 2, 3, 40000, 50000, 60000]).unwrap();
    let t = Texture { image: DynamicImage::ImageRgb16(words) };
    match apply_tile_rotation(&t, TileRotation::Clockwise90).image {
        DynamicImage::ImageRgb16(img) => {
            assert_eq!((img.width(), img.height()), (1, 2));
            assert_eq!(img.into_raw(), vec![1, 2, 3, 40000, 50000, 60000]);
        }
        _ => panic!("another kind"),
    }
    let floats = ImageBuffer::from_raw(2, 1, vec![0.1f32, 0.2, 7.5, -1.0, 0.5, 0.25]).unwrap();
    let t = Texture { image: DynamicImage::ImageRgb32F(floats) };
    match apply_tile_rotation(&t, TileRotation::FlipHorizontal).image {
        DynamicImage::ImageRgb32F(img) => {
            assert_eq!(img.into_raw(), vec![-1.0, 0.5, 0.25, 0.1, 0.2, 7.5]);
        }
        _ => panic!("another kind"),
    }
}

#[test]
fn placements_keep_transparency() {
    let raw = vec![1u8, 2, 3, 0, 4, 5, 6, 0];
    let t = Texture { image: DynamicImage::ImageRgba8(ImageBuffer::from_raw(1, 2, raw).unwrap()) };
    for rotation in [TileRotation::Clockwise90, TileRotation::FlipVertical, TileRotation::Flip] {
        let p = apply_tile_rotation(&t, rotation).to_picture();
        assert!(p.pixels.iter().all(|c| c.a == 0));
    }
}

fn read(image: DynamicImage) -> Vec<Rgba> {
    Texture { image }.to_picture().pixels
}

fn rgba(r: u8, g: u8, b: u8, a: u8) -> Rgba {
    Rgba { r, g, b, a }
}

#[test]
fn grey_stands_for_three_channels() {
    let grey = ImageBuffer::<Luma<u8>, Vec<u8>>::from_raw(1, 1, vec![77]).unwrap();
    assert_eq!(read(DynamicImage::ImageLuma8(grey)), vec![rgba(77, 77, 77, 255)]);
    let grey = ImageBuffer::<LumaA<u8>, Vec<u8>>::from_raw(1, 1, vec![77, 5]).unwrap();
    assert_eq!(read(DynamicImage::ImageLumaA8(grey)), vec![rgba(77, 77, 77, 5)]);
    let grey = ImageBuffer::<LumaA<u16>, Vec<u16>>::from_raw(1, 1, vec![257, 65535]).unwrap();
    assert_eq!(read(DynamicImage::ImageLumaA16(grey)), vec![rgba(1, 1, 1, 255)]);
}

#[test]
fn words_are_scaled_and_rounded() {
    for v in [0u16, 1, 128, 129, 256, 257, 385, 386, 32768, 65406, 65407, 65535] {
        let img = ImageBuffer::<Luma<u16>, Vec<u16>>::from_raw(1, 1, vec![v]).unwrap();
        let byte = ((v as u32 + 128) / 257) as u8;
        assert_eq!(read(DynamicImage::ImageLuma16(img)), vec![rgba(byte, byte, byte, 255)]);
    }
    let img = ImageBuffer::<Rgb<u16>, Vec<u16>>::from_raw(1, 1, vec![0, 257, 65535]).unwrap();
    assert_eq!(read(DynamicImage::ImageRgb16(img)), vec![rgba(0, 1, 255, 255)]);
}

#[test]
fn floats_are_scaled_and_cut() {
    let img = ImageBuffer::<Rgb<f32>, Vec<f32>>::from_raw(1, 1, vec![0.0, 1.0, 0.5]).unwrap();
    assert_eq!(read(DynamicImage::ImageRgb32F(img)), vec![rgba(0, 255, 128, 255)]);
    let img = ImageBuffer::from_raw(1, 1, vec![-3.0f32, 9.0, 0.1, 0.0]).unwrap();
    assert_eq!(read(DynamicImage::ImageRgba32F(img)), vec![rgba(0, 255, 26, 0)]);
}

#[test]
fn a_picture_keeps_its_colours_as_a_texture() {
    let p = sample(3, 4);
    let q = Texture::from_picture(&p).to_picture();
    assert_eq!((q.width, q.height), (3, 4));
    assert_eq!(q.pixels, p.pixels);
}

#[test]
fn blank_pictures_are_clear() {
    let p = blank(3, 2);
    assert_eq!(p.pixels, vec![Rgba { r: 0, g: 0, b: 0, a: 0 }; 6]);
}

#[test]
fn huge_pictures_are_told_apart() {
    assert!(check_fits_memory(0, u32::MAX));
    assert!(check_fits_memory(65536, 1024));
    assert!(!check_fits_memory(u32::MAX, u32::MAX));
}
