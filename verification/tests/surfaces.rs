use rose_zone_converter::color::Rgba;
use rose_zone_converter::dds::{
    check_dds_fits, convert_rgb565_to_rgba8, convert_rgba4444_to_rgba8, load_dds, read_payload,
    DdsError, Payload,
};
use rose_zone_converter::dxt::{decompress_dxt1, decompress_dxt3, decompress_dxt5, BlockFormat};
use rose_zone_converter::picture::Picture;

fn rgba(r: u8, g: u8, b: u8, a: u8) -> Rgba {
    Rgba { r, g, b, a }
}

fn put32(data: &mut [u8], at: usize, v: u32) {
    data[at..at + 4].copy_from_slice(&v.to_le_bytes());
}

fn header(width: u32, height: u32, flags: u32, code: &[u8; 4]) -> Vec<u8> {
    let mut data = vec![0u8; 128];
    data[0..4].copy_from_slice(b"DDS ");
    put32(&mut data, 4, 124);
    put32(&mut data, 8, 0x1007);
    put32(&mut data, 12, height);
    put32(&mut data, 16, width);
    put32(&mut data, 76, 32);
    put32(&mut data, 80, flags);
    data[84..88].copy_from_slice(code);
    data
}

fn words(width: u32, height: u32, masks: [u32; 4], texels: &[u16]) -> Vec<u8> {
    let mut data = header(width, height, 0x40, &[0; 4]);
    put32(&mut data, 88, 16);
    for i in 0..4 {
        put32(&mut data, 92 + 4 * i, masks[i]);
    }
    for t in texels {
        data.extend_from_slice(&t.to_le_bytes());
    }
    data
}

fn loaded(data: &[u8]) -> Picture {
    assert!(check_dds_fits(data));
    match load_dds(data) {
        Ok(t) => t.to_picture(),
        Err(e) => panic!("{:?}", e),
    }
}

const RED: u16 = 0xF800;
const BLUE: u16 = 0x001F;

fn color_half(c0: u16, c1: u16, rows: [u8; 4]) -> Vec<u8> {
    let mut out = Vec::new();
    out.extend_from_slice(&c0.to_le_bytes());
    out.extend_from_slice(&c1.to_le_bytes());
    out.extend_from_slice(&rows);
    out
}

#[test]
fn dxt1_descending_block_has_two_thirds() {
    let block = color_half(RED, BLUE, [0xE4, 0, 0, 0x1B]);
    let p = decompress_dxt1(&block, 4, 4);
    assert_eq!(p.pixels.len(), 16);
    assert_eq!(p.get(0, 0), rgba(255, 0, 0, 255));
    assert_eq!(p.get(1, 0), rgba(0, 0, 255, 255));
    assert_eq!(p.get(2, 0), rgba(170, 0, 85, 255));
    assert_eq!(p.get(3, 0), rgba(85, 0, 170, 255));
    assert_eq!(p.get(2, 1), rgba(255, 0, 0, 255));
    assert_eq!(p.get(0, 3), rgba(85, 0, 170, 255));
    assert_eq!(p.get(3, 3), rgba(255, 0, 0, 255));
}

#[test]
fn dxt1_ascending_block_has_a_mean_and_a_hole() {
    let block = color_half(BLUE, RED, [0xE4, 0, 0, 0]);
    let p = decompress_dxt1(&block, 4, 4);
    assert_eq!(p.get(0, 0), rgba(0, 0, 255, 255));
    assert_eq!(p.get(1, 0), rgba(255, 0, 0, 255));
    assert_eq!(p.get(2, 0), rgba(127, 0, 127, 255));
    assert_eq!(p.get(3, 0), rgba(0, 0, 0, 0));
}

#[test]
fn dxt1_equal_colours_leave_a_hole() {
    let block = color_half(RED, RED, [0xFF, 0xAA, 0, 0]);
    let p = decompress_dxt1(&block, 4, 4);
    assert_eq!(p.get(0, 0), rgba(0, 0, 0, 0));
    assert_eq!(p.get(0, 1), rgba(255, 0, 0, 255));
}

#[test]
fn blocks_reach_past_odd_sizes() {
    let mut data = color_half(RED, BLUE, [0x00; 4]);
    data.extend(color_half(RED, BLUE, [0x55; 4]));
    data.extend(color_half(RED, BLUE, [0xAA; 4]));
    data.extend(color_half(RED, BLUE, [0xFF; 4]));
    let p = decompress_dxt1(&data, 5, 6);
    assert_eq!((p.width, p.height, p.pixels.len()), (5, 6, 30));
    assert_eq!(p.get(3, 3), rgba(255, 0, 0, 255));
    assert_eq!(p.get(4, 0), rgba(0, 0, 255, 255));
    assert_eq!(p.get(0, 5), rgba(170, 0, 85, 255));
    assert_eq!(p.get(4, 5), rgba(85, 0, 170, 255));
}

#[test]
fn missing_blocks_stay_clear() {
    let mut data = color_half(RED, BLUE, [0x00; 4]);
    data.extend_from_slice(&[1, 2, 3, 4, 5, 6, 7]);
    let p = decompress_dxt1(&data, 8, 8);
    assert_eq!(p.get(0, 0), rgba(255, 0, 0, 255));
    assert_eq!(p.get(4, 0), rgba(0, 0, 0, 0));
    assert_eq!(p.get(7, 7), rgba(0, 0, 0, 0));
}

#[test]
fn empty_pictures_have_no_texels() {
    let p = decompress_dxt1(&[], 0, 7);
    assert_eq!((p.width, p.height, p.pixels.len()), (0, 7, 0));
    let p = decompress_dxt5(&[], 3, 0);
    assert_eq!((p.width, p.height, p.pixels.len()), (3, 0, 0));
}

#[test]
fn surfaces_without_columns_load() {
    for (width, height) in [(0, 2), (0, 3), (3, 0)] {
        let p = loaded(&header(width, height, 0x4, b"DXT1"));
        assert_eq!((p.width, p.height, p.pixels.len()), (width, height, 0));
    }
}

fn noise(count: usize, seed: usize) -> Vec<u8> {
    (0..count).map(|i| ((i + seed) * 7919 % 1013 % 256) as u8).collect()
}

#[test]
fn truncated_data_keeps_its_blocks() {
    let full = noise(16 * 6, 1);
    let whole = decompress_dxt5(&full, 9, 7);
    for length in 0..full.len() {
        let p = decompress_dxt5(&full[..length], 9, 7);
        for y in 0..7u32 {
            for x in 0..9u32 {
                let block = (y / 4 * 3 + x / 4) as usize;
                let wanted = if block < length / 16 { whole.get(x, y) } else { rgba(0, 0, 0, 0) };
                assert_eq!(p.get(x, y), wanted);
            }
        }
    }
}

#[test]
fn alpha_halves_do_not_touch_colours() {
    let data3 = noise(16 * 4, 5);
    let mut data5 = noise(16 * 4, 600);
    for i in 0..data5.len() {
        if i % 16 >= 8 {
            data5[i] = data3[i];
        }
    }
    let p = decompress_dxt3(&data3, 7, 8);
    let q = decompress_dxt5(&data5, 7, 8);
    for (c, d) in p.pixels.iter().zip(&q.pixels) {
        assert_eq!((c.r, c.g, c.b), (d.r, d.g, d.b));
    }
}

#[test]
fn dxt1_is_the_colour_half_of_dxt5() {
    let mut data1 = Vec::new();
    let mut data5 = Vec::new();
    for b in 0..4u8 {
        let half = color_half(0xF000 + b as u16, 0x0F00 - b as u16, [0xE4 + b, 0x1B, 7 * b, 0xFF]);
        data1.extend_from_slice(&half);
        data5.extend(noise(8, b as usize));
        data5.extend_from_slice(&half);
    }
    let p = decompress_dxt1(&data1, 8, 5);
    let q = decompress_dxt5(&data5, 8, 5);
    for (c, d) in p.pixels.iter().zip(&q.pixels) {
        assert_eq!((c.r, c.g, c.b, c.a), (d.r, d.g, d.b, 255));
    }
}

#[test]
fn dxt3_alpha_is_a_nibble_written_twice() {
    let mut data = vec![0x10, 0x32, 0x54, 0x76, 0x98, 0xBA, 0xDC, 0xFE];
    data.extend(color_half(BLUE, RED, [0xE4, 0, 0, 0]));
    let p = decompress_dxt3(&data, 4, 4);
    for t in 0..16u32 {
        assert_eq!(p.get(t % 4, t / 4).a, 17 * t as u8);
    }
    assert_eq!(p.get(2, 0), rgba(85, 0, 170, 34));
    assert_eq!(p.get(3, 0), rgba(170, 0, 85, 51));
}

#[test]
fn dxt3_and_dxt1_agree_on_descending_colours() {
    let half = color_half(RED, BLUE, [0xE4, 0x1B, 0x93, 0x39]);
    let mut data = vec![0xFF; 8];
    data.extend_from_slice(&half);
    assert_eq!(decompress_dxt3(&data, 4, 4).pixels, decompress_dxt1(&half, 4, 4).pixels);
}

fn ramp_bits(choices: [u64; 16]) -> [u8; 6] {
    let mut bits = 0u64;
    for t in 0..16 {
        bits |= choices[t] << (3 * t);
    }
    let b = bits.to_le_bytes();
    [b[0], b[1], b[2], b[3], b[4], b[5]]
}

#[test]
fn dxt5_descending_ramp_has_six_steps() {
    let mut data = vec![210, 70];
    data.extend_from_slice(&ramp_bits([0, 1, 2, 3, 4, 5, 6, 7, 7, 6, 5, 4, 3, 2, 1, 0]));
    data.extend(color_half(RED, BLUE, [0xE4, 0, 0, 0]));
    let p = decompress_dxt5(&data, 4, 4);
    let ramp = [210, 70, 190, 170, 150, 130, 110, 90];
    for t in 0..8u32 {
        assert_eq!(p.get(t % 4, t / 4).a, ramp[t as usize]);
        assert_eq!(p.get(3 - t % 4, 3 - t / 4).a, ramp[t as usize]);
    }
    assert_eq!(p.get(2, 0), rgba(170, 0, 85, 190));
}

#[test]
fn dxt5_ascending_ramp_has_four_steps_and_extremes() {
    let mut data = vec![10, 63];
    data.extend_from_slice(&ramp_bits([0, 1, 2, 3, 4, 5, 6, 7, 0, 0, 0, 0, 0, 0, 0, 7]));
    data.extend(color_half(RED, BLUE, [0; 4]));
    let p = decompress_dxt5(&data, 4, 4);
    let ramp = [10, 63, 20, 31, 41, 52, 0, 255];
    for t in 0..8u32 {
        assert_eq!(p.get(t % 4, t / 4).a, ramp[t as usize]);
    }
    assert_eq!(p.get(3, 3).a, 255);
}

#[test]
fn dxt5_does_not_punch_holes() {
    let mut data = vec![255, 0, 0, 0, 0, 0, 0, 0];
    data.extend(color_half(BLUE, RED, [0xFF; 4]));
    let p = decompress_dxt5(&data, 1, 1);
    assert_eq!(p.get(0, 0), rgba(170, 0, 85, 255));
}

#[test]
fn a_texel_depends_on_its_own_block() {
    let mut a = color_half(RED, BLUE, [0xE4; 4]);
    let mut b = a.clone();
    a.extend(color_half(RED, BLUE, [0; 4]));
    b.extend(color_half(BLUE, RED, [0xFF; 4]));
    let p = decompress_dxt1(&a, 8, 4);
    let q = decompress_dxt1(&b, 8, 4);
    for t in 0..16u32 {
        assert_eq!(p.get(t % 4, t / 4), q.get(t % 4, t / 4));
    }
    assert_ne!(p.get(4, 0), q.get(4, 0));
}

#[test]
fn words_of_five_six_and_five_bits() {
    let p = convert_rgb565_to_rgba8(&[0x00, 0xF8, 0x1F, 0x00, 0xFF], 1, 2);
    assert_eq!(p.pixels, vec![rgba(255, 0, 0, 255), rgba(0, 0, 255, 255)]);
}

#[test]
fn words_of_four_nibbles() {
    let p = convert_rgba4444_to_rgba8(&[0x34, 0x12, 0xFF, 0x0F], 2, 1);
    assert_eq!(p.pixels, vec![rgba(34, 51, 68, 17), rgba(255, 255, 255, 0)]);
}

#[test]
fn payload_comes_from_the_header() {
    let formats = [
        (b"DXT1", Payload::Blocks(BlockFormat::Dxt1)),
        (b"DXT3", Payload::Blocks(BlockFormat::Dxt3)),
        (b"DXT5", Payload::Blocks(BlockFormat::Dxt5)),
        (b"DXT2", Payload::Other),
        (b"DX10", Payload::Other),
        (b"BC1 ", Payload::Other),
    ];
    for (code, payload) in formats {
        assert_eq!(read_payload(&header(4, 4, 0x4, code)), payload);
    }
    assert_eq!(read_payload(&header(4, 4, 0x1, b"DXT1")), Payload::Other);
    let rgb = [0xF800, 0x07E0, 0x001F, 0];
    let argb = [0x0F00, 0x00F0, 0x000F, 0xF000];
    assert_eq!(read_payload(&words(1, 1, rgb, &[0])), Payload::Rgb565);
    assert_eq!(read_payload(&words(1, 1, argb, &[0])), Payload::Argb4444);
    assert_eq!(read_payload(&words(1, 1, [0x0F00, 0x00F0, 0x000F, 0], &[0])), Payload::Other);
    assert_eq!(read_payload(&words(1, 1, [0x7C00, 0x03E0, 0x001F, 0], &[0])), Payload::Other);
    let mut wide = words(1, 1, rgb, &[0]);
    put32(&mut wide, 88, 32);
    assert_eq!(read_payload(&wide), Payload::Other);
}

#[test]
fn four_character_code_wins_over_masks() {
    let mut data = words(1, 1, [0xF800, 0x07E0, 0x001F, 0], &[0]);
    put32(&mut data, 80, 0x44);
    assert_eq!(read_payload(&data), Payload::Other);
    data[84..88].copy_from_slice(b"DXT1");
    assert_eq!(read_payload(&data), Payload::Blocks(BlockFormat::Dxt1));
}

#[test]
fn not_a_surface() {
    let short = &header(4, 4, 0x4, b"DXT1")[..127];
    assert!(matches!(load_dds(short), Err(DdsError::NotDds)));
    let mut data = header(4, 4, 0x4, b"DXT1");
    data[3] = b'!';
    assert!(matches!(load_dds(&data), Err(DdsError::NotDds)));
    assert!(matches!(load_dds(&[]), Err(DdsError::NotDds)));
}

#[test]
fn loads_compressed_surfaces() {
    let mut data = header(4, 4, 0x4, b"DXT1");
    data.extend(color_half(RED, BLUE, [0xE4; 4]));
    let p = loaded(&data);
    assert_eq!((p.width, p.height), (4, 4));
    assert_eq!(p.get(2, 3), rgba(170, 0, 85, 255));

    let mut data = header(2, 1, 0x4, b"DXT3");
    data.extend_from_slice(&[0x21, 0, 0, 0, 0, 0, 0, 0]);
    data.extend(color_half(RED, BLUE, [0x04, 0, 0, 0]));
    let p = loaded(&data);
    assert_eq!(p.pixels, vec![rgba(255, 0, 0, 17), rgba(0, 0, 255, 34)]);

    let mut data = header(1, 2, 0x4, b"DXT5");
    data.extend_from_slice(&[9, 4, 0, 0x10, 0, 0, 0, 0]);
    data.extend(color_half(RED, BLUE, [0x00, 0x01, 0, 0]));
    let p = loaded(&data);
    assert_eq!(p.pixels, vec![rgba(255, 0, 0, 9), rgba(0, 0, 255, 4)]);
}

#[test]
fn loads_packed_surfaces() {
    let p = loaded(&words(2, 1, [0xF800, 0x07E0, 0x001F, 0], &[RED, BLUE]));
    assert_eq!(p.pixels, vec![rgba(255, 0, 0, 255), rgba(0, 0, 255, 255)]);
    let p = loaded(&words(1, 2, [0x0F00, 0x00F0, 0x000F, 0xF000], &[0x1234, 0xFEDC]));
    assert_eq!((p.width, p.height), (1, 2));
    assert_eq!(p.pixels, vec![rgba(34, 51, 68, 17), rgba(238, 221, 204, 255)]);
}

#[test]
fn other_surfaces_go_to_the_image_crate() {
    let mut data = header(4, 4, 0x4, b"DX10");
    for word in [71u32, 3, 0, 1, 0] {
        data.extend_from_slice(&word.to_le_bytes());
    }
    data.extend(color_half(RED, BLUE, [0x00, 0x55, 0xAA, 0xFF]));
    let p = loaded(&data);
    let wanted = image::load_from_memory_with_format(&data, image::ImageFormat::Dds).unwrap();
    assert_eq!(load_dds(&data).unwrap().image, wanted);
    let wanted = wanted.to_rgba8();
    assert_eq!((p.width, p.height), (4, 4));
    assert_eq!(p.get(1, 0), rgba(255, 0, 0, 255));
    assert_eq!(p.get(2, 1), rgba(0, 0, 255, 255));
    for t in 0..16u32 {
        let c = p.get(t % 4, t / 4);
        assert_eq!(wanted.get_pixel(t % 4, t / 4).0, [c.r, c.g, c.b, c.a]);
    }
}

#[test]
fn surfaces_decoded_here_are_eight_bit_images() {
    let data = words(2, 1, [0xF800, 0x07E0, 0x001F, 0], &[RED, BLUE]);
    match load_dds(&data).unwrap().image {
        image::DynamicImage::ImageRgba8(img) => {
            assert_eq!(img.into_raw(), vec![255, 0, 0, 255, 0, 0, 255, 255]);
        }
        _ => panic!("another kind"),
    }
}

#[test]
fn the_image_crate_may_refuse() {
    let data = header(4, 4, 0x4, b"XXXX");
    assert!(check_dds_fits(&data));
    assert!(matches!(load_dds(&data), Err(DdsError::Decoder(_))));
    let data = header(4, 4, 0, &[0; 4]);
    assert!(matches!(load_dds(&data), Err(DdsError::Decoder(_))));
}

#[test]
fn surfaces_that_cannot_be_decoded_are_told_apart() {
    let rgb = [0xF800, 0x07E0, 0x001F, 0];
    assert!(check_dds_fits(&words(2, 1, rgb, &[1, 2])));
    assert!(!check_dds_fits(&words(2, 1, rgb, &[1])));
    assert!(!check_dds_fits(&header(0x8000, 0x8000, 0x4, b"DXT1")));
    assert!(check_dds_fits(&header(0x7FFF, 0x8000, 0x4, b"DXT1")));
    assert!(!check_dds_fits(&header(u32::MAX, u32::MAX, 0x4, b"DXT5")));
    assert!(check_dds_fits(&header(u32::MAX, u32::MAX, 0x4, b"DX10")));
    assert!(check_dds_fits(b"nothing"));
}
