use rose_zone_converter::color::{decode_argb4444, decode_rgb565, lerp_color, repeat_nibble, Rgba};

fn rgba(r: u8, g: u8, b: u8, a: u8) -> Rgba {
    Rgba { r, g, b, a }
}

#[test]
fn rgb565_channels() {
    assert_eq!(decode_rgb565(0x0000), rgba(0, 0, 0, 255));
    assert_eq!(decode_rgb565(0xFFFF), rgba(255, 255, 255, 255));
    assert_eq!(decode_rgb565(0xF800), rgba(255, 0, 0, 255));
    assert_eq!(decode_rgb565(0x07E0), rgba(0, 255, 0, 255));
    assert_eq!(decode_rgb565(0x001F), rgba(0, 0, 255, 255));
    assert_eq!(decode_rgb565(0x8410), rgba(132, 130, 132, 255));
}

#[test]
fn rgb565_matches_bit_replication() {
    for c in 0u16..=u16::MAX {
        let r = ((c >> 11) & 0x1F) as u8;
        let g = ((c >> 5) & 0x3F) as u8;
        let b = (c & 0x1F) as u8;
        let wanted = rgba((r << 3) | (r >> 2), (g << 2) | (g >> 4), (b << 3) | (b >> 2), 255);
        assert_eq!(decode_rgb565(c), wanted);
    }
}

#[test]
fn rgb565_colours_are_distinct() {
    let mut seen = std::collections::HashSet::new();
    for c in 0u16..=u16::MAX {
        let d = decode_rgb565(c);
        assert!(seen.insert((d.r, d.g, d.b, d.a)));
    }
}

#[test]
fn argb4444_nibbles() {
    assert_eq!(decode_argb4444(0x1234), rgba(34, 51, 68, 17));
    assert_eq!(decode_argb4444(0xF000), rgba(0, 0, 0, 255));
    assert_eq!(decode_argb4444(0x0FFF), rgba(255, 255, 255, 0));
}

#[test]
fn argb4444_colours_are_distinct() {
    let mut seen = std::collections::HashSet::new();
    for c in 0u16..=u16::MAX {
        let d = decode_argb4444(c);
        assert!(seen.insert((d.r, d.g, d.b, d.a)));
    }
}

#[test]
fn nibbles_are_written_twice() {
    assert_eq!(repeat_nibble(0), 0x00);
    assert_eq!(repeat_nibble(0xA), 0xAA);
    assert_eq!(repeat_nibble(0xF), 0xFF);
}

#[test]
fn mixing_rounds_down_and_is_opaque() {
    let red = rgba(255, 0, 0, 0);
    let blue = rgba(0, 0, 255, 7);
    assert_eq!(lerp_color(red, blue, 2, 1), rgba(170, 0, 85, 255));
    assert_eq!(lerp_color(red, blue, 1, 2), rgba(85, 0, 170, 255));
    assert_eq!(lerp_color(red, blue, 1, 1), rgba(127, 0, 127, 255));
    assert_eq!(lerp_color(red, blue, 0, 1), rgba(0, 0, 255, 255));
}

#[test]
fn a_mix_lies_between_its_colours() {
    let a = rgba(10, 200, 77, 255);
    let b = rgba(90, 20, 77, 255);
    for w in 0..=9usize {
        let m = lerp_color(a, b, w, 9 - w);
        assert!(10 <= m.r && m.r <= 90);
        assert!(20 <= m.g && m.g <= 200);
        assert_eq!(m.b, 77);
    }
}
