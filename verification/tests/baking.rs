use image::imageops::FilterType;
use image::{DynamicImage, GenericImageView, RgbaImage};
use rose_zone_converter::albedo::{
    bake_albedo, check_tile_ready, check_tile_resolves, next_load, paint_tile, tile_layers,
    LoadStep, Zone, ZoneTile,
};
use rose_zone_converter::color::Rgba;
use rose_zone_converter::normal_map::{generate_normal_map, Facing};
use rose_zone_converter::picture::{blank, Picture};
use rose_zone_converter::rotation::TileRotation;
use rose_zone_converter::texture::Texture;
use rose_zone_converter::texture_cache::TextureCache;

const CLEAR: Rgba = Rgba { r: 0, g: 0, b: 0, a: 0 };

fn blend(lower: u8, upper: u8, alpha: u8) -> u8 {
    let a = alpha as f32 / 255.0;
    (lower as f32 * (1.0 - a) + upper as f32 * a) as u8
}

fn tile(layer1: i64, offset1: i64, layer2: i64, offset2: i64, rotation: TileRotation) -> ZoneTile {
    ZoneTile { layer1, offset1, layer2, offset2, rotation }
}

fn zone(tiles: Vec<ZoneTile>, count: usize) -> Zone {
    Zone { tiles, tile_textures: (0..count).map(|i| format!("t{}", i)).collect() }
}

fn pattern(width: u32, height: u32, seed: u32, alpha: u8) -> Picture {
    let mut p = blank(width, height);
    for y in 0..height {
        for x in 0..width {
            let v = x * 37 + y * 91 + seed;
            let c = Rgba { r: (v % 251) as u8, g: (v * 7 % 253) as u8, b: (v * 3) as u8, a: alpha };
            p.put(x, y, c);
        }
    }
    p
}

fn image_of(p: &Picture) -> DynamicImage {
    let mut raw = Vec::new();
    for c in &p.pixels {
        raw.extend_from_slice(&[c.r, c.g, c.b, c.a]);
    }
    DynamicImage::ImageRgba8(RgbaImage::from_raw(p.width, p.height, raw).unwrap())
}

fn cache(pictures: Vec<Picture>) -> TextureCache {
    images(pictures.iter().map(|p| Texture::from_picture(p).image).collect())
}

fn images(list: Vec<DynamicImage>) -> TextureCache {
    let mut out = TextureCache::new();
    for (i, image) in list.into_iter().enumerate() {
        out.insert(&format!("t{}", i), Texture { image });
    }
    out
}

#[test]
fn layers_are_sums_of_base_and_offset() {
    let z = zone(vec![tile(1, 2, 0, 1, TileRotation::Flip), tile(-1, 1, 5, -4, TileRotation::Upright)], 4);
    let layers = tile_layers(&z, 0).unwrap();
    assert_eq!((layers.layer1, layers.layer2, layers.rotation), (3, 1, TileRotation::Flip));
    let layers = tile_layers(&z, 1).unwrap();
    assert_eq!((layers.layer1, layers.layer2), (0, 1));
    assert!(tile_layers(&z, 2).is_none());
}

#[test]
fn tiles_without_textures_are_told_apart() {
    let up = TileRotation::Upright;
    let tiles = vec![
        tile(0, 0, 1, 1, up),
        tile(0, 3, 0, 0, up),
        tile(0, 0, 0, -1, up),
        tile(i64::MAX, i64::MAX, 0, 0, up),
    ];
    let z = zone(tiles, 3);
    assert!(check_tile_resolves(&z, 0));
    assert!(!check_tile_resolves(&z, 1));
    assert!(!check_tile_resolves(&z, 2));
    assert!(!check_tile_resolves(&z, 3));
    assert!(check_tile_resolves(&z, 4));
}

#[test]
fn textures_are_asked_for_in_order() {
    let up = TileRotation::Upright;
    let z = zone(vec![tile(2, 0, 0, 0, up), tile(1, 0, 2, 0, up), tile(9, 0, 0, 0, up)], 3);
    let ids = vec![7, 0, 1];
    let mut c = TextureCache::new();
    let mut asked = Vec::new();
    loop {
        match next_load(&z, &ids, &c) {
            LoadStep::Load(i) => {
                asked.push(i);
                c.insert(&z.tile_textures[i], Texture::from_picture(&blank(1, 1)));
            }
            step => {
                assert_eq!(step, LoadStep::Done);
                break;
            }
        }
    }
    assert_eq!(asked, vec![2, 0, 1]);
    assert_eq!(next_load(&z, &vec![2], &c), LoadStep::Unresolved);
    assert_eq!(next_load(&z, &vec![0, 2], &TextureCache::new()), LoadStep::Load(2));
}

#[test]
fn readiness_needs_both_textures() {
    let z = zone(vec![tile(0, 0, 1, 0, TileRotation::Clockwise90)], 2);
    let empty = TextureCache::new();
    assert!(!check_tile_ready(&z, &empty, 2048, 0));
    assert!(check_tile_ready(&z, &empty, 2048, 1));
    let half = cache(vec![blank(4, 4)]);
    assert!(!check_tile_ready(&z, &half, 2048, 0));
    let full = cache(vec![blank(4, 4), blank(2, 8)]);
    assert!(check_tile_ready(&z, &full, 2048, 0));
    assert!(!check_tile_ready(&z, &full, u32::MAX, 0));
}

#[test]
fn painting_stays_in_its_square() {
    let mut out = blank(6, 6);
    let lower = pattern(2, 2, 5, 255);
    let mut upper = pattern(2, 2, 90, 255);
    upper.put(0, 0, Rgba { r: 200, g: 100, b: 0, a: 0 });
    upper.put(1, 0, Rgba { r: 201, g: 100, b: 0, a: 128 });
    paint_tile(&mut out, 1, 2, &lower, &upper, &blend);
    for y in 0..6 {
        for x in 0..6 {
            if !(2..4).contains(&x) || y < 4 {
                assert_eq!(out.get(x, y), CLEAR);
            } else {
                assert_eq!(out.get(x, y).a, 255);
            }
        }
    }
    let (l, o) = (lower.get(0, 0), out.get(2, 4));
    assert_eq!((o.r, o.g, o.b), (l.r, l.g, l.b));
    let (l, o) = (lower.get(1, 0), out.get(3, 4));
    assert_eq!(o.r, blend(l.r, 201, 128));
    let (u, o) = (upper.get(1, 1), out.get(3, 5));
    assert_eq!((o.r, o.g, o.b), (u.r, u.g, u.b));
}

#[test]
fn textures_of_the_right_size_are_taken_as_they_are() {
    let z = zone(vec![tile(0, 0, 1, 0, TileRotation::FlipHorizontal)], 2);
    let lower = pattern(2, 2, 1, 255);
    let upper = pattern(2, 2, 50, 255);
    let (u00, u10) = (upper.get(0, 0), upper.get(1, 0));
    let c = cache(vec![lower, upper]);
    let out = bake_albedo(&z, &vec![0; 256], &c, 32, &blend);
    assert_eq!((out.width, out.height), (32, 32));
    for k in 0..16 {
        assert_eq!(out.get(2 * k, 6), u10);
        assert_eq!(out.get(2 * k + 1, 6), u00);
    }
}

#[test]
fn baking_resamples_as_the_image_crate_does() {
    let rotations = [
        TileRotation::Upright,
        TileRotation::Clockwise90,
        TileRotation::CounterClockwise90,
        TileRotation::FlipVertical,
    ];
    for rotation in rotations {
        let z = zone(vec![tile(0, 0, 0, 1, rotation)], 2);
        let lower = pattern(9, 7, 3, 255);
        let upper = pattern(6, 11, 120, 140);
        let l = image_of(&lower).resize_exact(4, 4, FilterType::Lanczos3).to_rgba8();
        let u = image_of(&upper);
        let u = match rotation {
            TileRotation::Clockwise90 => u.rotate90(),
            TileRotation::CounterClockwise90 => u.rotate270(),
            TileRotation::FlipVertical => u.flipv(),
            _ => u,
        };
        let u = u.resize_exact(4, 4, FilterType::Lanczos3).to_rgba8();
        let c = cache(vec![lower, upper]);
        let out = bake_albedo(&z, &vec![0; 256], &c, 64, &blend);
        for y in 0..64 {
            for x in 0..64 {
                let p = l.get_pixel(x % 4, y % 4).0;
                let q = u.get_pixel(x % 4, y % 4).0;
                let wanted = Rgba {
                    r: blend(p[0], q[0], q[3]),
                    g: blend(p[1], q[1], q[3]),
                    b: blend(p[2], q[2], q[3]),
                    a: 255,
                };
                assert_eq!(out.get(x, y), wanted);
            }
        }
    }
}

/// Every format holds the same scene, spread over its own range.
fn formats(width: u32, height: u32) -> Vec<DynamicImage> {
    let wide = |scale: f32| {
        let mut raw = Vec::new();
        for i in 0..width * height * 4 {
            raw.push((i * 7919 % 1013) as f32 / 1013.0 * scale);
        }
        DynamicImage::ImageRgba32F(image::ImageBuffer::from_raw(width, height, raw).unwrap())
    };
    let base = wide(1.0);
    vec![
        DynamicImage::ImageLuma8(base.to_luma8()),
        DynamicImage::ImageLumaA8(base.to_luma_alpha8()),
        DynamicImage::ImageRgb8(base.to_rgb8()),
        DynamicImage::ImageRgba8(base.to_rgba8()),
        DynamicImage::ImageLuma16(base.to_luma16()),
        DynamicImage::ImageLumaA16(base.to_luma_alpha16()),
        DynamicImage::ImageRgb16(base.to_rgb16()),
        DynamicImage::ImageRgba16(base.to_rgba16()),
        DynamicImage::ImageRgb32F(wide(3.0).to_rgb32f()),
        wide(3.0),
    ]
}

#[test]
fn every_pixel_format_is_resized_before_it_is_read() {
    let z = zone(vec![tile(0, 0, 1, 0, TileRotation::Clockwise90)], 2);
    for lower in formats(9, 7) {
        for upper in formats(6, 11) {
            let l = lower.resize_exact(4, 4, FilterType::Lanczos3);
            let u = upper.rotate90().resize_exact(4, 4, FilterType::Lanczos3);
            let c = images(vec![lower.clone(), upper]);
            let out = bake_albedo(&z, &vec![0; 256], &c, 64, &blend);
            for y in 0..8 {
                for x in 0..8 {
                    let p = l.get_pixel(x % 4, y % 4).0;
                    let q = u.get_pixel(x % 4, y % 4).0;
                    let wanted = Rgba {
                        r: blend(p[0], q[0], q[3]),
                        g: blend(p[1], q[1], q[3]),
                        b: blend(p[2], q[2], q[3]),
                        a: 255,
                    };
                    assert_eq!(out.get(x, y), wanted);
                }
            }
        }
    }
}

#[test]
fn bright_floats_are_cut_after_resizing() {
    let z = zone(vec![tile(0, 0, 0, 0, TileRotation::Upright)], 1);
    let raw = vec![8.0f32, 0.0, 0.0, 0.0, 0.0, 0.0, 0.0, 0.0, 0.0, 0.0, 0.0, 0.0];
    let img = image::ImageBuffer::from_raw(4, 1, raw).unwrap();
    let img = DynamicImage::ImageRgb32F(img);
    let late = img.resize_exact(2, 2, FilterType::Lanczos3).get_pixel(0, 0).0;
    let early = DynamicImage::ImageRgb8(img.to_rgb8());
    let early = early.resize_exact(2, 2, FilterType::Lanczos3).get_pixel(0, 0).0;
    assert_ne!(late, early);
    let out = bake_albedo(&z, &vec![0; 256], &images(vec![img]), 32, &blend);
    assert_eq!(out.get(0, 0).r, late[0]);
}

#[test]
fn upper_textures_without_alpha_hide_the_lower_ones() {
    let z = zone(vec![tile(0, 0, 2, 0, TileRotation::Flip)], 3);
    let other = zone(vec![tile(1, 0, 2, 0, TileRotation::Flip)], 3);
    let upper = DynamicImage::ImageRgb8(image_of(&pattern(7, 5, 31, 255)).to_rgb8());
    let list = vec![image_of(&pattern(4, 9, 1, 255)), image_of(&pattern(3, 3, 200, 255)), upper];
    let c = images(list);
    let a = bake_albedo(&z, &vec![0; 256], &c, 64, &blend);
    let b = bake_albedo(&other, &vec![0; 256], &c, 64, &blend);
    assert_eq!(a.pixels, b.pixels);
}

#[test]
fn opaque_upper_textures_hide_the_lower_ones() {
    let z = zone(vec![tile(0, 0, 2, 0, TileRotation::Clockwise90)], 3);
    let other = zone(vec![tile(1, 0, 2, 0, TileRotation::Clockwise90)], 3);
    let c = cache(vec![pattern(4, 9, 1, 255), pattern(3, 3, 200, 255), pattern(7, 5, 31, 255)]);
    let a = bake_albedo(&z, &vec![0; 256], &c, 64, &blend);
    let b = bake_albedo(&other, &vec![0; 256], &c, 64, &blend);
    assert_eq!(a.pixels, b.pixels);
}

#[test]
fn transparent_upper_textures_show_the_lower_ones() {
    let lower = pattern(9, 7, 3, 255);
    let l = image_of(&lower).resize_exact(4, 4, FilterType::Lanczos3);
    let c = cache(vec![lower, pattern(6, 11, 120, 0)]);
    for rotation in [TileRotation::Upright, TileRotation::CounterClockwise90] {
        let z = zone(vec![tile(0, 0, 1, 0, rotation)], 2);
        let out = bake_albedo(&z, &vec![0; 256], &c, 64, &blend);
        for y in 0..64 {
            for x in 0..64 {
                let p = l.get_pixel(x % 4, y % 4).0;
                assert_eq!(out.get(x, y), Rgba { r: p[0], g: p[1], b: p[2], a: 255 });
            }
        }
    }
}

#[test]
fn unknown_tiles_and_the_rest_stay_clear() {
    let z = zone(vec![tile(0, 0, 0, 0, TileRotation::Upright)], 1);
    let mut ids = vec![9usize; 256];
    ids[16 * 3 + 5] = 0;
    let c = cache(vec![pattern(3, 3, 9, 255)]);
    let out = bake_albedo(&z, &ids, &c, 55, &blend);
    assert_eq!((out.width, out.height), (55, 55));
    for y in 0..55 {
        for x in 0..55 {
            let inside = (15..18).contains(&x) && (9..12).contains(&y);
            assert_eq!(out.get(x, y).a, if inside { 255 } else { 0 });
            if !inside {
                assert_eq!(out.get(x, y), CLEAR);
            }
        }
    }
}

#[test]
fn small_resolutions_leave_everything_clear() {
    let z = zone(vec![tile(0, 0, 0, 0, TileRotation::Upright)], 1);
    let c = cache(vec![pattern(3, 3, 9, 255)]);
    let out = bake_albedo(&z, &vec![0; 256], &c, 15, &blend);
    assert_eq!(out.pixels, vec![CLEAR; 225]);
    let out = bake_albedo(&z, &vec![0; 256], &c, 0, &blend);
    assert!(out.pixels.is_empty());
}

#[test]
fn tiles_cover_a_multiple_of_sixteen() {
    let z = zone(vec![tile(0, 0, 0, 0, TileRotation::Upright)], 1);
    let c = cache(vec![pattern(5, 5, 9, 255)]);
    let out = bake_albedo(&z, &vec![0; 256], &c, 48, &blend);
    assert!(out.pixels.iter().all(|p| p.a == 255));
}

#[test]
fn textures_without_cells_bake_black() {
    let z = zone(vec![tile(0, 0, 0, 0, TileRotation::Upright)], 1);
    let c = cache(vec![blank(0, 4)]);
    let out = bake_albedo(&z, &vec![0; 256], &c, 32, &blend);
    assert_eq!(out.pixels, vec![Rgba { r: 0, g: 0, b: 0, a: 255 }; 1024]);
}

#[test]
fn normal_maps_hold_what_they_are_given() {
    let facing = |x: u32, y: u32| Facing { x: x as u8, y: y as u8, z: (x + y) as u8 };
    let p = generate_normal_map(5, &facing);
    assert_eq!((p.width, p.height), (5, 5));
    assert_eq!(p.get(3, 1), Rgba { r: 3, g: 1, b: 4, a: 255 });
    assert_eq!(p.get(0, 4), Rgba { r: 0, g: 4, b: 4, a: 255 });
    assert!(generate_normal_map(0, &facing).pixels.is_empty());
}
