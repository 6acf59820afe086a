use rose_zone_converter::block_files::{
    block_at, block_file_name, material_info, next_output, select_blocks, BlockFile,
};
use rose_zone_converter::paths::{
    is_dds_file, is_zone_file, normalize_separators, strip_data_prefix,
};
use rose_zone_converter::text::{push_decimal, to_capital};

const FILES: [BlockFile; 8] = [
    BlockFile::Heights,
    BlockFile::Tiles,
    BlockFile::TerrainLight,
    BlockFile::Mesh,
    BlockFile::Albedo,
    BlockFile::Normals,
    BlockFile::Lightmap,
    BlockFile::Material,
];

#[test]
fn names_of_block_files() {
    let names: Vec<String> = FILES.iter().map(|f| block_file_name(*f, 31, 0)).collect();
    assert_eq!(
        names,
        vec![
            "31_0.HIM",
            "31_0.TIL",
            "31_0/LM_TERRAIN.DDS",
            "block_31_0.mesh.bin",
            "block_31_0_albedo.png",
            "block_31_0_normal.png",
            "block_31_0_lightmap.png",
            "block_31_0.mat.ron",
        ]
    );
}

#[test]
fn names_of_block_files_differ() {
    let mut seen = std::collections::HashSet::new();
    for file in FILES {
        for i in 0..4096 {
            let (bx, by) = block_at(i);
            assert!(seen.insert(block_file_name(file, bx, by)));
        }
    }
    assert_eq!(seen.len(), 8 * 4096);
}

#[test]
fn numbers_in_decimal() {
    for n in [0u32, 7, 9, 10, 63, 100, 1009, 999_999, 1_000_000, u32::MAX] {
        let mut s = String::from("<");
        push_decimal(&mut s, n);
        assert_eq!(s, format!("<{}", n));
    }
}

#[test]
fn material_of_a_block() {
    let wanted = "(\n            base_color_texture: Some(\"block_5_60_albedo.png\"),\n            \
                  normal_map_texture: Some(\"block_5_60_normal.png\"),\n            \
                  perceptual_roughness: 0.8,\n            metallic: 0.0,\n        )";
    assert_eq!(material_info(5, 60), wanted);
}

#[test]
fn material_names_the_textures_of_its_block() {
    let text = material_info(12, 34);
    for file in [BlockFile::Albedo, BlockFile::Normals] {
        let quoted = format!("Some(\"{}\")", block_file_name(file, 12, 34));
        assert!(text.contains(&quoted));
    }
}

#[test]
fn blocks_are_numbered_row_by_row() {
    assert_eq!(block_at(0), (0, 0));
    assert_eq!(block_at(63), (63, 0));
    assert_eq!(block_at(64), (0, 1));
    assert_eq!(block_at(4095), (63, 63));
}

#[test]
fn present_blocks_are_selected_in_order() {
    let mut present = vec![false; 4096];
    for (bx, by) in [(31u32, 30u32), (0, 0), (63, 63), (2, 1), (1, 2)] {
        present[(by * 64 + bx) as usize] = true;
    }
    assert_eq!(select_blocks(&present), vec![(0, 0), (2, 1), (1, 2), (31, 30), (63, 63)]);
    assert_eq!(select_blocks(&vec![false; 4096]), vec![]);
    assert_eq!(select_blocks(&vec![true; 4096]).len(), 4096);
}

fn outputs(has_tiles: bool, has_light: bool) -> Vec<BlockFile> {
    let mut all = Vec::new();
    while let Some(file) = next_output(all.last().copied(), has_tiles, has_light) {
        all.push(file);
        assert!(all.len() <= 5);
    }
    all
}

#[test]
fn outputs_of_a_block() {
    assert_eq!(
        outputs(true, true),
        vec![
            BlockFile::Mesh,
            BlockFile::Albedo,
            BlockFile::Normals,
            BlockFile::Lightmap,
            BlockFile::Material,
        ]
    );
    assert_eq!(
        outputs(false, false),
        vec![BlockFile::Mesh, BlockFile::Normals, BlockFile::Material]
    );
    assert!(!outputs(false, true).contains(&BlockFile::Albedo));
    assert!(!outputs(true, false).contains(&BlockFile::Lightmap));
    assert_eq!(next_output(Some(BlockFile::Heights), true, true), None);
}

#[test]
fn backslashes_become_slashes() {
    assert_eq!(normalize_separators("3Ddata\\Terrain\\Tiles/a.dds"), "3Ddata/Terrain/Tiles/a.dds");
    assert_eq!(normalize_separators(""), "");
    assert_eq!(normalize_separators("\\"), "/");
    let once = normalize_separators("a\\b\\\u{e9}");
    assert_eq!(normalize_separators(&once), once);
}

#[test]
fn the_data_prefix_is_taken_off_in_any_case() {
    assert_eq!(strip_data_prefix("3DDATA/TERRAIN/A.DDS"), "TERRAIN/A.DDS");
    assert_eq!(strip_data_prefix("3DData/Terrain/a.dds"), "Terrain/a.dds");
    assert_eq!(strip_data_prefix("3ddata/\u{e9}.dds"), "\u{e9}.dds");
    assert_eq!(strip_data_prefix("3DDATA/3DDATA/x"), "3DDATA/x");
    assert_eq!(strip_data_prefix("3DDATA/"), "");
}

#[test]
fn other_paths_are_kept() {
    for path in ["", "3DDATA", "3DDATAX/a", "x/3DDATA/a", "3DD\u{e1}TA/a", "3D"] {
        assert_eq!(strip_data_prefix(path), path);
    }
}

#[test]
fn zones_by_extension() {
    assert!(is_zone_file("JUNON.ZON"));
    assert!(is_zone_file("a.zOn"));
    assert!(is_zone_file("a.b.zon"));
    assert!(is_zone_file("..zon"));
    for name in ["", ".ZON", "ZON", "aZON", "a.zone", "a.zon.bak", "a.him"] {
        assert!(!is_zone_file(name));
    }
}

#[test]
fn extensions_agree_with_std() {
    let names = ["", ".dds", "x.dds", "..dds", "x.DdS", "x.ddsx", "\u{e9}.DDS", "x.", "x", "..", "a.dds."];
    for name in names {
        let ext = std::path::Path::new(name).extension();
        let wanted = ext.map_or(false, |e| e.to_ascii_uppercase() == "DDS");
        assert_eq!(is_dds_file(name), wanted);
    }
}

#[test]
fn capitals_of_ascii_letters() {
    assert_eq!(to_capital('a'), 'A');
    assert_eq!(to_capital('z'), 'Z');
    assert_eq!(to_capital('Q'), 'Q');
    assert_eq!(to_capital('{'), '{');
    assert_eq!(to_capital('`'), '`');
    assert_eq!(to_capital('\u{e9}'), '\u{e9}');
}
