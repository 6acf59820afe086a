//! The blocks of a zone, the files that belong to each, and its material description.
use vstd::prelude::*;

use crate::text;
use crate::text::push_decimal;

verus! {

/// How many blocks a zone can have along each side.
pub const BLOCKS_PER_SIDE: u32 = 64;

/// The files of a block.
#[derive(Clone, Copy, Debug, PartialEq, Eq, Structural)]
pub enum BlockFile {
    /// The height map.
    Heights,
    /// The tile map.
    Tiles,
    /// The light map that the zone came with.
    TerrainLight,
    /// The converted mesh.
    Mesh,
    /// The baked colours.
    Albedo,
    /// The generated normals.
    Normals,
    /// The converted light map.
    Lightmap,
    /// The material description.
    Material,
}

impl BlockFile {
    /// Whether the file is one that conversion writes.
    pub open spec fn is_output(self) -> bool {
        match self {
            BlockFile::Heights | BlockFile::Tiles | BlockFile::TerrainLight => false,
            _ => true,
        }
    }

    /// What the name starts with.
    pub open spec fn prefix(self) -> Seq<char> {
        if self.is_output() {
            "block_"@
        } else {
            ""@
        }
    }

    /// What the name ends with.
    pub open spec fn suffix(self) -> Seq<char> {
        match self {
            BlockFile::Heights => ".HIM"@,
            BlockFile::Tiles => ".TIL"@,
            BlockFile::TerrainLight => "/LM_TERRAIN.DDS"@,
            BlockFile::Mesh => ".mesh.bin"@,
            BlockFile::Albedo => "_albedo.png"@,
            BlockFile::Normals => "_normal.png"@,
            BlockFile::Lightmap => "_lightmap.png"@,
            BlockFile::Material => ".mat.ron"@,
        }
    }

    /// The name of the file of the block in column `bx` of row `by`.
    pub open spec fn name(self, bx: u32, by: u32) -> Seq<char> {
        self.prefix() + (text::decimal(bx as nat) + ("_"@ + (text::decimal(by as nat)
            + self.suffix())))
    }
}

/// The name, relative to the zone's directory, of a file of the block in column `bx` of row `by`.
pub fn block_file_name(file: BlockFile, bx: u32, by: u32) -> (out: String)
    ensures
        out@ == file.name(bx, by),
{
    let mut out = String::new();
    match file {
        BlockFile::Heights | BlockFile::Tiles | BlockFile::TerrainLight => {
            out.append("");
        },
        _ => {
            out.append("block_");
        },
    }
    push_decimal(&mut out, bx);
    out.append("_");
    push_decimal(&mut out, by);
    match file {
        BlockFile::Heights => out.append(".HIM"),
        BlockFile::Tiles => out.append(".TIL"),
        BlockFile::TerrainLight => out.append("/LM_TERRAIN.DDS"),
        BlockFile::Mesh => out.append(".mesh.bin"),
        BlockFile::Albedo => out.append("_albedo.png"),
        BlockFile::Normals => out.append("_normal.png"),
        BlockFile::Lightmap => out.append("_lightmap.png"),
        BlockFile::Material => out.append(".mat.ron"),
    }
    assert(out@ =~= file.name(bx, by));
    out
}

/// What the suffixes hold at their ends.
proof fn lemma_suffixes(file: BlockFile)
    ensures
        "_"@.len() == 1,
        "_"@[0] == '_',
        ""@.len() == 0,
        "block_"@.len() == 6,
        "block_"@[0] == 'b',
        file.suffix().len() > 3,
        !text::is_digit(file.suffix()[0]),
        file.suffix()[1] == (match file {
            BlockFile::Heights => 'H',
            BlockFile::Tiles => 'T',
            BlockFile::TerrainLight => 'L',
            BlockFile::Mesh | BlockFile::Material => 'm',
            BlockFile::Albedo => 'a',
            BlockFile::Normals => 'n',
            BlockFile::Lightmap => 'l',
        }),
        file == BlockFile::Mesh ==> file.suffix()[2] == 'e',
        file == BlockFile::Material ==> file.suffix()[2] == 'a',
{
    reveal_strlit("_");
    reveal_strlit("");
    reveal_strlit("block_");
    reveal_strlit(".HIM");
    reveal_strlit(".TIL");
    reveal_strlit("/LM_TERRAIN.DDS");
    reveal_strlit(".mesh.bin");
    reveal_strlit("_albedo.png");
    reveal_strlit("_normal.png");
    reveal_strlit("_lightmap.png");
    reveal_strlit(".mat.ron");
}

/// No two files of a zone share a name: not two files of one block, nor files of two blocks. So no
/// output replaces another, nor an input.
pub proof fn block_file_names_differ(
    file0: BlockFile,
    bx0: u32,
    by0: u32,
    file1: BlockFile,
    bx1: u32,
    by1: u32,
)
    requires
        file0.name(bx0, by0) == file1.name(bx1, by1),
    ensures
        file0 == file1,
        bx0 == bx1,
        by0 == by1,
{
    lemma_suffixes(file0);
    lemma_suffixes(file1);
    text::lemma_decimal_digits(bx0 as nat);
    text::lemma_decimal_digits(bx1 as nat);
    let name = file0.name(bx0, by0);
    let tail0 = text::decimal(by0 as nat) + file0.suffix();
    let tail1 = text::decimal(by1 as nat) + file1.suffix();
    let mid0 = text::decimal(bx0 as nat) + ("_"@ + tail0);
    let mid1 = text::decimal(bx1 as nat) + ("_"@ + tail1);
    if file0.is_output() != file1.is_output() {
        assert(name[0] == 'b');
        assert(text::is_digit(name[0]));
    }
    let skipped = file0.prefix().len() as int;
    assert(mid0 =~= name.skip(skipped));
    assert(mid1 =~= file1.name(bx1, by1).skip(skipped));
    assert(("_"@ + tail0)[0] == '_');
    assert(("_"@ + tail1)[0] == '_');
    text::decimal_prefix_is_unique(bx0 as nat, "_"@ + tail0, bx1 as nat, "_"@ + tail1);
    assert(tail0 =~= ("_"@ + tail0).skip(1));
    assert(tail1 =~= ("_"@ + tail1).skip(1));
    text::decimal_prefix_is_unique(by0 as nat, file0.suffix(), by1 as nat, file1.suffix());
}

/// The description of a block's material: its two textures and the constants of its surface.
pub open spec fn material_text(bx: u32, by: u32) -> Seq<char> {
    "(\n            base_color_texture: Some(\"block_"@ + text::decimal(bx as nat) + "_"@
        + text::decimal(by as nat)
        + "_albedo.png\"),\n            normal_map_texture: Some(\"block_"@ + text::decimal(
        bx as nat,
    ) + "_"@ + text::decimal(by as nat)
        + "_normal.png\"),\n            perceptual_roughness: 0.8,\n            metallic: 0.0,\n        )"@
}

/// The description of a block's material.
pub fn material_info(bx: u32, by: u32) -> (out: String)
    ensures
        out@ == material_text(bx, by),
{
    let mut out = String::new();
    out.append("(\n            base_color_texture: Some(\"block_");
    push_decimal(&mut out, bx);
    out.append("_");
    push_decimal(&mut out, by);
    out.append("_albedo.png\"),\n            normal_map_texture: Some(\"block_");
    push_decimal(&mut out, bx);
    out.append("_");
    push_decimal(&mut out, by);
    out.append(
        "_normal.png\"),\n            perceptual_roughness: 0.8,\n            metallic: 0.0,\n        )",
    );
    assert(out@ =~= material_text(bx, by));
    out
}

/// The material of a block names the block's own colours and normals.
pub proof fn material_names_its_textures(bx: u32, by: u32)
    ensures
        material_text(bx, by) == "(\n            base_color_texture: Some(\""@
            + BlockFile::Albedo.name(bx, by) + "\"),\n            normal_map_texture: Some(\""@
            + BlockFile::Normals.name(bx, by)
            + "\"),\n            perceptual_roughness: 0.8,\n            metallic: 0.0,\n        )"@,
{
    reveal_strlit("(\n            base_color_texture: Some(\"block_");
    reveal_strlit("(\n            base_color_texture: Some(\"");
    reveal_strlit("_albedo.png\"),\n            normal_map_texture: Some(\"block_");
    reveal_strlit("\"),\n            normal_map_texture: Some(\"");
    reveal_strlit(
        "_normal.png\"),\n            perceptual_roughness: 0.8,\n            metallic: 0.0,\n        )",
    );
    reveal_strlit("\"),\n            perceptual_roughness: 0.8,\n            metallic: 0.0,\n        )");
    reveal_strlit("block_");
    reveal_strlit("_albedo.png");
    reveal_strlit("_normal.png");
    assert("(\n            base_color_texture: Some(\"block_"@
        =~= "(\n            base_color_texture: Some(\""@ + "block_"@);
    assert("_albedo.png\"),\n            normal_map_texture: Some(\"block_"@ =~= "_albedo.png"@
        + "\"),\n            normal_map_texture: Some(\""@ + "block_"@);
    assert("_normal.png\"),\n            perceptual_roughness: 0.8,\n            metallic: 0.0,\n        )"@
        =~= "_normal.png"@
        + "\"),\n            perceptual_roughness: 0.8,\n            metallic: 0.0,\n        )"@);
    assert(material_text(bx, by) =~= "(\n            base_color_texture: Some(\""@
        + BlockFile::Albedo.name(bx, by) + "\"),\n            normal_map_texture: Some(\""@
        + BlockFile::Normals.name(bx, by)
        + "\"),\n            perceptual_roughness: 0.8,\n            metallic: 0.0,\n        )"@);
}

/// The files that conversion writes for a block, in order: the mesh, the colours if there is a tile
/// map, the normals, the light map if the zone came with one, and the material.
pub open spec fn outputs(has_tiles: bool, has_light: bool) -> Seq<BlockFile> {
    seq![BlockFile::Mesh] + (if has_tiles {
        seq![BlockFile::Albedo]
    } else {
        Seq::empty()
    }) + seq![BlockFile::Normals] + (if has_light {
        seq![BlockFile::Lightmap]
    } else {
        Seq::empty()
    }) + seq![BlockFile::Material]
}

/// The output that comes after `done`, or the first one; `None` after the last. The answers are those
/// that hold when the next output is chosen.
pub open spec fn following(done: Option<BlockFile>, has_tiles: bool, has_light: bool) -> Option<
    BlockFile,
> {
    match done {
        None => Some(BlockFile::Mesh),
        Some(BlockFile::Mesh) => Some(
            if has_tiles {
                BlockFile::Albedo
            } else {
                BlockFile::Normals
            },
        ),
        Some(BlockFile::Albedo) => Some(BlockFile::Normals),
        Some(BlockFile::Normals) => Some(
            if has_light {
                BlockFile::Lightmap
            } else {
                BlockFile::Material
            },
        ),
        Some(BlockFile::Lightmap) => Some(BlockFile::Material),
        Some(_) => None,
    }
}

/// Chooses the file to write next for a block, given the one that was written last.
pub fn next_output(done: Option<BlockFile>, has_tiles: bool, has_light: bool) -> (out: Option<
    BlockFile,
>)
    ensures
        out == following(done, has_tiles, has_light),
{
    match done {
        None => Some(BlockFile::Mesh),
        Some(BlockFile::Mesh) => if has_tiles {
            Some(BlockFile::Albedo)
        } else {
            Some(BlockFile::Normals)
        },
        Some(BlockFile::Albedo) => Some(BlockFile::Normals),
        Some(BlockFile::Normals) => if has_light {
            Some(BlockFile::Lightmap)
        } else {
            Some(BlockFile::Material)
        },
        Some(BlockFile::Lightmap) => Some(BlockFile::Material),
        Some(_) => None,
    }
}

/// Choosing one file after another goes through the outputs of a block in order, and ends.
pub proof fn outputs_follow_one_another(has_tiles: bool, has_light: bool, i: int)
    requires
        0 <= i < outputs(has_tiles, has_light).len(),
    ensures
        following(None, has_tiles, has_light) == Some(outputs(has_tiles, has_light)[0]),
        following(Some(outputs(has_tiles, has_light)[i]), has_tiles, has_light) == if i + 1
            < outputs(has_tiles, has_light).len() {
            Some(outputs(has_tiles, has_light)[i + 1])
        } else {
            None
        },
{
}

/// Conversion writes outputs alone, each once.
pub proof fn outputs_are_distinct(has_tiles: bool, has_light: bool, i: int, j: int)
    requires
        0 <= i < outputs(has_tiles, has_light).len(),
        0 <= j < outputs(has_tiles, has_light).len(),
    ensures
        outputs(has_tiles, has_light)[i].is_output(),
        outputs(has_tiles, has_light)[i] == outputs(has_tiles, has_light)[j] ==> i == j,
{
}

/// Block number `i` of a zone, counted row by row.
pub open spec fn block_number(i: int) -> (u32, u32) {
    ((i % 64) as u32, (i / 64) as u32)
}

/// The column and the row of block number `i`, counted row by row.
pub fn block_at(i: u32) -> (out: (u32, u32))
    ensures
        out == block_number(i as int),
{
    (i % BLOCKS_PER_SIDE, i / BLOCKS_PER_SIDE)
}

/// The blocks among the first `present.len()` that are present, in order.
pub open spec fn present_blocks(present: Seq<bool>) -> Seq<(u32, u32)>
    decreases present.len(),
{
    if present.len() == 0 {
        Seq::empty()
    } else {
        let rest = present_blocks(present.drop_last());
        if present.last() {
            rest.push(block_number(present.len() - 1))
        } else {
            rest
        }
    }
}

/// Lists the blocks of a zone whose height map is present. `present[i]` speaks of block number `i`.
pub fn select_blocks(present: &Vec<bool>) -> (out: Vec<(u32, u32)>)
    requires
        present@.len() == 4096,
    ensures
        out@ == present_blocks(present@),
{
    let mut out: Vec<(u32, u32)> = Vec::new();
    assert(present@.take(0) =~= Seq::<bool>::empty());
    for i in 0usize..4096usize
        invariant
            present@.len() == 4096,
            out@ == present_blocks(present@.take(i as int)),
    {
        assert(present@.take(i + 1).drop_last() =~= present@.take(i as int));
        if present[i] {
            out.push(block_at(i as u32));
        }
    }
    assert(present@.take(4096) =~= present@);
    out
}

/// A block is listed exactly if it is present, and the list goes by rising numbers, so none is
/// listed twice.
pub proof fn present_blocks_are_listed_once(present: Seq<bool>)
    requires
        present.len() <= 4096,
    ensures
        forall|i: int|
            0 <= i < present.len() ==> (#[trigger] present[i] <==> present_blocks(present).contains(
                block_number(i),
            )),
        forall|k: int|
            0 <= k < present_blocks(present).len() ==> {
                let b = #[trigger] present_blocks(present)[k];
                b.0 < 64 && b.1 * 64 + b.0 < present.len()
            },
        forall|j: int, k: int|
            0 <= j < k < present_blocks(present).len() ==> {
                let a = #[trigger] present_blocks(present)[j];
                let b = #[trigger] present_blocks(present)[k];
                a.1 * 64 + a.0 < b.1 * 64 + b.0
            },
    decreases present.len(),
{
    if present.len() > 0 {
        let shorter = present.drop_last();
        let rest = present_blocks(shorter);
        let all = present_blocks(present);
        let last = present.len() - 1;
        present_blocks_are_listed_once(shorter);
        assert forall|i: int| 0 <= i < present.len() implies (#[trigger] present[i] <==> all.contains(
            block_number(i),
        )) by {
            if i < last {
                assert(shorter[i] == present[i]);
                if rest.contains(block_number(i)) {
                    let k = choose|k: int| 0 <= k < rest.len() && rest[k] == block_number(i);
                    assert(all[k] == block_number(i));
                }
                if all.contains(block_number(i)) {
                    let k = choose|k: int| 0 <= k < all.len() && all[k] == block_number(i);
                    assert(rest[k] == block_number(i));
                }
            } else {
                if present[i] {
                    assert(all[rest.len() as int] == block_number(i));
                } else if rest.contains(block_number(i)) {
                    let k = choose|k: int| 0 <= k < rest.len() && rest[k] == block_number(i);
                    let b = rest[k];
                }
            }
        }
        assert forall|k: int| 0 <= k < all.len() implies {
            let b = #[trigger] all[k];
            b.0 < 64 && b.1 * 64 + b.0 < present.len()
        } by {
            if k < rest.len() {
                let b = rest[k];
            }
        }
        assert forall|j: int, k: int| 0 <= j < k < all.len() implies {
            let a = #[trigger] all[j];
            let b = #[trigger] all[k];
            a.1 * 64 + a.0 < b.1 * 64 + b.0
        } by {
            let a = rest[j];
            if k < rest.len() {
                let b = rest[k];
            }
        }
    }
}

/// A name is what it starts with, the two numbers, and what it ends with.
proof fn lemma_name_parts(file: BlockFile, bx: u32, by: u32)
    ensures
        file.name(bx, by) == file.prefix() + (text::decimal(bx as nat) + "_"@ + text::decimal(
            by as nat,
        )) + file.suffix(),
{
    let numbers = text::decimal(bx as nat) + "_"@ + text::decimal(by as nat);
    assert(file.name(bx, by) =~= file.prefix() + numbers + file.suffix());
}

/// The names of the files of a block, letter for letter around the two numbers.
pub proof fn files_are_named_by_their_block(bx: u32, by: u32)
    ensures
        ({
            let numbers = text::decimal(bx as nat) + "_"@ + text::decimal(by as nat);
            &&& BlockFile::Heights.name(bx, by) == numbers + ".HIM"@
            &&& BlockFile::Tiles.name(bx, by) == numbers + ".TIL"@
            &&& BlockFile::TerrainLight.name(bx, by) == numbers + "/LM_TERRAIN.DDS"@
            &&& BlockFile::Mesh.name(bx, by) == "block_"@ + numbers + ".mesh.bin"@
            &&& BlockFile::Albedo.name(bx, by) == "block_"@ + numbers + "_albedo.png"@
            &&& BlockFile::Normals.name(bx, by) == "block_"@ + numbers + "_normal.png"@
            &&& BlockFile::Lightmap.name(bx, by) == "block_"@ + numbers + "_lightmap.png"@
            &&& BlockFile::Material.name(bx, by) == "block_"@ + numbers + ".mat.ron"@
        }),
{
    reveal_strlit("");
    let numbers = text::decimal(bx as nat) + "_"@ + text::decimal(by as nat);
    assert(""@ + numbers =~= numbers);
    lemma_name_parts(BlockFile::Heights, bx, by);
    lemma_name_parts(BlockFile::Tiles, bx, by);
    lemma_name_parts(BlockFile::TerrainLight, bx, by);
    lemma_name_parts(BlockFile::Mesh, bx, by);
    lemma_name_parts(BlockFile::Albedo, bx, by);
    lemma_name_parts(BlockFile::Normals, bx, by);
    lemma_name_parts(BlockFile::Lightmap, bx, by);
    lemma_name_parts(BlockFile::Material, bx, by);
}

/// What is written for a block. The mesh comes first and the material last; the normals are always
/// there, the colours exactly where there is a tile map, and the light map exactly where the zone
/// came with one. Nothing that is read is written.
pub proof fn outputs_are_what_there_is_to_write(has_tiles: bool, has_light: bool)
    ensures
        ({
            let all = outputs(has_tiles, has_light);
            &&& all.first() == BlockFile::Mesh
            &&& all.last() == BlockFile::Material
            &&& all.contains(BlockFile::Normals)
            &&& all.contains(BlockFile::Albedo) <==> has_tiles
            &&& all.contains(BlockFile::Lightmap) <==> has_light
            &&& !all.contains(BlockFile::Heights)
            &&& !all.contains(BlockFile::Tiles)
            &&& !all.contains(BlockFile::TerrainLight)
            &&& has_tiles ==> all[1] == BlockFile::Albedo
            &&& has_light ==> all[all.len() - 2] == BlockFile::Lightmap
            &&& all.len() == 3 + (if has_tiles {
                1int
            } else {
                0int
            }) + (if has_light {
                1int
            } else {
                0int
            })
        }),
{
    let all = outputs(has_tiles, has_light);
    assert(all[0] == BlockFile::Mesh);
    assert(all[if has_tiles {
        2
    } else {
        1
    }] == BlockFile::Normals);
    if has_tiles {
        assert(all[1] == BlockFile::Albedo);
    }
    if has_light {
        assert(all[all.len() - 2] == BlockFile::Lightmap);
    }
}

/// The file that is written next. Whether there is a tile map matters after the mesh alone, and
/// whether there is a light map after the normals alone. Nothing follows the material.
pub proof fn outputs_are_chosen_when_they_are_due(
    done: Option<BlockFile>,
    has_tiles: bool,
    has_light: bool,
)
    ensures
        following(None, has_tiles, has_light) == Some(BlockFile::Mesh),
        following(Some(BlockFile::Mesh), true, has_light) == Some(BlockFile::Albedo),
        following(Some(BlockFile::Mesh), false, has_light) == Some(BlockFile::Normals),
        following(Some(BlockFile::Albedo), has_tiles, has_light) == Some(BlockFile::Normals),
        following(Some(BlockFile::Normals), has_tiles, true) == Some(BlockFile::Lightmap),
        following(Some(BlockFile::Normals), has_tiles, false) == Some(BlockFile::Material),
        following(Some(BlockFile::Lightmap), has_tiles, has_light) == Some(BlockFile::Material),
        following(done, has_tiles, has_light) is None <==> {
            ||| done == Some(BlockFile::Material)
            ||| done == Some(BlockFile::Heights)
            ||| done == Some(BlockFile::Tiles)
            ||| done == Some(BlockFile::TerrainLight)
        },
{
}

/// Blocks are numbered by columns first: a number is sixty-four times the row and the column, which
/// is less than sixty-four.
pub proof fn block_numbers_count_columns_first(i: u32)
    ensures
        block_number(i as int).0 < 64,
        64 * block_number(i as int).1 + block_number(i as int).0 == i,
{
}

/// As many blocks are listed as are present: one more with each that is, none with one that is not.
pub proof fn present_blocks_grow_by_those_present(present: Seq<bool>, more: bool)
    ensures
        present_blocks(Seq::empty()).len() == 0,
        more ==> present_blocks(present.push(more)) == present_blocks(present).push(
            ((present.len() as int % 64) as u32, (present.len() as int / 64) as u32),
        ),
        !more ==> present_blocks(present.push(more)) == present_blocks(present),
{
    assert(present.push(more).drop_last() =~= present);
}

} // verus!
