//! Baking the two texture layers of a block's tiles into one picture.
use vstd::prelude::*;

use crate::color;
use crate::color::Rgba;
use crate::outside;
use crate::picture;
use crate::picture::{blank, Picture};
use crate::rotation;
use crate::rotation::{apply_tile_rotation, TileRotation};
use crate::texture;
use crate::texture::{Contents, Texture};
use crate::texture_cache::TextureCache;

verus! {

/// How many tiles lie along each side of a block.
pub const TILES_PER_SIDE: u32 = 16;

/// A kind of tile. Each layer names a texture by the sum of a base and an offset.
pub struct ZoneTile {
    pub layer1: i64,
    pub offset1: i64,
    pub layer2: i64,
    pub offset2: i64,
    /// How the upper layer is placed.
    pub rotation: TileRotation,
}

/// What baking reads of a zone: its kinds of tiles and the paths of its textures.
pub struct Zone {
    pub tiles: Vec<ZoneTile>,
    pub tile_textures: Vec<String>,
}

/// The textures that a tile is made of, by their place in the zone's list.
#[derive(Clone, Copy, Debug)]
pub struct TileLayers {
    pub layer1: usize,
    pub layer2: usize,
    pub rotation: TileRotation,
}

impl Zone {
    /// Whether a tile number stands for a kind of tile. One that does not is left unpainted.
    pub open spec fn has_tile(&self, id: int) -> bool {
        0 <= id < self.tiles@.len()
    }

    /// The texture of the lower layer.
    pub open spec fn lower(&self, id: int) -> int {
        self.tiles@[id].layer1 + self.tiles@[id].offset1
    }

    /// The texture of the upper layer.
    pub open spec fn upper(&self, id: int) -> int {
        self.tiles@[id].layer2 + self.tiles@[id].offset2
    }

    /// Whether both layers of a tile name textures that the zone has.
    pub open spec fn resolves(&self, id: int) -> bool {
        self.has_tile(id) ==> 0 <= self.lower(id) < self.tile_textures@.len() && 0 <= self.upper(id)
            < self.tile_textures@.len()
    }
}

/// Tells whether `tile_layers` may be called for a tile number.
pub fn check_tile_resolves(zone: &Zone, id: usize) -> (out: bool)
    ensures
        out == zone.resolves(id as int),
{
    if id >= zone.tiles.len() {
        return true;
    }
    let lower: i128 = zone.tiles[id].layer1 as i128 + zone.tiles[id].offset1 as i128;
    let upper: i128 = zone.tiles[id].layer2 as i128 + zone.tiles[id].offset2 as i128;
    let count: i128 = zone.tile_textures.len() as i128;
    0 <= lower && lower < count && 0 <= upper && upper < count
}

/// The textures of a tile, or `None` for a number that stands for no kind of tile.
pub fn tile_layers(zone: &Zone, id: usize) -> (out: Option<TileLayers>)
    requires
        zone.resolves(id as int),
    ensures
        match out {
            Some(layers) => {
                &&& zone.has_tile(id as int)
                &&& layers.layer1 == zone.lower(id as int)
                &&& layers.layer2 == zone.upper(id as int)
                &&& layers.rotation == zone.tiles@[id as int].rotation
            },
            None => !zone.has_tile(id as int),
        },
{
    if id >= zone.tiles.len() {
        return None;
    }
    let tile = &zone.tiles[id];
    let count: usize = zone.tile_textures.len();
    Some(
        TileLayers {
            layer1: (tile.layer1 as i128 + tile.offset1 as i128) as usize,
            layer2: (tile.layer2 as i128 + tile.offset2 as i128) as usize,
            rotation: tile.rotation,
        },
    )
}

/// What has to be done before the tiles of a block can be painted.
#[derive(Clone, Copy, Debug, PartialEq, Eq, Structural)]
pub enum LoadStep {
    /// Load the texture at this place in the zone's list.
    Load(usize),
    /// A tile names a texture that the zone does not have.
    Unresolved,
    /// Nothing: every texture is there.
    Done,
}

/// Whether the textures of a tile are loaded. A tile that the zone does not have needs none.
pub open spec fn is_loaded(
    zone: &Zone,
    textures: Map<Seq<char>, Contents>,
    id: int,
) -> bool {
    &&& zone.resolves(id)
    &&& zone.has_tile(id) ==> textures.contains_key(zone.tile_textures@[zone.lower(id)]@)
        && textures.contains_key(zone.tile_textures@[zone.upper(id)]@)
}

/// What the first tile that is not loaded asks for: its lower texture before its upper one.
pub open spec fn needs(
    zone: &Zone,
    textures: Map<Seq<char>, Contents>,
    id: int,
) -> LoadStep {
    if !zone.resolves(id) {
        LoadStep::Unresolved
    } else if !textures.contains_key(zone.tile_textures@[zone.lower(id)]@) {
        LoadStep::Load(zone.lower(id) as usize)
    } else {
        LoadStep::Load(zone.upper(id) as usize)
    }
}

/// Tells what has to be done next before the tiles can be painted. Tiles are gone through in order.
pub fn next_load(zone: &Zone, tile_ids: &Vec<usize>, textures: &TextureCache) -> (out: LoadStep)
    ensures
        out == LoadStep::Done <==> forall|k: int|
            0 <= k < tile_ids@.len() ==> is_loaded(
                zone,
                textures@,
                #[trigger] tile_ids@[k] as int,
            ),
        out != LoadStep::Done ==> exists|k: int|
            {
                &&& 0 <= k < tile_ids@.len()
                &&& out == needs(zone, textures@, #[trigger] tile_ids@[k] as int)
                &&& !is_loaded(zone, textures@, tile_ids@[k] as int)
                &&& forall|j: int|
                    0 <= j < k ==> is_loaded(zone, textures@, #[trigger] tile_ids@[j] as int)
            },
{
    for k in 0usize..tile_ids.len()
        invariant
            forall|j: int|
                0 <= j < k ==> is_loaded(zone, textures@, #[trigger] tile_ids@[j] as int),
    {
        let id: usize = tile_ids[k];
        let ghost first = tile_ids@[k as int];
        if !check_tile_resolves(zone, id) {
            return LoadStep::Unresolved;
        }
        if let Some(layers) = tile_layers(zone, id) {
            if textures.get(zone.tile_textures[layers.layer1].as_str()).is_none() {
                return LoadStep::Load(layers.layer1);
            }
            if textures.get(zone.tile_textures[layers.layer2].as_str()).is_none() {
                return LoadStep::Load(layers.layer2);
            }
        }
    }
    LoadStep::Done
}

/// Loading makes progress: what is asked for is a texture of the zone that is not there yet, so one
/// that has been stored is not asked for again.
pub proof fn loading_makes_progress(
    zone: &Zone,
    textures: Map<Seq<char>, Contents>,
    id: int,
    i: usize,
)
    requires
        !is_loaded(zone, textures, id),
        needs(zone, textures, id) == LoadStep::Load(i),
    ensures
        i < zone.tile_textures@.len(),
        !textures.contains_key(zone.tile_textures@[i as int]@),
{
    let count: usize = zone.tile_textures.len();
    assert(count == zone.tile_textures@.len());
}

/// Whether `c` is an upper colour laid over a lower one: each channel is an outcome of `blend` for
/// the two channels and the upper alpha, and the result is opaque.
pub open spec fn blends<F: Fn(u8, u8, u8) -> u8>(
    blend: F,
    lower: Rgba,
    upper: Rgba,
    c: Rgba,
) -> bool {
    &&& call_ensures(blend, (lower.r, upper.r, upper.a), c.r)
    &&& call_ensures(blend, (lower.g, upper.g, upper.a), c.g)
    &&& call_ensures(blend, (lower.b, upper.b, upper.a), c.b)
    &&& c.a == 255
}

/// Whether column `x` of row `y` lies in the square of side `size` in column `tx` of row `ty`.
pub open spec fn in_square(size: int, tx: int, ty: int, x: int, y: int) -> bool {
    tx * size <= x < tx * size + size && ty * size <= y < ty * size + size
}

/// Lays the upper layer of a tile over its lower layer and paints the result into the square in
/// column `tx` of row `ty`. The layers are as large as the square.
pub fn paint_tile<F: Fn(u8, u8, u8) -> u8>(
    out: &mut Picture,
    tx: u32,
    ty: u32,
    lower: &Picture,
    upper: &Picture,
    blend: &F,
)
    requires
        old(out).wf(),
        lower.wf(),
        upper.wf(),
        lower.height == lower.width,
        upper.width == lower.width,
        upper.height == lower.width,
        (tx + 1) * lower.width <= old(out).width,
        (ty + 1) * lower.width <= old(out).height,
        forall|v0: u8, v1: u8, a: u8| call_requires(*blend, (v0, v1, a)),
    ensures
        final(out).wf(),
        final(out).width == old(out).width,
        final(out).height == old(out).height,
        forall|x: int, y: int|
            old(out).covers(x, y) && !in_square(lower.width as int, tx as int, ty as int, x, y)
                ==> #[trigger] final(out).at(x, y) == old(out).at(x, y),
        forall|x: int, y: int|
            old(out).covers(x, y) && in_square(lower.width as int, tx as int, ty as int, x, y)
                ==> blends(
                *blend,
                lower.at(x - tx * lower.width, y - ty * lower.width),
                upper.at(x - tx * lower.width, y - ty * lower.width),
                #[trigger] final(out).at(x, y),
            ),
{
    let size: u32 = lower.width;
    assert(tx * size + size <= out.width && ty * size + size <= out.height && 0 <= tx * size && 0
        <= ty * size) by (nonlinear_arith)
        requires
            (tx + 1) * size <= out.width,
            (ty + 1) * size <= out.height,
            0 <= tx,
            0 <= ty,
            0 <= size,
    ;
    let left: u32 = tx * size;
    let top: u32 = ty * size;
    let ghost start = *out;
    for py in 0u32..size
        invariant
            out.wf(),
            lower.wf(),
            upper.wf(),
            size == lower.width,
            lower.height == size,
            upper.width == size,
            upper.height == size,
            left + size <= out.width,
            top + size <= out.height,
            out.width == start.width,
            out.height == start.height,
            forall|v0: u8, v1: u8, a: u8| call_requires(*blend, (v0, v1, a)),
            forall|x: int, y: int|
                out.covers(x, y) && !(left <= x < left + size && top <= y < top + py)
                    ==> #[trigger] out.at(x, y) == start.at(x, y),
            forall|x: int, y: int|
                left <= x < left + size && top <= y < top + py ==> blends(
                    *blend,
                    lower.at(x - left, y - top),
                    upper.at(x - left, y - top),
                    #[trigger] out.at(x, y),
                ),
    {
        for px in 0u32..size
            invariant
                out.wf(),
                lower.wf(),
                upper.wf(),
                py < size,
                size == lower.width,
                lower.height == size,
                upper.width == size,
                upper.height == size,
                left + size <= out.width,
                top + size <= out.height,
                out.width == start.width,
                out.height == start.height,
                forall|v0: u8, v1: u8, a: u8| call_requires(*blend, (v0, v1, a)),
                forall|x: int, y: int|
                    out.covers(x, y) && !(left <= x < left + size && top <= y < top + py) && !(left
                        <= x < left + px && y == top + py) ==> #[trigger] out.at(x, y) == start.at(
                        x,
                        y,
                    ),
                forall|x: int, y: int|
                    (left <= x < left + size && top <= y < top + py) || (left <= x < left + px && y
                        == top + py) ==> blends(
                        *blend,
                        lower.at(x - left, y - top),
                        upper.at(x - left, y - top),
                        #[trigger] out.at(x, y),
                    ),
        {
            let c1 = lower.get(px, py);
            let c2 = upper.get(px, py);
            let c = Rgba {
                r: blend(c1.r, c2.r, c2.a),
                g: blend(c1.g, c2.g, c2.a),
                b: blend(c1.b, c2.b, c2.a),
                a: 255,
            };
            out.put(left + px, top + py, c);
        }
    }
}

/// The tile, numbered from left to right and from top to bottom, that column `x` of row `y` belongs
/// to when tiles are squares of side `size`; negative for what lies past the last tile.
pub open spec fn tile_at(size: int, x: int, y: int) -> int {
    if size > 0 && x / size < 16 && y / size < 16 {
        16 * (y / size) + x / size
    } else {
        -1
    }
}

/// Whether column `x` of row `y` is painted: it belongs to a tile that the zone has.
pub open spec fn is_painted(zone: &Zone, tile_ids: Seq<usize>, size: int, x: int, y: int) -> bool {
    let k = tile_at(size, x, y);
    k >= 0 && zone.has_tile(tile_ids[k] as int)
}

/// The lower texture of a tile.
pub open spec fn lower_texture(
    zone: &Zone,
    textures: Map<Seq<char>, Contents>,
    id: int,
) -> Contents {
    textures[zone.tile_textures@[zone.lower(id)]@]
}

/// The upper texture of a tile, placed as the tile asks for.
pub open spec fn upper_texture(
    zone: &Zone,
    textures: Map<Seq<char>, Contents>,
    id: int,
) -> Contents {
    zone.tiles@[id].rotation.turned(textures[zone.tile_textures@[zone.upper(id)]@])
}

/// Whether a tile can be painted with squares of side `size`: its layers name textures, those are
/// loaded, and both can be resized.
pub open spec fn is_ready(
    zone: &Zone,
    textures: Map<Seq<char>, Contents>,
    size: int,
    id: int,
) -> bool {
    &&& zone.resolves(id)
    &&& zone.has_tile(id) ==> {
        let lower = lower_texture(zone, textures, id);
        let upper = upper_texture(zone, textures, id);
        &&& textures.contains_key(zone.tile_textures@[zone.lower(id)]@)
        &&& textures.contains_key(zone.tile_textures@[zone.upper(id)]@)
        &&& outside::resizable(lower.width as int, lower.height as int, size, size)
        &&& outside::resizable(upper.width as int, upper.height as int, size, size)
    }
}

/// Whether `out` is a square of side `size` that a texture was resampled to, in the texture's own
/// pixel format. A texture of that size is kept, one without cells gives zeros, and an alpha that
/// is zero throughout stays so.
pub open spec fn is_resized(source: Contents, size: int, out: Contents) -> bool {
    &&& out.wf()
    &&& out.width == size
    &&& out.height == size
    &&& out.kind == source.kind
    &&& outside::is_lanczos3(source, out)
    &&& source.width == size && source.height == size ==> out == source
    &&& source.width == 0 || source.height == 0 ==> out.is_zero()
    &&& source.is_transparent() ==> out.is_transparent()
}

/// Resamples a texture to a square of side `size`, in its own pixel format.
fn resize_texture(texture: &Texture, size: u32) -> (out: Texture)
    requires
        outside::resizable(
            texture@.width as int,
            texture@.height as int,
            size as int,
            size as int,
        ),
    ensures
        is_resized(texture@, size as int, out@),
{
    Texture { image: outside::resize_exact(&texture.image, size, size) }
}

/// Whether `lower` and `upper` hold the resampled layers of every tile that the zone has.
pub open spec fn are_layers(
    zone: &Zone,
    tile_ids: Seq<usize>,
    textures: Map<Seq<char>, Contents>,
    size: int,
    lower: Seq<Contents>,
    upper: Seq<Contents>,
) -> bool {
    &&& lower.len() == tile_ids.len()
    &&& upper.len() == tile_ids.len()
    &&& forall|k: int|
        #![trigger tile_ids[k]]
        0 <= k < tile_ids.len() && zone.has_tile(tile_ids[k] as int) ==> is_resized(
            lower_texture(zone, textures, tile_ids[k] as int),
            size,
            lower[k],
        ) && is_resized(upper_texture(zone, textures, tile_ids[k] as int), size, upper[k])
}

/// Whether the painted part of a picture is blended from these layers.
pub open spec fn is_blended<F: Fn(u8, u8, u8) -> u8>(
    zone: &Zone,
    tile_ids: Seq<usize>,
    size: int,
    lower: Seq<Contents>,
    upper: Seq<Contents>,
    blend: F,
    out: &Picture,
) -> bool {
    forall|x: int, y: int|
        out.covers(x, y) && is_painted(zone, tile_ids, size, x, y) ==> blends(
            blend,
            lower[tile_at(size, x, y)].rgba(x % size, y % size),
            upper[tile_at(size, x, y)].rgba(x % size, y % size),
            #[trigger] out.at(x, y),
        )
}

/// A coordinate lies in square `t` of side `size` exactly if division says so.
proof fn lemma_square(size: int, t: int, x: int)
    requires
        0 < size,
        0 <= x,
        0 <= t,
    ensures
        t * size <= x < t * size + size <==> x / size == t,
        x / size == t ==> x % size == x - t * size,
{
    vstd::arithmetic::div_mod::lemma_fundamental_div_mod(x, size);
    assert(size * (x / size) == (x / size) * size) by (nonlinear_arith);
    if t * size <= x < t * size + size {
        vstd::arithmetic::div_mod::lemma_fundamental_div_mod_converse(x, size, t, x - t * size);
    }
}

/// Bakes the textures of a block into one square picture. Each tile takes a sixteenth of a side,
/// rounded down; its two textures are resampled to that size, the upper one after it has been
/// placed, and blended. A tile that the zone does not have, and what is left over on the right and
/// at the bottom, stays transparent black.
pub fn bake_albedo<F: Fn(u8, u8, u8) -> u8>(
    zone: &Zone,
    tile_ids: &Vec<usize>,
    textures: &TextureCache,
    resolution: u32,
    blend: &F,
) -> (out: Picture)
    requires
        tile_ids@.len() == 256,
        picture::fits_memory(resolution as int, resolution as int),
        forall|k: int|
            0 <= k < 256 ==> is_ready(
                zone,
                textures@,
                resolution as int / 16,
                #[trigger] tile_ids@[k] as int,
            ),
        forall|v0: u8, v1: u8, a: u8| call_requires(*blend, (v0, v1, a)),
    ensures
        out.wf(),
        out.width == resolution,
        out.height == resolution,
        forall|x: int, y: int|
            out.covers(x, y) && !is_painted(zone, tile_ids@, resolution as int / 16, x, y)
                ==> #[trigger] out.at(x, y) == color::clear(),
        exists|lower: Seq<Contents>, upper: Seq<Contents>| #[trigger]
            are_layers(zone, tile_ids@, textures@, resolution as int / 16, lower, upper)
                && is_blended(
                zone,
                tile_ids@,
                resolution as int / 16,
                lower,
                upper,
                *blend,
                &out,
            ),
{
    let mut out = blank(resolution, resolution);
    let size: u32 = resolution / TILES_PER_SIDE;
    let ghost mut lower_seq: Seq<Contents> = Seq::empty();
    let ghost mut upper_seq: Seq<Contents> = Seq::empty();
    for k in 0u32..256u32
        invariant
            size == resolution / 16,
            tile_ids@.len() == 256,
            forall|i: int|
                0 <= i < 256 ==> is_ready(zone, textures@, size as int, #[trigger] tile_ids@[i] as int),
            forall|v0: u8, v1: u8, a: u8| call_requires(*blend, (v0, v1, a)),
            out.wf(),
            out.width == resolution,
            out.height == resolution,
            are_layers(
                zone,
                tile_ids@.take(k as int),
                textures@,
                size as int,
                lower_seq,
                upper_seq,
            ),
            forall|x: int, y: int|
                out.covers(x, y) && !(is_painted(zone, tile_ids@, size as int, x, y) && tile_at(
                    size as int,
                    x,
                    y,
                ) < k) ==> #[trigger] out.at(x, y) == color::clear(),
            forall|x: int, y: int|
                out.covers(x, y) && is_painted(zone, tile_ids@, size as int, x, y) && tile_at(
                    size as int,
                    x,
                    y,
                ) < k ==> blends(
                    *blend,
                    lower_seq[tile_at(size as int, x, y)].rgba(x % size as int, y % size as int),
                    upper_seq[tile_at(size as int, x, y)].rgba(x % size as int, y % size as int),
                    #[trigger] out.at(x, y),
                ),
    {
        let ghost before = out;
        let id: usize = tile_ids[k as usize];
        assert(is_ready(zone, textures@, size as int, tile_ids@[k as int] as int));
        let ghost mut new_lower: Contents = arbitrary();
        let ghost mut new_upper: Contents = arbitrary();
        let tx: u32 = k % TILES_PER_SIDE;
        let ty: u32 = k / TILES_PER_SIDE;
        if let Some(layers) = tile_layers(zone, id) {
            let texture1 = textures.get(zone.tile_textures[layers.layer1].as_str()).unwrap();
            let texture2 = textures.get(zone.tile_textures[layers.layer2].as_str()).unwrap();
            let placed = apply_tile_rotation(texture2, layers.rotation);
            let resized1 = resize_texture(texture1, size);
            let resized2 = resize_texture(&placed, size);
            let lower = resized1.to_picture();
            let upper = resized2.to_picture();
            assert((tx + 1) * size <= resolution && (ty + 1) * size <= resolution)
                by (nonlinear_arith)
                requires
                    tx < 16,
                    ty < 16,
                    0 <= size,
                    16 * size <= resolution,
            ;
            paint_tile(&mut out, tx, ty, &lower, &upper, blend);
            proof {
                new_lower = resized1@;
                new_upper = resized2@;
            }
        }
        proof {
            lower_seq = lower_seq.push(new_lower);
            upper_seq = upper_seq.push(new_upper);
            let ids = tile_ids@.take(k + 1);
            assert forall|i: int|
                #![trigger ids[i]]
                0 <= i < ids.len() && zone.has_tile(ids[i] as int) implies is_resized(
                lower_texture(zone, textures@, ids[i] as int),
                size as int,
                lower_seq[i],
            ) && is_resized(upper_texture(zone, textures@, ids[i] as int), size as int, upper_seq[i]) by {
                if i < k {
                    assert(tile_ids@.take(k as int)[i] == ids[i]);
                }
            }
            assert forall|x: int, y: int| out.covers(x, y) implies (if is_painted(
                zone,
                tile_ids@,
                size as int,
                x,
                y,
            ) && tile_at(size as int, x, y) < k + 1 {
                blends(
                    *blend,
                    lower_seq[tile_at(size as int, x, y)].rgba(x % size as int, y % size as int),
                    upper_seq[tile_at(size as int, x, y)].rgba(x % size as int, y % size as int),
                    #[trigger] out.at(x, y),
                )
            } else {
                out.at(x, y) == color::clear()
            }) by {
                let _ = before.at(x, y);
                if size > 0 {
                    lemma_square(size as int, tx as int, x);
                    lemma_square(size as int, ty as int, y);
                }
            }
        }
    }
    assert(tile_ids@.take(256) == tile_ids@);
    assert(are_layers(zone, tile_ids@, textures@, size as int, lower_seq, upper_seq));
    out
}

/// Tells whether an image can be resized to a square of side `size`.
fn check_resizable(width: u32, height: u32, size: u32) -> (out: bool)
    ensures
        out == outside::resizable(width as int, height as int, size as int, size as int),
{
    if size > outside::MAX_SIDE {
        return false;
    }
    if (width > outside::MAX_SIDE || height > outside::MAX_SIDE) && size > outside::MAX_SMALL_SIDE {
        return false;
    }
    assert(0 <= width * size <= 0x1_0000_0000 * 0x80_0000 && 0 <= size * size <= 0x80_0000
        * 0x80_0000) by (nonlinear_arith)
        requires
            0 <= width <= 0x1_0000_0000,
            0 <= size <= 0x80_0000,
    ;
    let limit: u64 = isize::MAX as u64;
    width as u64 * size as u64 * 16 <= limit && size as u64 * size as u64 * 16 <= limit
}

/// Tells whether a tile can be painted at a resolution with the textures that are loaded.
pub fn check_tile_ready(
    zone: &Zone,
    textures: &TextureCache,
    resolution: u32,
    id: usize,
) -> (out: bool)
    ensures
        out == is_ready(zone, textures@, resolution as int / 16, id as int),
{
    if !check_tile_resolves(zone, id) {
        return false;
    }
    let size: u32 = resolution / TILES_PER_SIDE;
    match tile_layers(zone, id) {
        None => true,
        Some(layers) => {
            let lower = textures.get(zone.tile_textures[layers.layer1].as_str());
            let upper = textures.get(zone.tile_textures[layers.layer2].as_str());
            match (lower, upper) {
                (Some(lower), Some(upper)) => {
                    let quarter: bool = match layers.rotation {
                        TileRotation::Clockwise90 | TileRotation::CounterClockwise90 => true,
                        _ => false,
                    };
                    let fits: bool = if quarter {
                        check_resizable(upper.image.height(), upper.image.width(), size)
                    } else {
                        check_resizable(upper.image.width(), upper.image.height(), size)
                    };
                    fits && check_resizable(lower.image.width(), lower.image.height(), size)
                },
                _ => false,
            }
        },
    }
}

/// What is painted is opaque.
pub proof fn painted_cells_are_opaque<F: Fn(u8, u8, u8) -> u8>(
    zone: &Zone,
    tile_ids: Seq<usize>,
    size: int,
    lower: Seq<Contents>,
    upper: Seq<Contents>,
    blend: F,
    out: &Picture,
    x: int,
    y: int,
)
    requires
        is_blended(zone, tile_ids, size, lower, upper, blend, out),
        out.covers(x, y),
        is_painted(zone, tile_ids, size, x, y),
    ensures
        out.at(x, y).a == 255,
{
}

/// An opaque cell of the upper layer hides the lower one: where a blend at full alpha gives the upper
/// channel, the painted cell has the upper colour.
pub proof fn opaque_upper_cell_hides_lower<F: Fn(u8, u8, u8) -> u8>(
    zone: &Zone,
    tile_ids: Seq<usize>,
    size: int,
    lower: Seq<Contents>,
    upper: Seq<Contents>,
    blend: F,
    out: &Picture,
    x: int,
    y: int,
)
    requires
        is_blended(zone, tile_ids, size, lower, upper, blend, out),
        out.covers(x, y),
        is_painted(zone, tile_ids, size, x, y),
        upper[tile_at(size, x, y)].rgba(x % size, y % size).a == 255,
        forall|v0: u8, v1: u8, v: u8| call_ensures(blend, (v0, v1, 255u8), v) ==> v == v1,
    ensures
        out.at(x, y) == upper[tile_at(size, x, y)].rgba(x % size, y % size),
{
}

/// A clear cell of the upper layer shows the lower one: where a blend at zero alpha gives the lower
/// channel, the painted cell has the lower colour and is opaque.
pub proof fn clear_upper_cell_shows_lower<F: Fn(u8, u8, u8) -> u8>(
    zone: &Zone,
    tile_ids: Seq<usize>,
    size: int,
    lower: Seq<Contents>,
    upper: Seq<Contents>,
    blend: F,
    out: &Picture,
    x: int,
    y: int,
)
    requires
        is_blended(zone, tile_ids, size, lower, upper, blend, out),
        out.covers(x, y),
        is_painted(zone, tile_ids, size, x, y),
        upper[tile_at(size, x, y)].rgba(x % size, y % size).a == 0,
        forall|v0: u8, v1: u8, v: u8| call_ensures(blend, (v0, v1, 0u8), v) ==> v == v0,
    ensures
        ({
            let c = lower[tile_at(size, x, y)].rgba(x % size, y % size);
            out.at(x, y) == (Rgba { r: c.r, g: c.g, b: c.b, a: 255 })
        }),
{
}

/// Two zones that differ in their lower layers alone bake to one picture where the resampled upper
/// layers are opaque.
pub proof fn opaque_upper_layers_settle_the_picture<F: Fn(u8, u8, u8) -> u8>(
    zone0: &Zone,
    zone1: &Zone,
    tile_ids: Seq<usize>,
    size: int,
    lower0: Seq<Contents>,
    lower1: Seq<Contents>,
    upper: Seq<Contents>,
    blend: F,
    out0: &Picture,
    out1: &Picture,
)
    requires
        zone0.tiles@.len() == zone1.tiles@.len(),
        out0.wf(),
        out1.wf(),
        out0.width == out1.width,
        out0.height == out1.height,
        is_blended(zone0, tile_ids, size, lower0, upper, blend, out0),
        is_blended(zone1, tile_ids, size, lower1, upper, blend, out1),
        forall|x: int, y: int|
            out0.covers(x, y) && !is_painted(zone0, tile_ids, size, x, y) ==> #[trigger] out0.at(
                x,
                y,
            ) == color::clear(),
        forall|x: int, y: int|
            out1.covers(x, y) && !is_painted(zone1, tile_ids, size, x, y) ==> #[trigger] out1.at(
                x,
                y,
            ) == color::clear(),
        forall|x: int, y: int|
            out0.covers(x, y) && #[trigger] is_painted(zone0, tile_ids, size, x, y) ==> upper[tile_at(
                size,
                x,
                y,
            )].rgba(x % size, y % size).a == 255,
        forall|v0: u8, v1: u8, v: u8| call_ensures(blend, (v0, v1, 255u8), v) ==> v == v1,
    ensures
        out0@ == out1@,
{
    assert forall|i: int| 0 <= i < out0.pixels@.len() implies out0.pixels@[i] == out1.pixels@[i] by {
        let width = out0.width as int;
        picture::lemma_cell_of_index(width, out0.height as int, i);
        let x = i % width;
        let y = i / width;
        assert(is_painted(zone0, tile_ids, size, x, y) == is_painted(zone1, tile_ids, size, x, y));
        if is_painted(zone0, tile_ids, size, x, y) {
            opaque_upper_cell_hides_lower(
                zone0,
                tile_ids,
                size,
                lower0,
                upper,
                blend,
                out0,
                x,
                y,
            );
            opaque_upper_cell_hides_lower(
                zone1,
                tile_ids,
                size,
                lower1,
                upper,
                blend,
                out1,
                x,
                y,
            );
        }
        assert(out0.at(x, y) == out1.at(x, y));
    }
    assert(out0.pixels@ =~= out1.pixels@);
}

/// The cell that a painted cell takes from a layer lies in the square that the layer was resized to.
proof fn lemma_cell_in_layer(size: int, x: int, y: int)
    requires
        0 <= x,
        0 <= y,
        tile_at(size, x, y) >= 0,
    ensures
        0 <= tile_at(size, x, y) < 256,
        0 <= x % size < size,
        0 <= y % size < size,
{
    vstd::arithmetic::div_mod::lemma_div_pos_is_pos(x, size);
    vstd::arithmetic::div_mod::lemma_div_pos_is_pos(y, size);
    vstd::arithmetic::div_mod::lemma_mod_bound(x, size);
    vstd::arithmetic::div_mod::lemma_mod_bound(y, size);
}

/// An upper texture without alpha hides the lower one: a painted cell has the colour of the
/// resampled upper texture, whatever the lower texture is.
pub proof fn upper_texture_without_alpha_hides_lower<F: Fn(u8, u8, u8) -> u8>(
    zone: &Zone,
    tile_ids: Seq<usize>,
    textures: Map<Seq<char>, Contents>,
    size: int,
    lower: Seq<Contents>,
    upper: Seq<Contents>,
    blend: F,
    out: &Picture,
    x: int,
    y: int,
)
    requires
        tile_ids.len() == 256,
        are_layers(zone, tile_ids, textures, size, lower, upper),
        is_blended(zone, tile_ids, size, lower, upper, blend, out),
        out.covers(x, y),
        is_painted(zone, tile_ids, size, x, y),
        ({
            let id = tile_ids[tile_at(size, x, y)] as int;
            !textures[zone.tile_textures@[zone.upper(id)]@].kind.has_alpha()
        }),
        forall|v0: u8, v1: u8, v: u8| call_ensures(blend, (v0, v1, 255u8), v) ==> v == v1,
    ensures
        out.at(x, y) == upper[tile_at(size, x, y)].rgba(x % size, y % size),
{
    lemma_cell_in_layer(size, x, y);
    opaque_upper_cell_hides_lower(zone, tile_ids, size, lower, upper, blend, out, x, y);
}

/// An upper texture whose alpha is zero throughout shows the lower one: a painted cell has the
/// colour of the resampled lower texture, whatever the colours of the upper texture and its
/// placement are.
pub proof fn transparent_upper_texture_shows_lower<F: Fn(u8, u8, u8) -> u8>(
    zone: &Zone,
    tile_ids: Seq<usize>,
    textures: Map<Seq<char>, Contents>,
    size: int,
    lower: Seq<Contents>,
    upper: Seq<Contents>,
    blend: F,
    out: &Picture,
    x: int,
    y: int,
)
    requires
        tile_ids.len() == 256,
        are_layers(zone, tile_ids, textures, size, lower, upper),
        is_blended(zone, tile_ids, size, lower, upper, blend, out),
        out.covers(x, y),
        is_painted(zone, tile_ids, size, x, y),
        ({
            let id = tile_ids[tile_at(size, x, y)] as int;
            let texture = textures[zone.tile_textures@[zone.upper(id)]@];
            texture.wf() && texture.is_transparent()
        }),
        forall|v0: u8, v1: u8, v: u8| call_ensures(blend, (v0, v1, 0u8), v) ==> v == v0,
    ensures
        ({
            let c = lower[tile_at(size, x, y)].rgba(x % size, y % size);
            out.at(x, y) == (Rgba { r: c.r, g: c.g, b: c.b, a: 255 })
        }),
{
    lemma_cell_in_layer(size, x, y);
    let k = tile_at(size, x, y);
    let id = tile_ids[k] as int;
    rotation::placement_keeps_transparency(
        zone.tiles@[id].rotation,
        textures[zone.tile_textures@[zone.upper(id)]@],
    );
    texture::transparent_images_are_clear(upper[k], x % size, y % size);
    clear_upper_cell_shows_lower(zone, tile_ids, size, lower, upper, blend, out, x, y);
}

/// Textures that already have the size of a tile are taken as they are: each painted cell is blended
/// from the cells of the lower texture and of the placed upper texture that lie under it.
pub proof fn right_sized_textures_are_kept<F: Fn(u8, u8, u8) -> u8>(
    zone: &Zone,
    tile_ids: Seq<usize>,
    textures: Map<Seq<char>, Contents>,
    size: int,
    lower: Seq<Contents>,
    upper: Seq<Contents>,
    blend: F,
    out: &Picture,
    x: int,
    y: int,
)
    requires
        tile_ids.len() == 256,
        are_layers(zone, tile_ids, textures, size, lower, upper),
        is_blended(zone, tile_ids, size, lower, upper, blend, out),
        out.covers(x, y),
        is_painted(zone, tile_ids, size, x, y),
        ({
            let id = tile_ids[tile_at(size, x, y)] as int;
            &&& lower_texture(zone, textures, id).width == size
            &&& lower_texture(zone, textures, id).height == size
            &&& upper_texture(zone, textures, id).width == size
            &&& upper_texture(zone, textures, id).height == size
        }),
    ensures
        ({
            let id = tile_ids[tile_at(size, x, y)] as int;
            blends(
                blend,
                lower_texture(zone, textures, id).rgba(x % size, y % size),
                upper_texture(zone, textures, id).rgba(x % size, y % size),
                out.at(x, y),
            )
        }),
{
    lemma_cell_in_layer(size, x, y);
}

/// At a resolution that is a multiple of the number of tiles along a side, every cell belongs to a
/// tile.
pub proof fn tiles_cover_picture(resolution: int, x: int, y: int)
    requires
        resolution % 16 == 0,
        0 <= x < resolution,
        0 <= y < resolution,
    ensures
        0 <= tile_at(resolution / 16, x, y) < 256,
{
    let size = resolution / 16;
    assert(x / size < 16 && y / size < 16 && 0 <= x / size && 0 <= y / size) by (nonlinear_arith)
        requires
            0 < size,
            0 <= x < 16 * size,
            0 <= y < 16 * size,
    ;
}

/// The cells of a tile are those of its square: tile `k` lies in column `k % 16` of row `k / 16`.
pub proof fn tile_is_its_square(size: int, k: int, x: int, y: int)
    requires
        0 < size,
        0 <= k < 256,
        0 <= x,
        0 <= y,
    ensures
        tile_at(size, x, y) == k <==> in_square(size, k % 16, k / 16, x, y),
{
    lemma_square(size, k % 16, x);
    lemma_square(size, k / 16, y);
    vstd::arithmetic::div_mod::lemma_div_pos_is_pos(x, size);
    vstd::arithmetic::div_mod::lemma_div_pos_is_pos(y, size);
}

/// A tile's textures are the sums of its bases and offsets, and must be there for every tile that the
/// zone has.
pub proof fn tile_textures_are_sums(zone: &Zone, id: int)
    ensures
        zone.has_tile(id) <==> 0 <= id < zone.tiles@.len(),
        zone.lower(id) - zone.tiles@[id].offset1 == zone.tiles@[id].layer1,
        zone.upper(id) - zone.tiles@[id].offset2 == zone.tiles@[id].layer2,
        0 <= id < zone.tiles@.len() ==> (zone.resolves(id) <==> {
            let tile = zone.tiles@[id];
            &&& 0 <= tile.layer1 + tile.offset1 < zone.tile_textures@.len()
            &&& 0 <= tile.layer2 + tile.offset2 < zone.tile_textures@.len()
        }),
        !(0 <= id < zone.tiles@.len()) ==> zone.resolves(id),
{
}

/// What loading asks for. A tile that the zone has is loaded once both of its textures are; one that
/// it does not have needs nothing. A tile with a texture that the zone does not list cannot be
/// loaded. Else the lower texture is asked for if it is not there, and the upper one if the lower is.
pub proof fn loading_asks_for_what_is_missing(
    zone: &Zone,
    textures: Map<Seq<char>, Contents>,
    id: int,
)
    ensures
        !(0 <= id < zone.tiles@.len()) ==> is_loaded(zone, textures, id),
        0 <= id < zone.tiles@.len() ==> {
            let tile = zone.tiles@[id];
            let first = tile.layer1 + tile.offset1;
            let second = tile.layer2 + tile.offset2;
            let count = zone.tile_textures@.len();
            let listed = 0 <= first < count && 0 <= second < count;
            let has_first = textures.contains_key(zone.tile_textures@[first]@);
            let has_second = textures.contains_key(zone.tile_textures@[second]@);
            let step = needs(zone, textures, id);
            &&& is_loaded(zone, textures, id) <==> listed && has_first && has_second
            &&& !listed ==> step == LoadStep::Unresolved
            &&& listed && !has_first ==> (step matches LoadStep::Load(i) && i == first)
            &&& listed && has_first && !has_second ==> (step matches LoadStep::Load(i) && i
                == second)
        },
{
    let count: usize = zone.tile_textures.len();
    assert(count == zone.tile_textures@.len());
}

/// What a tile needs to be painted: nothing if the zone does not have it, else that both of its
/// textures are listed, loaded and small enough; the upper one as it is placed.
pub proof fn tiles_are_ready_when_their_textures_are(
    zone: &Zone,
    textures: Map<Seq<char>, Contents>,
    size: int,
    id: int,
)
    ensures
        !(0 <= id < zone.tiles@.len()) ==> is_ready(zone, textures, size, id),
        0 <= id < zone.tiles@.len() ==> {
            let tile = zone.tiles@[id];
            let t1 = textures[zone.tile_textures@[tile.layer1 + tile.offset1]@];
            let t2 = tile.rotation.turned(
                textures[zone.tile_textures@[tile.layer2 + tile.offset2]@],
            );
            is_ready(zone, textures, size, id) <==> {
                &&& is_loaded(zone, textures, id)
                &&& outside::resizable(t1.width as int, t1.height as int, size, size)
                &&& outside::resizable(t2.width as int, t2.height as int, size, size)
            }
        },
{
}

/// The square of a tile holds the cells that lie less than its side to the right of and below its
/// corner.
pub proof fn squares_start_at_their_corner(size: int, tx: int, ty: int, px: int, py: int)
    ensures
        in_square(size, tx, ty, tx * size + px, ty * size + py) <==> 0 <= px < size && 0 <= py
            < size,
{
}

/// Which cells are painted. The cells in the square of a tile are if the zone has the tile; the tiles
/// stand in sixteen rows of sixteen, and what lies past them is not painted.
pub proof fn painted_cells_lie_in_tiles_of_the_zone(
    zone: &Zone,
    tile_ids: Seq<usize>,
    size: int,
    tx: int,
    ty: int,
    px: int,
    py: int,
)
    requires
        tile_ids.len() == 256,
        0 <= tx,
        0 <= ty,
        0 <= px < size,
        0 <= py < size,
    ensures
        tx < 16 && ty < 16 ==> (is_painted(zone, tile_ids, size, tx * size + px, ty * size + py)
            <==> tile_ids[16 * ty + tx] < zone.tiles@.len()),
        tx >= 16 || ty >= 16 ==> !is_painted(
            zone,
            tile_ids,
            size,
            tx * size + px,
            ty * size + py,
        ),
{
    lemma_cell_of_tile(size, tx, ty, px, py);
}

/// Nothing is painted where tiles have no cells.
pub proof fn tiles_without_cells_paint_nothing(
    zone: &Zone,
    tile_ids: Seq<usize>,
    x: int,
    y: int,
)
    ensures
        !is_painted(zone, tile_ids, 0, x, y),
{
}

/// The tile of a cell, and its place in the tile's square.
proof fn lemma_cell_of_tile(size: int, tx: int, ty: int, px: int, py: int)
    requires
        0 <= tx,
        0 <= ty,
        0 <= px < size,
        0 <= py < size,
    ensures
        0 <= tx * size + px,
        0 <= ty * size + py,
        (tx * size + px) / size == tx,
        (ty * size + py) / size == ty,
        (tx * size + px) % size == px,
        (ty * size + py) % size == py,
        tx < 16 && ty < 16 ==> tile_at(size, tx * size + px, ty * size + py) == 16 * ty + tx,
        tx >= 16 || ty >= 16 ==> tile_at(size, tx * size + px, ty * size + py) == -1,
{
    assert(0 <= tx * size && 0 <= ty * size) by (nonlinear_arith)
        requires
            0 <= tx,
            0 <= ty,
            0 < size,
    ;
    lemma_square(size, tx, tx * size + px);
    lemma_square(size, ty, ty * size + py);
}

/// The layers of a tile are resampled, each in its own format, to the side of a tile: the lower one
/// from the texture at the sum of the tile's first base and offset, the upper one from that at the
/// sum of the second, placed by the tile's own rotation. A layer of that size is kept.
pub proof fn layers_come_from_the_textures_of_their_tile(
    zone: &Zone,
    tile_ids: Seq<usize>,
    textures: Map<Seq<char>, Contents>,
    size: int,
    lower: Seq<Contents>,
    upper: Seq<Contents>,
    k: int,
)
    requires
        are_layers(zone, tile_ids, textures, size, lower, upper),
        0 <= k < tile_ids.len(),
        tile_ids[k] < zone.tiles@.len(),
    ensures
        ({
            let tile = zone.tiles@[tile_ids[k] as int];
            let t1 = textures[zone.tile_textures@[tile.layer1 + tile.offset1]@];
            let t2 = tile.rotation.turned(
                textures[zone.tile_textures@[tile.layer2 + tile.offset2]@],
            );
            &&& outside::is_lanczos3(t1, lower[k])
            &&& outside::is_lanczos3(t2, upper[k])
            &&& lower[k].kind == t1.kind
            &&& upper[k].kind == t2.kind
            &&& lower[k].width == size && lower[k].height == size
            &&& upper[k].width == size && upper[k].height == size
            &&& lower[k].pixels.len() == size * size
            &&& upper[k].pixels.len() == size * size
            &&& t1.width == size && t1.height == size ==> lower[k] == t1
            &&& t2.width == size && t2.height == size ==> upper[k] == t2
        }),
{
}

/// How a painted cell comes about: each of its channels is an outcome of the blend for the channels
/// that the two layers of its tile have in the same place of the square, and the alpha of the upper
/// one. It is opaque.
pub proof fn painted_cell_blends_its_layers<F: Fn(u8, u8, u8) -> u8>(
    zone: &Zone,
    tile_ids: Seq<usize>,
    textures: Map<Seq<char>, Contents>,
    size: int,
    lower: Seq<Contents>,
    upper: Seq<Contents>,
    blend: F,
    out: &Picture,
    tx: int,
    ty: int,
    px: int,
    py: int,
)
    requires
        tile_ids.len() == 256,
        are_layers(zone, tile_ids, textures, size, lower, upper),
        is_blended(zone, tile_ids, size, lower, upper, blend, out),
        0 <= tx < 16,
        0 <= ty < 16,
        0 <= px < size,
        0 <= py < size,
        tx * size + px < out.width,
        ty * size + py < out.height,
        tile_ids[16 * ty + tx] < zone.tiles@.len(),
    ensures
        ({
            let k = 16 * ty + tx;
            let c1 = lower[k].kind.rgba(lower[k].pixels[py * size + px]);
            let c2 = upper[k].kind.rgba(upper[k].pixels[py * size + px]);
            let c = out.pixels@[(ty * size + py) * out.width + (tx * size + px)];
            &&& call_ensures(blend, (c1.r, c2.r, c2.a), c.r)
            &&& call_ensures(blend, (c1.g, c2.g, c2.a), c.g)
            &&& call_ensures(blend, (c1.b, c2.b, c2.a), c.b)
            &&& c.a == 255
        }),
{
    let k = 16 * ty + tx;
    lemma_cell_of_tile(size, tx, ty, px, py);
    layers_come_from_the_textures_of_their_tile(zone, tile_ids, textures, size, lower, upper, k);
    let (x, y) = (tx * size + px, ty * size + py);
    assert(is_painted(zone, tile_ids, size, x, y));
    assert(blends(blend, lower[k].rgba(px, py), upper[k].rgba(px, py), out.at(x, y)));
}

/// With textures of the size of a tile, a painted cell is blended from the cell of the lower texture
/// in its place and from the cell of the upper texture, as it is stored, that the tile's own rotation
/// brings there: the one as far from the right edge for a tile that is mirrored to the side, as far
/// from the lower edge for one that is turned over, both for one that is mirrored both ways, and for
/// the quarter turns the one that lies there before the turn.
pub proof fn painted_cell_blends_the_stored_textures<F: Fn(u8, u8, u8) -> u8>(
    zone: &Zone,
    tile_ids: Seq<usize>,
    textures: Map<Seq<char>, Contents>,
    size: int,
    lower: Seq<Contents>,
    upper: Seq<Contents>,
    blend: F,
    out: &Picture,
    tx: int,
    ty: int,
    px: int,
    py: int,
)
    requires
        tile_ids.len() == 256,
        are_layers(zone, tile_ids, textures, size, lower, upper),
        is_blended(zone, tile_ids, size, lower, upper, blend, out),
        0 <= tx < 16,
        0 <= ty < 16,
        0 <= px < size,
        0 <= py < size,
        tx * size + px < out.width,
        ty * size + py < out.height,
        tile_ids[16 * ty + tx] < zone.tiles@.len(),
        ({
            let tile = zone.tiles@[tile_ids[16 * ty + tx] as int];
            let t1 = textures[zone.tile_textures@[tile.layer1 + tile.offset1]@];
            let t2 = textures[zone.tile_textures@[tile.layer2 + tile.offset2]@];
            &&& t1.width == size && t1.height == size
            &&& t2.width == size && t2.height == size
            &&& t2.pixels.len() == size * size
        }),
    ensures
        ({
            let tile = zone.tiles@[tile_ids[16 * ty + tx] as int];
            let t1 = textures[zone.tile_textures@[tile.layer1 + tile.offset1]@];
            let t2 = textures[zone.tile_textures@[tile.layer2 + tile.offset2]@];
            let (column, row) = match tile.rotation {
                TileRotation::Unknown => (px, py),
                TileRotation::Upright => (px, py),
                TileRotation::FlipHorizontal => (size - 1 - px, py),
                TileRotation::FlipVertical => (px, size - 1 - py),
                TileRotation::Flip => (size - 1 - px, size - 1 - py),
                TileRotation::Clockwise90 => (py, size - 1 - px),
                TileRotation::CounterClockwise90 => (size - 1 - py, px),
            };
            let c1 = t1.kind.rgba(t1.pixels[py * size + px]);
            let c2 = t2.kind.rgba(t2.pixels[row * size + column]);
            let c = out.pixels@[(ty * size + py) * out.width + (tx * size + px)];
            &&& call_ensures(blend, (c1.r, c2.r, c2.a), c.r)
            &&& call_ensures(blend, (c1.g, c2.g, c2.a), c.g)
            &&& call_ensures(blend, (c1.b, c2.b, c2.a), c.b)
            &&& c.a == 255
        }),
{
    let k = 16 * ty + tx;
    let tile = zone.tiles@[tile_ids[k] as int];
    let t2 = textures[zone.tile_textures@[tile.layer2 + tile.offset2]@];
    let (column, row) = match tile.rotation {
        TileRotation::Unknown => (px, py),
        TileRotation::Upright => (px, py),
        TileRotation::FlipHorizontal => (size - 1 - px, py),
        TileRotation::FlipVertical => (px, size - 1 - py),
        TileRotation::Flip => (size - 1 - px, size - 1 - py),
        TileRotation::Clockwise90 => (py, size - 1 - px),
        TileRotation::CounterClockwise90 => (size - 1 - py, px),
    };
    painted_cell_blends_its_layers(
        zone,
        tile_ids,
        textures,
        size,
        lower,
        upper,
        blend,
        out,
        tx,
        ty,
        px,
        py,
    );
    layers_come_from_the_textures_of_their_tile(zone, tile_ids, textures, size, lower, upper, k);
    rotation::quarter_turns_exchange_sides(tile.rotation, t2);
    rotation::placements_move_pixels(t2, column, row);
}

/// A blend of two colours has its channels from the blend of theirs, with the alpha of the upper one.
pub proof fn blends_go_channel_by_channel<F: Fn(u8, u8, u8) -> u8>(
    blend: F,
    lower: Rgba,
    upper: Rgba,
    c: Rgba,
)
    ensures
        blends(blend, lower, upper, c) <==> {
            &&& c.a == 255
            &&& call_ensures(blend, (lower.b, upper.b, upper.a), c.b)
            &&& call_ensures(blend, (lower.g, upper.g, upper.a), c.g)
            &&& call_ensures(blend, (lower.r, upper.r, upper.a), c.r)
        },
{
}

/// An image can be resized to a square if its sides and that of the square are no longer than the
/// longest side, and the four floats of each cell between can be allocated.
pub proof fn ordinary_images_can_be_resized(width: int, height: int, size: int)
    requires
        0 <= width <= 0x80_0000,
        0 <= height <= 0x80_0000,
        0 <= size <= 0x80_0000,
        16 * (size * width) <= isize::MAX,
        16 * (size * size) <= isize::MAX,
    ensures
        outside::resizable(width, height, size, size),
{
    assert(size * width == width * size) by (nonlinear_arith);
}

} // verus!
