//! Normal maps.
use vstd::prelude::*;

use crate::color::Rgba;
use crate::picture;
use crate::picture::Picture;

verus! {

/// The direction that a cell of a normal map faces, with each coordinate mapped to a byte.
#[derive(Clone, Copy, Debug, PartialEq, Eq, Structural)]
pub struct Facing {
    pub x: u8,
    pub y: u8,
    pub z: u8,
}

/// Draws a square normal map. Each cell holds the direction that `facing` gives for its column and
/// row, and is opaque.
pub fn generate_normal_map<F: Fn(u32, u32) -> Facing>(resolution: u32, facing: &F) -> (out: Picture)
    requires
        picture::fits_memory(resolution as int, resolution as int),
        forall|x: u32, y: u32|
            x < resolution && y < resolution ==> call_requires(*facing, (x, y)),
    ensures
        out.wf(),
        out.width == resolution,
        out.height == resolution,
        forall|x: u32, y: u32|
            x < resolution && y < resolution ==> {
                let c = #[trigger] out.at(x as int, y as int);
                c.a == 255 && call_ensures(*facing, (x, y), Facing { x: c.r, y: c.g, z: c.b })
            },
{
    assert(0 <= resolution * resolution) by (nonlinear_arith);
    let count: usize = resolution as usize * resolution as usize;
    let mut pixels: Vec<Rgba> = Vec::new();
    for i in 0usize..count
        invariant
            count == resolution * resolution,
            forall|x: u32, y: u32|
                x < resolution && y < resolution ==> call_requires(*facing, (x, y)),
            pixels@.len() == i,
            forall|k: int|
                0 <= k < i ==> {
                    let c = #[trigger] pixels@[k];
                    c.a == 255 && call_ensures(
                        *facing,
                        ((k % resolution as int) as u32, (k / resolution as int) as u32),
                        Facing { x: c.r, y: c.g, z: c.b },
                    )
                },
    {
        proof {
            picture::lemma_cell_of_index(resolution as int, resolution as int, i as int);
        }
        let x: u32 = (i % resolution as usize) as u32;
        let y: u32 = (i / resolution as usize) as u32;
        let n = facing(x, y);
        pixels.push(Rgba { r: n.x, g: n.y, b: n.z, a: 255 });
    }
    let out = Picture { width: resolution, height: resolution, pixels };
    assert forall|x: u32, y: u32| x < resolution && y < resolution implies {
        let c = #[trigger] out.at(x as int, y as int);
        c.a == 255 && call_ensures(*facing, (x, y), Facing { x: c.r, y: c.g, z: c.b })
    } by {
        let k = picture::cell_index(resolution as int, x as int, y as int);
        picture::lemma_cell_in_grid(resolution as int, resolution as int, x as int, y as int);
        picture::lemma_cell_of_index(resolution as int, resolution as int, k);
        picture::lemma_cell_injective(
            resolution as int,
            x as int,
            y as int,
            k % resolution as int,
            k / resolution as int,
        );
        let _ = pixels@[k];
    }
    out
}

} // verus!
