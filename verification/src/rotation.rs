//! How a tile turns or mirrors its upper texture layer.
use vstd::prelude::*;

use crate::picture;
use crate::texture::{Contents, Texture};

verus! {

/// The ways in which a tile can place a texture.
#[derive(Clone, Copy, Debug, PartialEq, Eq, Structural)]
pub enum TileRotation {
    /// A code that stands for no known placement; the texture is left as it is.
    Unknown,
    Upright,
    FlipHorizontal,
    FlipVertical,
    /// Mirrored both ways, which is half a turn.
    Flip,
    Clockwise90,
    CounterClockwise90,
}

impl TileRotation {
    /// Whether the placement exchanges width and height.
    pub open spec fn is_quarter(self) -> bool {
        self == TileRotation::Clockwise90 || self == TileRotation::CounterClockwise90
    }

    /// The column of a texture of `width` by `height` that ends up in column `x` of row `y`.
    pub open spec fn source_x(self, width: int, height: int, x: int, y: int) -> int {
        match self {
            TileRotation::Unknown | TileRotation::Upright | TileRotation::FlipVertical => x,
            TileRotation::FlipHorizontal | TileRotation::Flip => width - 1 - x,
            TileRotation::Clockwise90 => y,
            TileRotation::CounterClockwise90 => width - 1 - y,
        }
    }

    /// The row of a texture of `width` by `height` that ends up in column `x` of row `y`.
    pub open spec fn source_y(self, width: int, height: int, x: int, y: int) -> int {
        match self {
            TileRotation::Unknown | TileRotation::Upright | TileRotation::FlipHorizontal => y,
            TileRotation::FlipVertical | TileRotation::Flip => height - 1 - y,
            TileRotation::Clockwise90 => height - 1 - x,
            TileRotation::CounterClockwise90 => x,
        }
    }

    /// The placement that takes this one back.
    pub open spec fn inverse(self) -> TileRotation {
        match self {
            TileRotation::Clockwise90 => TileRotation::CounterClockwise90,
            TileRotation::CounterClockwise90 => TileRotation::Clockwise90,
            _ => self,
        }
    }

    /// What a placement makes of an image.
    pub open spec fn turned(self, c: Contents) -> Contents {
        let (width, height) = if self.is_quarter() {
            (c.height, c.width)
        } else {
            (c.width, c.height)
        };
        Contents {
            width,
            height,
            kind: c.kind,
            pixels: Seq::new(
                (width * height) as nat,
                |i: int|
                    {
                        let x = i % width as int;
                        let y = i / width as int;
                        c.at(
                            self.source_x(c.width as int, c.height as int, x, y),
                            self.source_y(c.width as int, c.height as int, x, y),
                        )
                    },
            ),
        }
    }
}

/// Places a texture as a tile asks for.
pub fn apply_tile_rotation(img: &Texture, rotation: TileRotation) -> (out: Texture)
    ensures
        out@ == rotation.turned(img@),
{
    let image = match rotation {
        TileRotation::Unknown | TileRotation::Upright => {
            let copy = img.image.clone();
            proof {
                upright_changes_nothing(img@);
            }
            copy
        },
        TileRotation::FlipHorizontal => img.image.fliph(),
        TileRotation::FlipVertical => img.image.flipv(),
        TileRotation::Flip => img.image.rotate180(),
        TileRotation::Clockwise90 => img.image.rotate90(),
        TileRotation::CounterClockwise90 => img.image.rotate270(),
    };
    Texture { image }
}

/// What a placed image holds in column `x` of row `y`.
proof fn lemma_turned_at(rotation: TileRotation, p: Contents, x: int, y: int)
    requires
        p.wf(),
        0 <= x < rotation.turned(p).width,
        0 <= y < rotation.turned(p).height,
    ensures
        rotation.turned(p).wf(),
        0 <= rotation.source_x(p.width as int, p.height as int, x, y) < p.width,
        0 <= rotation.source_y(p.width as int, p.height as int, x, y) < p.height,
        rotation.turned(p).at(x, y) == p.at(
            rotation.source_x(p.width as int, p.height as int, x, y),
            rotation.source_y(p.width as int, p.height as int, x, y),
        ),
{
    let t = rotation.turned(p);
    let width = t.width as int;
    let i = picture::cell_index(width, x, y);
    picture::lemma_cell_in_grid(width, t.height as int, x, y);
    picture::lemma_cell_of_index(width, t.height as int, i);
    picture::lemma_cell_injective(width, x, y, i % width, i / width);
}

/// Two images of one size and kind that agree on every cell are one.
proof fn lemma_same_cells(p: Contents, q: Contents)
    requires
        p.wf(),
        q.wf(),
        p.width == q.width,
        p.height == q.height,
        p.kind == q.kind,
        forall|x: int, y: int|
            0 <= x < p.width && 0 <= y < p.height ==> #[trigger] p.at(x, y) == q.at(x, y),
    ensures
        p == q,
{
    assert forall|i: int| 0 <= i < p.pixels.len() implies p.pixels[i] == q.pixels[i] by {
        picture::lemma_cell_of_index(p.width as int, p.height as int, i);
        assert(p.at(i % p.width as int, i / p.width as int) == q.at(
            i % p.width as int,
            i / p.width as int,
        ));
    }
    assert(p.pixels =~= q.pixels);
}

/// A placement keeps an image well formed.
proof fn lemma_turned_wf(rotation: TileRotation, p: Contents)
    requires
        p.wf(),
    ensures
        rotation.turned(p).wf(),
{
    let t = rotation.turned(p);
    assert(0 <= t.width * t.height) by (nonlinear_arith);
}

/// An upright texture, and one with an unknown placement, is left as it is.
pub proof fn upright_changes_nothing(p: Contents)
    requires
        p.wf(),
    ensures
        TileRotation::Upright.turned(p) == p,
        TileRotation::Unknown.turned(p) == p,
{
    let t = TileRotation::Upright.turned(p);
    lemma_turned_wf(TileRotation::Upright, p);
    assert forall|x: int, y: int| 0 <= x < t.width && 0 <= y < t.height implies #[trigger] t.at(x, y)
        == p.at(x, y) by {
        lemma_turned_at(TileRotation::Upright, p, x, y);
    }
    lemma_same_cells(t, p);
    assert(TileRotation::Unknown.turned(p).pixels =~= t.pixels);
}

/// Every placement can be taken back: the mirrored ones and half a turn by themselves, the two
/// quarter turns by one another.
pub proof fn inverse_takes_back(rotation: TileRotation, p: Contents)
    requires
        p.wf(),
    ensures
        rotation.inverse().turned(rotation.turned(p)) == p,
{
    let t = rotation.turned(p);
    let u = rotation.inverse().turned(t);
    lemma_turned_wf(rotation, p);
    lemma_turned_wf(rotation.inverse(), t);
    assert forall|x: int, y: int| 0 <= x < u.width && 0 <= y < u.height implies #[trigger] u.at(x, y)
        == p.at(x, y) by {
        lemma_turned_at(rotation.inverse(), t, x, y);
        lemma_turned_at(
            rotation,
            p,
            rotation.inverse().source_x(t.width as int, t.height as int, x, y),
            rotation.inverse().source_y(t.width as int, t.height as int, x, y),
        );
    }
    lemma_same_cells(u, p);
}

/// Half a turn is a mirror image of a mirror image, and two quarter turns.
pub proof fn flip_is_half_a_turn(p: Contents)
    requires
        p.wf(),
    ensures
        TileRotation::FlipVertical.turned(TileRotation::FlipHorizontal.turned(p))
            == TileRotation::Flip.turned(p),
        TileRotation::Clockwise90.turned(TileRotation::Clockwise90.turned(p))
            == TileRotation::Flip.turned(p),
{
    let f = TileRotation::Flip.turned(p);
    let h = TileRotation::FlipHorizontal.turned(p);
    let hv = TileRotation::FlipVertical.turned(h);
    let c = TileRotation::Clockwise90.turned(p);
    let cc = TileRotation::Clockwise90.turned(c);
    lemma_turned_wf(TileRotation::Flip, p);
    lemma_turned_wf(TileRotation::FlipHorizontal, p);
    lemma_turned_wf(TileRotation::FlipVertical, h);
    lemma_turned_wf(TileRotation::Clockwise90, p);
    lemma_turned_wf(TileRotation::Clockwise90, c);
    assert forall|x: int, y: int| 0 <= x < f.width && 0 <= y < f.height implies #[trigger] f.at(x, y)
        == hv.at(x, y) && f.at(x, y) == cc.at(x, y) by {
        lemma_turned_at(TileRotation::Flip, p, x, y);
        lemma_turned_at(TileRotation::FlipVertical, h, x, y);
        lemma_turned_at(TileRotation::FlipHorizontal, p, x, h.height - 1 - y);
        lemma_turned_at(TileRotation::Clockwise90, c, x, y);
        lemma_turned_at(TileRotation::Clockwise90, p, y, c.height - 1 - x);
    }
    lemma_same_cells(f, hv);
    lemma_same_cells(f, cc);
}

/// A placement keeps an alpha that is zero throughout.
pub proof fn placement_keeps_transparency(rotation: TileRotation, p: Contents)
    requires
        p.wf(),
        p.is_transparent(),
    ensures
        rotation.turned(p).is_transparent(),
{
    let t = rotation.turned(p);
    lemma_turned_wf(rotation, p);
    assert forall|i: int| 0 <= i < t.pixels.len() implies (#[trigger] t.pixels[i]).last() == 0 by {
        picture::lemma_cell_of_index(t.width as int, t.height as int, i);
        let x = i % t.width as int;
        let y = i / t.width as int;
        lemma_turned_at(rotation, p, x, y);
        let sx = rotation.source_x(p.width as int, p.height as int, x, y);
        let sy = rotation.source_y(p.width as int, p.height as int, x, y);
        picture::lemma_cell_in_grid(p.width as int, p.height as int, sx, sy);
        assert(p.pixels[picture::cell_index(p.width as int, sx, sy)].last() == 0);
    }
}

/// Where the pixel in column `x` of row `y` goes. Mirroring takes it to the column as far from the
/// right edge, or to the row as far from the lower edge, or to both. A clockwise turn takes it to the
/// row numbered as its column was, as far from the right as it was from the top; a counterclockwise
/// turn to the column numbered as its row was, as far from the bottom as it was from the left.
pub proof fn placements_move_pixels(c: Contents, x: int, y: int)
    requires
        c.pixels.len() == c.width * c.height,
        0 <= x < c.width,
        0 <= y < c.height,
    ensures
        ({
            let (w, h) = (c.width as int, c.height as int);
            let pixel = c.pixels[y * w + x];
            &&& TileRotation::Unknown.turned(c).pixels[y * w + x] == pixel
            &&& TileRotation::Upright.turned(c).pixels[y * w + x] == pixel
            &&& TileRotation::FlipHorizontal.turned(c).pixels[y * w + (w - 1 - x)] == pixel
            &&& TileRotation::FlipVertical.turned(c).pixels[(h - 1 - y) * w + x] == pixel
            &&& TileRotation::Flip.turned(c).pixels[(h - 1 - y) * w + (w - 1 - x)] == pixel
            &&& TileRotation::Clockwise90.turned(c).pixels[x * h + (h - 1 - y)] == pixel
            &&& TileRotation::CounterClockwise90.turned(c).pixels[(w - 1 - x) * h + y] == pixel
        }),
{
    let (w, h) = (c.width as int, c.height as int);
    lemma_turned_at(TileRotation::Unknown, c, x, y);
    lemma_turned_at(TileRotation::Upright, c, x, y);
    lemma_turned_at(TileRotation::FlipHorizontal, c, w - 1 - x, y);
    lemma_turned_at(TileRotation::FlipVertical, c, x, h - 1 - y);
    lemma_turned_at(TileRotation::Flip, c, w - 1 - x, h - 1 - y);
    lemma_turned_at(TileRotation::Clockwise90, c, h - 1 - y, x);
    lemma_turned_at(TileRotation::CounterClockwise90, c, y, w - 1 - x);
}

/// A quarter turn exchanges width and height, and other placements keep them. All keep the kind and
/// the number of pixels.
pub proof fn quarter_turns_exchange_sides(rotation: TileRotation, c: Contents)
    requires
        c.pixels.len() == c.width * c.height,
    ensures
        rotation == TileRotation::Clockwise90 || rotation == TileRotation::CounterClockwise90 ==> {
            &&& rotation.turned(c).width == c.height
            &&& rotation.turned(c).height == c.width
        },
        rotation != TileRotation::Clockwise90 && rotation != TileRotation::CounterClockwise90 ==> {
            &&& rotation.turned(c).width == c.width
            &&& rotation.turned(c).height == c.height
        },
        rotation.turned(c).kind == c.kind,
        rotation.turned(c).pixels.len() == c.pixels.len(),
{
    lemma_turned_wf(rotation, c);
    assert(c.width * c.height == c.height * c.width) by (nonlinear_arith);
}

} // verus!
