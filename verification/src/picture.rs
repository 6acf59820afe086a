//! Pictures as row-major grids of colours.
use vstd::prelude::*;

use crate::color;
use crate::color::Rgba;

verus! {

/// The place of column `x` of row `y` in a row-major grid that is `width` cells wide.
pub open spec fn cell_index(width: int, x: int, y: int) -> int {
    y * width + x
}

/// What a row-major grid holds in column `x` of row `y`.
pub open spec fn cell<T>(grid: Seq<T>, width: int, x: int, y: int) -> T {
    grid[cell_index(width, x, y)]
}

/// A cell inside a grid has a place inside it.
pub proof fn lemma_cell_in_grid(width: int, height: int, x: int, y: int)
    requires
        0 <= x < width,
        0 <= y < height,
    ensures
        0 <= cell_index(width, x, y) < width * height,
        0 <= y * width,
{
    assert(0 <= y * width && y * width + width <= height * width) by (nonlinear_arith)
        requires
            0 <= x < width,
            0 <= y < height,
    ;
    assert(height * width == width * height) by (nonlinear_arith);
}

/// Two cells of a grid share a place only if they are one cell.
pub proof fn lemma_cell_injective(width: int, x0: int, y0: int, x1: int, y1: int)
    requires
        0 <= x0 < width,
        0 <= x1 < width,
        cell_index(width, x0, y0) == cell_index(width, x1, y1),
    ensures
        x0 == x1,
        y0 == y1,
{
    assert(y0 == y1) by (nonlinear_arith)
        requires
            0 <= x0 < width,
            0 <= x1 < width,
            y0 * width + x0 == y1 * width + x1,
    ;
}

/// Every place of a grid belongs to a cell.
pub proof fn lemma_cell_of_index(width: int, height: int, i: int)
    requires
        0 <= width,
        0 <= i < width * height,
    ensures
        0 <= i % width < width,
        0 <= i / width < height,
        cell_index(width, i % width, i / width) == i,
{
    assert(0 < width) by (nonlinear_arith)
        requires
            0 <= i < width * height,
            0 <= width,
    ;
    vstd::arithmetic::div_mod::lemma_fundamental_div_mod(i, width);
    assert(0 <= i / width < height && width * (i / width) == (i / width) * width)
        by (nonlinear_arith)
        requires
            0 <= i < width * height,
            0 < width,
            i == width * (i / width) + i % width,
            0 <= i % width < width,
    ;
}

/// A picture: its colours from left to right and from top to bottom.
pub struct Picture {
    pub width: u32,
    pub height: u32,
    pub pixels: Vec<Rgba>,
}

impl View for Picture {
    type V = (u32, u32, Seq<Rgba>);

    /// The width, the height and the colours in row-major order.
    open spec fn view(&self) -> (u32, u32, Seq<Rgba>) {
        (self.width, self.height, self.pixels@)
    }
}

impl Picture {
    /// The picture holds one colour for each of its cells.
    pub open spec fn wf(&self) -> bool {
        self.pixels@.len() == self.width * self.height
    }

    /// The colour in column `x` of row `y`.
    pub open spec fn at(&self, x: int, y: int) -> Rgba {
        cell(self.pixels@, self.width as int, x, y)
    }

    /// Whether column `x` of row `y` lies in the picture.
    pub open spec fn covers(&self, x: int, y: int) -> bool {
        0 <= x < self.width && 0 <= y < self.height
    }

    /// Reads the colour in column `x` of row `y`.
    pub fn get(&self, x: u32, y: u32) -> (out: Rgba)
        requires
            self.wf(),
            self.covers(x as int, y as int),
        ensures
            out == self.at(x as int, y as int),
    {
        let count: usize = self.pixels.len();
        proof {
            lemma_cell_in_grid(self.width as int, self.height as int, x as int, y as int);
        }
        self.pixels[y as usize * self.width as usize + x as usize]
    }

    /// Writes the colour in column `x` of row `y` and leaves the others as they are.
    pub fn put(&mut self, x: u32, y: u32, c: Rgba)
        requires
            old(self).wf(),
            old(self).covers(x as int, y as int),
        ensures
            final(self).wf(),
            final(self).width == old(self).width,
            final(self).height == old(self).height,
            forall|x1: int, y1: int|
                old(self).covers(x1, y1) ==> #[trigger] final(self).at(x1, y1) == if x1 == x && y1
                    == y {
                    c
                } else {
                    old(self).at(x1, y1)
                },
    {
        let count: usize = self.pixels.len();
        let width: u32 = self.width;
        proof {
            lemma_cell_in_grid(width as int, self.height as int, x as int, y as int);
        }
        self.pixels[y as usize * width as usize + x as usize] = c;
        assert forall|x1: int, y1: int| old(self).covers(x1, y1) implies #[trigger] self.at(x1, y1)
            == if x1 == x && y1 == y {
            c
        } else {
            old(self).at(x1, y1)
        } by {
            lemma_cell_in_grid(width as int, self.height as int, x1, y1);
            if cell_index(width as int, x1, y1) == cell_index(width as int, x as int, y as int) {
                lemma_cell_injective(width as int, x1, y1, x as int, y as int);
            }
        }
    }
}

/// Whether the four bytes of each cell of a picture can be allocated at once.
pub open spec fn fits_memory(width: int, height: int) -> bool {
    width * height * 4 <= isize::MAX
}

/// Tells whether a picture of this size can be allocated.
pub fn check_fits_memory(width: u32, height: u32) -> (out: bool)
    ensures
        out == fits_memory(width as int, height as int),
{
    assert(0 <= width * height <= u32::MAX * u32::MAX) by (nonlinear_arith)
        requires
            0 <= width <= u32::MAX,
            0 <= height <= u32::MAX,
    ;
    let cells: u64 = width as u64 * height as u64;
    cells <= isize::MAX as u64 / 4
}

/// A transparent black picture.
pub fn blank(width: u32, height: u32) -> (out: Picture)
    requires
        fits_memory(width as int, height as int),
    ensures
        out.wf(),
        out.width == width,
        out.height == height,
        forall|x: int, y: int| out.covers(x, y) ==> #[trigger] out.at(x, y) == color::clear(),
{
    assert(0 <= width * height) by (nonlinear_arith);
    let pixels = vec![Rgba { r: 0, g: 0, b: 0, a: 0 }; width as usize * height as usize];
    let out = Picture { width, height, pixels };
    assert forall|x: int, y: int| out.covers(x, y) implies #[trigger] out.at(x, y) == color::clear() by {
        lemma_cell_in_grid(width as int, height as int, x, y);
    }
    out
}

/// Cells are numbered from left to right and then from top to bottom, from zero and without gaps.
pub proof fn cells_are_numbered_row_by_row(width: int, x: int, y: int)
    ensures
        cell_index(width, 0, 0) == 0,
        cell_index(width, x + 1, y) == cell_index(width, x, y) + 1,
        cell_index(width, 0, y + 1) == cell_index(width, width - 1, y) + 1,
{
    assert((y + 1) * width == y * width + width) by (nonlinear_arith);
    assert(0 * width == 0) by (nonlinear_arith);
}

/// A row put below a grid holds the cells of the next row, and the rows above keep theirs.
pub proof fn appended_row_comes_last<T>(
    grid: Seq<T>,
    row: Seq<T>,
    width: int,
    height: int,
    x: int,
    y: int,
)
    requires
        grid.len() == width * height,
        row.len() == width,
        0 <= x < width,
        0 <= y < height,
    ensures
        cell(grid + row, width, x, height) == row[x],
        cell(grid + row, width, x, y) == cell(grid, width, x, y),
        cell(grid, width, x, y) == grid[x + width * y],
{
    lemma_cell_in_grid(width, height, x, y);
    assert(width * y == y * width) by (nonlinear_arith);
    assert(height * width == width * height) by (nonlinear_arith);
}

/// A picture has the cells from its first to its last column and row and no others, and their
/// colours stand in its list row after row.
pub proof fn picture_is_its_rows(p: &Picture, x: int, y: int)
    ensures
        p.covers(x, y) <==> 0 <= x && x < p.width && 0 <= y && y < p.height,
        p.at(x, y) == p.pixels@[x + p.width * y],
        p.wf() <==> p.pixels@.len() == p.height * p.width,
        p@.0 == p.width,
        p@.1 == p.height,
        p@.2 == p.pixels@,
{
    assert(p.width * y == y * p.width) by (nonlinear_arith);
    assert(p.width * p.height == p.height * p.width) by (nonlinear_arith);
}

/// A picture can be allocated exactly if its bytes, four for each cell, can be counted by a signed
/// machine word.
pub proof fn pictures_that_can_be_counted_fit(width: int, height: int)
    ensures
        fits_memory(width, height) <==> 4 * (height * width) <= isize::MAX,
{
    assert(width * height == height * width) by (nonlinear_arith);
}

} // verus!
