//! The picture of a grid: one pixel per cell, in the cell's colour, or in a
//! neutral grey where the cell was never filled.
//!
//! The picture is an `RgbImage` of the `image` crate, kept behind a type of
//! this library. What the crate's calls do is stated without proof, over the
//! map from a pixel's place to its channels; that `render` sets every pixel
//! as said is proved from it.

use vstd::prelude::*;
use image::{ImageBuffer, Rgb, RgbImage};
use crate::color::Color;
use crate::grid::{Cell, Grid, GridView};
use crate::point::Location;

verus! {

/// A picture of three 8-bit channels per pixel: an `RgbImage` of the `image`
/// crate, which only the functions of this module reach.
#[verifier::external_body]
pub struct Picture {
    image: RgbImage,
}

/// The pixels of a picture: the three channels at each place `(x, y)` with
/// `x` below the width and `y` below the height.
pub uninterp spec fn picture_pixels(picture: Picture) -> Map<(int, int), (u8, u8, u8)>;

/// The channels that a cell is shown in.
pub open spec fn shade(cell: Cell) -> (u8, u8, u8) {
    match cell {
        Cell::Filled(c) => (c.r, c.g, c.b),
        Cell::Empty => (128u8, 128u8, 128u8),
    }
}

/// The picture of a grid: the pixel at `(x, y)` shows the cell at `(x, y)`.
pub open spec fn picture(grid: GridView) -> Map<(int, int), (u8, u8, u8)> {
    Map::new(
        |p: (int, int)| 0 <= p.0 < grid.size && 0 <= p.1 < grid.size,
        |p: (int, int)| shade(grid.cells[p.0][p.1]),
    )
}

/// The picture while it is painted: the cells before `(x, y)`, row by row,
/// are shown, the others are still black.
pub open spec fn painted(grid: GridView, x: int, y: int) -> Map<(int, int), (u8, u8, u8)> {
    Map::new(
        |p: (int, int)| 0 <= p.0 < grid.size && 0 <= p.1 < grid.size,
        |p: (int, int)|
            if p.0 < x || (p.0 == x && p.1 < y) {
                shade(grid.cells[p.0][p.1])
            } else {
                (0u8, 0u8, 0u8)
            },
    )
}

/// `ImageBuffer::new`: a picture of the given width and height with every
/// channel zero. The call panics where three times the number of pixels
/// does not fit in `usize`.
#[verifier::external_body]
fn blank_picture(width: u32, height: u32) -> (picture: Picture)
    requires
        3 * width * height <= usize::MAX,
    ensures
        picture_pixels(picture) == Map::new(
            |p: (int, int)| 0 <= p.0 < width && 0 <= p.1 < height,
            |p: (int, int)| (0u8, 0u8, 0u8),
        ),
{
    Picture { image: ImageBuffer::new(width, height) }
}

/// `ImageBuffer::put_pixel`: the pixel at `(x, y)` takes the colour and no
/// other pixel changes. The call panics where `(x, y)` is outside the
/// picture.
#[verifier::external_body]
fn put_pixel(picture: &mut Picture, x: u32, y: u32, color: Color)
    requires
        picture_pixels(*old(picture)).dom().contains((x as int, y as int)),
    ensures
        picture_pixels(*final(picture)) == picture_pixels(*old(picture)).insert(
            (x as int, y as int),
            (color.r, color.g, color.b),
        ),
{
    picture.image.put_pixel(x, y, Rgb([color.r, color.g, color.b]));
}

/// `ImageBuffer::get_pixel`: the channels of the pixel at `(x, y)`. The call
/// panics where `(x, y)` is outside the picture.
#[verifier::external_body]
fn get_pixel(picture: &Picture, x: u32, y: u32) -> (color: Color)
    requires
        picture_pixels(*picture).dom().contains((x as int, y as int)),
    ensures
        (color.r, color.g, color.b) == picture_pixels(*picture)[(x as int, y as int)],
{
    let Rgb([r, g, b]) = *picture.image.get_pixel(x, y);
    Color { r, g, b }
}

/// `ImageBuffer::dimensions`: the width and the height. A place belongs to
/// the picture exactly when it lies below both.
#[verifier::external_body]
fn dimensions(picture: &Picture) -> (d: (u32, u32))
    ensures
        forall|x: int, y: int|
            #[trigger] picture_pixels(*picture).dom().contains((x, y)) <==> 0 <= x < d.0 && 0 <= y
                < d.1,
{
    picture.image.dimensions()
}

impl Picture {
    /// The colour of the pixel at `(x, y)`, or `None` where the picture has
    /// no such pixel.
    pub fn pixel(&self, x: u32, y: u32) -> (color: Option<Color>)
        ensures
            color is Some <==> picture_pixels(*self).dom().contains((x as int, y as int)),
            color matches Some(c) ==> (c.r, c.g, c.b) == picture_pixels(*self)[(
                x as int,
                y as int,
            )],
    {
        let (width, height) = dimensions(self);
        assert(picture_pixels(*self).dom().contains((x as int, y as int)) <==> 0 <= x < width && 0
            <= y < height);
        if x < width && y < height {
            Some(get_pixel(self, x, y))
        } else {
            None
        }
    }
}

/// The picture of the grid, or `None` where its buffer of three bytes per
/// cell would not fit in memory's address range.
pub fn render(grid: &Grid) -> (image: Option<Picture>)
    requires
        grid@.square(),
    ensures
        image is Some <==> 3 * grid@.size * grid@.size <= usize::MAX,
        image matches Some(img) ==> picture_pixels(img) == picture(grid@),
{
    let size = grid.size();
    let cells = match size.checked_mul(size) {
        Some(cells) => cells,
        None => {
            assert(3 * (size * size) > usize::MAX) by (nonlinear_arith)
                requires
                    size * size > usize::MAX,
            ;
            assert(3 * size * size == 3 * (size * size)) by (nonlinear_arith);
            return None;
        },
    };
    assert(3 * size * size == 3 * cells) by (nonlinear_arith)
        requires
            cells == size * size,
    ;
    if cells.checked_mul(3).is_none() {
        return None;
    }
    let side = size as u32;
    assert(3 * side * side == 3 * cells) by (nonlinear_arith)
        requires
            cells == side * side,
    ;
    let mut img = blank_picture(side, side);
    assert(picture_pixels(img) =~= painted(grid@, 0, 0));
    let mut x: usize = 0;
    while x < size
        invariant
            x <= size,
            size == grid@.size,
            side == size,
            grid@.square(),
            picture_pixels(img) == painted(grid@, x as int, 0),
        decreases size - x,
    {
        let mut y: usize = 0;
        while y < size
            invariant
                x < size,
                y <= size,
                size == grid@.size,
                side == size,
                grid@.square(),
                picture_pixels(img) == painted(grid@, x as int, y as int),
            decreases size - y,
        {
            let color = match grid.cell(Location { x, y }) {
                Cell::Filled(c) => c,
                Cell::Empty => Color::neutral(),
            };
            put_pixel(&mut img, x as u32, y as u32, color);
            assert(picture_pixels(img) =~= painted(grid@, x as int, y + 1));
            y = y + 1;
        }
        assert(painted(grid@, x as int, size as int) =~= painted(grid@, x + 1, 0));
        x = x + 1;
    }
    assert(painted(grid@, size as int, 0) =~= picture(grid@));
    Some(img)
}

/// One of the three channels of a pixel.
pub open spec fn channel(pixel: (u8, u8, u8), k: int) -> u8 {
    if k == 0 {
        pixel.0
    } else if k == 1 {
        pixel.1
    } else {
        pixel.2
    }
}

/// Where channel `k` of the cell at `(x, y)` stands among the bytes of a
/// frame: the cells follow one another by their first index and within that
/// by their second, three bytes each.
pub open spec fn frame_index(size: nat, x: int, y: int, k: int) -> int {
    3 * (x * size + y) + k
}

/// Cells that come earlier in a frame have the smaller number.
proof fn lemma_cell_order(size: int, x1: int, y1: int, x2: int, y2: int)
    by (nonlinear_arith)
    requires
        0 <= y1 < size,
        0 <= y2 < size,
        0 <= x1,
        x1 < x2 || (x1 == x2 && y1 < y2),
    ensures
        x1 * size + y1 < x2 * size + y2,
        x1 * size + y1 >= 0,
{
}

/// The grid as the bytes of one frame: three bytes for every cell, the
/// cell's colour or the neutral grey, the cells in the order of
/// `frame_index`.
pub fn frame_bytes(grid: &Grid) -> (bytes: Vec<u8>)
    requires
        grid@.square(),
    ensures
        bytes@.len() == 3 * grid@.size * grid@.size,
        forall|x: int, y: int, k: int|
            0 <= x < grid@.size && 0 <= y < grid@.size && 0 <= k < 3 ==> #[trigger] bytes@[frame_index(
                grid@.size,
                x,
                y,
                k,
            )] == channel(shade(grid@.cells[x][y]), k),
{
    let size = grid.size();
    let mut bytes: Vec<u8> = Vec::new();
    let mut x: usize = 0;
    while x < size
        invariant
            x <= size,
            size == grid@.size,
            grid@.square(),
            bytes@.len() == 3 * (x * size),
            forall|i: int, j: int, k: int|
                0 <= i < x && 0 <= j < size && 0 <= k < 3 ==> #[trigger] bytes@[frame_index(
                    size as nat,
                    i,
                    j,
                    k,
                )] == channel(shade(grid@.cells[i][j]), k),
        decreases size - x,
    {
        let mut y: usize = 0;
        while y < size
            invariant
                x < size,
                y <= size,
                size == grid@.size,
                grid@.square(),
                bytes@.len() == 3 * (x * size + y),
                forall|i: int, j: int, k: int|
                    0 <= i <= x && 0 <= j < size && (i < x || j < y) && 0 <= k < 3
                        ==> #[trigger] bytes@[frame_index(size as nat, i, j, k)] == channel(
                        shade(grid@.cells[i][j]),
                        k,
                    ),
            decreases size - y,
        {
            let color = match grid.cell(Location { x, y }) {
                Cell::Filled(c) => c,
                Cell::Empty => Color::neutral(),
            };
            let ghost before = bytes@;
            bytes.push(color.r);
            bytes.push(color.g);
            bytes.push(color.b);
            proof {
                assert forall|i: int, j: int, k: int|
                    0 <= i <= x && 0 <= j < size && (i < x || j < y + 1) && 0 <= k < 3 implies #[trigger] bytes@[frame_index(
                    size as nat,
                    i,
                    j,
                    k,
                )] == channel(shade(grid@.cells[i][j]), k) by {
                    if i < x || j < y {
                        lemma_cell_order(size as int, i, j, x as int, y as int);
                        assert(bytes@[frame_index(size as nat, i, j, k)] == before[frame_index(
                            size as nat,
                            i,
                            j,
                            k,
                        )]);
                    }
                }
            }
            y = y + 1;
        }
        assert(3 * (x * size + size) == 3 * ((x + 1) * size)) by (nonlinear_arith);
        x = x + 1;
    }
    assert(3 * (size * size) == 3 * size * size) by (nonlinear_arith);
    bytes
}

} // verus!
