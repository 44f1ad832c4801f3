//! The tiles of one frame: where each cell of the grid is drawn, and in what colour.

use crate::board::{in_grid, Board};
use crate::snake_grid::{SnakeCell, SnakeGrid, GRID_HEIGHT, GRID_WIDTH};
use vstd::prelude::*;

verus! {

/// The side of a cell on the screen, in pixels.
pub const PIXEL_SCALE: u32 = 20;

/// A colour by its red, green and blue parts.
#[derive(Clone, Copy, PartialEq, Eq, Debug)]
pub struct Rgb {
    pub red: u8,
    pub green: u8,
    pub blue: u8,
}

/// A filled square of the frame.
#[derive(Clone, Copy, PartialEq, Eq, Debug)]
pub struct Tile {
    /// The left edge, in pixels.
    pub x: i32,
    /// The top edge, in pixels.
    pub y: i32,
    /// The width, in pixels.
    pub width: u32,
    /// The height, in pixels.
    pub height: u32,
    /// The colour that fills it.
    pub color: Rgb,
}

/// The colour of a cell: the fruit is red, the snake is blue, and the empty cells
/// make a board of two greens.
pub open spec fn tile_color(cell: SnakeCell, row: int, col: int) -> Rgb {
    match cell {
        SnakeCell::Air => if (row % 2 == 0) == (col % 2 == 0) {
            Rgb { red: 101, green: 204, blue: 90 }
        } else {
            Rgb { red: 71, green: 189, blue: 58 }
        },
        SnakeCell::Food => Rgb { red: 255, green: 25, blue: 33 },
        SnakeCell::Body(_) => Rgb { red: 52, green: 118, blue: 224 },
    }
}

/// The tile that shows the cell at `row` and `col` of the board.
pub open spec fn tile_at(b: Board, row: int, col: int) -> Tile {
    Tile {
        x: (col * PIXEL_SCALE) as i32,
        y: (row * PIXEL_SCALE) as i32,
        width: PIXEL_SCALE,
        height: PIXEL_SCALE,
        color: tile_color(b.cells[(row, col)], row, col),
    }
}

/// The colour behind the tiles.
pub fn background() -> (c: Rgb)
    ensures
        c == (Rgb { red: 0, green: 0, blue: 0 }),
{
    Rgb { red: 0, green: 0, blue: 0 }
}

/// Width and height of the window that holds the whole grid, in pixels.
pub fn window_size() -> (size: (u32, u32))
    ensures
        size.0 == GRID_WIDTH * PIXEL_SCALE,
        size.1 == GRID_HEIGHT * PIXEL_SCALE,
{
    (GRID_WIDTH as u32 * PIXEL_SCALE, GRID_HEIGHT as u32 * PIXEL_SCALE)
}

/// The colour of `cell` when it lies at `row` and `col`.
pub fn cell_color(cell: SnakeCell, row: usize, col: usize) -> (c: Rgb)
    ensures
        c == tile_color(cell, row as int, col as int),
{
    match cell {
        SnakeCell::Air => {
            if row % 2 == 0 {
                if col % 2 == 0 {
                    Rgb { red: 101, green: 204, blue: 90 }
                } else {
                    Rgb { red: 71, green: 189, blue: 58 }
                }
            } else {
                if col % 2 == 0 {
                    Rgb { red: 71, green: 189, blue: 58 }
                } else {
                    Rgb { red: 101, green: 204, blue: 90 }
                }
            }
        },
        SnakeCell::Food => Rgb { red: 255, green: 25, blue: 33 },
        SnakeCell::Body(_) => Rgb { red: 52, green: 118, blue: 224 },
    }
}

/// The tiles of the whole grid, row by row, each row from left to right.
pub fn frame(grid: &SnakeGrid) -> (tiles: Vec<Tile>)
    ensures
        tiles@.len() == GRID_WIDTH * GRID_HEIGHT,
        forall|i: int|
            0 <= i < tiles@.len() ==> #[trigger] tiles@[i] == tile_at(
                grid@,
                i / (GRID_WIDTH as int),
                i % (GRID_WIDTH as int),
            ),
{
    let mut tiles: Vec<Tile> = Vec::new();
    let mut row: usize = 0;
    while row < GRID_HEIGHT
        invariant
            row <= GRID_HEIGHT,
            tiles@.len() == row * GRID_WIDTH,
            forall|i: int|
                0 <= i < tiles@.len() ==> #[trigger] tiles@[i] == tile_at(
                    grid@,
                    i / (GRID_WIDTH as int),
                    i % (GRID_WIDTH as int),
                ),
        decreases GRID_HEIGHT - row,
    {
        let mut col: usize = 0;
        while col < GRID_WIDTH
            invariant
                row < GRID_HEIGHT,
                col <= GRID_WIDTH,
                tiles@.len() == row * GRID_WIDTH + col,
                forall|i: int|
                    0 <= i < tiles@.len() ==> #[trigger] tiles@[i] == tile_at(
                        grid@,
                        i / (GRID_WIDTH as int),
                        i % (GRID_WIDTH as int),
                    ),
            decreases GRID_WIDTH - col,
        {
            let tile = Tile {
                x: (col as u32 * PIXEL_SCALE) as i32,
                y: (row as u32 * PIXEL_SCALE) as i32,
                width: PIXEL_SCALE,
                height: PIXEL_SCALE,
                color: cell_color(grid.grid[row][col], row, col),
            };
            proof {
                assert(in_grid((row as int, col as int)));
                assert(tile == tile_at(grid@, row as int, col as int));
            }
            tiles.push(tile);
            col += 1;
        }
        row += 1;
    }
    tiles
}

} // verus!
