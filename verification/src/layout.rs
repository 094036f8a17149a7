//! What a display has to paint for a board: one tile per cell, the screen
//! divided evenly among the rows and the columns.

use vstd::prelude::*;
use vstd::arithmetic::div_mod::lemma_fundamental_div_mod_converse;
use crate::generation::Generation;
use crate::grid::Grid;

verus! {

/// Width of the screen, in pixels.
pub const SCREEN_WIDTH: i32 = 1280;

/// Height of the screen, in pixels.
pub const SCREEN_HEIGHT: i32 = 960;

/// Generations shown per second.
pub const TARGET_FPS: u32 = 10;

/// The colours of the display.
#[derive(Clone, Copy, Debug, PartialEq, Eq, Structural)]
pub enum Shade {
    /// The fill of a dead cell.
    DarkGray,
    /// The fill of a live cell.
    Red,
    /// The outline of every tile.
    Gray,
}

/// A rectangle of the screen that shows one cell.
#[derive(Clone, Copy, Debug, PartialEq, Eq, Structural)]
pub struct Tile {
    pub x: i32,
    pub y: i32,
    pub width: i32,
    pub height: i32,
    pub fill: Shade,
    pub border: Shade,
}

/// Width of a tile on a board of `cols` columns: the screen's width divided
/// by the number of columns, rounded down.
pub open spec fn tile_width(cols: nat) -> int {
    SCREEN_WIDTH as int / cols as int
}

/// Height of a tile on a board of `rows` rows: the screen's height divided
/// by the number of rows, rounded down.
pub open spec fn tile_height(rows: nat) -> int {
    SCREEN_HEIGHT as int / rows as int
}

/// The tile of the cell at `(r, c)`: tiles of equal size laid out row by row
/// from the top left corner of the screen, red where the cell is alive and
/// dark gray where it is dead, with a gray outline.
pub open spec fn tile_at(g: Generation, r: int, c: int) -> Tile {
    Tile {
        x: (c * tile_width(g.cols)) as i32,
        y: (r * tile_height(g.rows)) as i32,
        width: tile_width(g.cols) as i32,
        height: tile_height(g.rows) as i32,
        fill: if g.alive(r, c) {
            Shade::Red
        } else {
            Shade::DarkGray
        },
        border: Shade::Gray,
    }
}

/// The tiles of a whole board, row after row.
pub open spec fn tiles_of(g: Generation) -> Seq<Tile> {
    Seq::new(g.rows * g.cols, |k: int| tile_at(g, k / g.cols as int, k % g.cols as int))
}

/// Tiles never reach beyond the screen: `index` of them, each `extent / count`
/// long, fit in `extent`.
proof fn lemma_tile_fits(index: int, count: int, extent: int)
    requires
        0 <= index < count,
        0 <= extent,
    ensures
        0 <= extent / count <= extent,
        0 <= index * (extent / count) <= extent,
{
    vstd::arithmetic::div_mod::lemma_fundamental_div_mod(extent, count);
    let size = extent / count;
    assert(0 <= size && index * size <= count * size && 0 <= index * size) by (nonlinear_arith)
        requires
            0 <= index < count,
            0 <= extent,
            extent == count * size + extent % count,
            0 <= extent % count < count,
    ;
    assert(size <= count * size) by (nonlinear_arith)
        requires
            0 <= size,
            1 <= count,
    ;
}

/// The tile of a cell of the board lies on the screen, at the place its row
/// and column give it: its coordinates are exact products, and it ends before
/// the screen does.
pub proof fn lemma_tile_on_screen(g: Generation, r: int, c: int)
    requires
        g.in_bounds(r, c),
    ensures
        tile_at(g, r, c).width == tile_width(g.cols),
        tile_at(g, r, c).height == tile_height(g.rows),
        tile_at(g, r, c).x == c * tile_width(g.cols),
        tile_at(g, r, c).y == r * tile_height(g.rows),
        0 <= tile_at(g, r, c).x,
        0 <= tile_at(g, r, c).y,
        tile_at(g, r, c).x + tile_at(g, r, c).width <= SCREEN_WIDTH,
        tile_at(g, r, c).y + tile_at(g, r, c).height <= SCREEN_HEIGHT,
{
    lemma_tile_fits(c, g.cols as int, SCREEN_WIDTH as int);
    lemma_tile_fits(r, g.rows as int, SCREEN_HEIGHT as int);
    let width = tile_width(g.cols);
    let height = tile_height(g.rows);
    assert((c + 1) * width <= g.cols * width && (c + 1) * width == c * width + width)
        by (nonlinear_arith)
        requires
            0 <= c < g.cols,
            0 <= width,
    ;
    assert((r + 1) * height <= g.rows * height && (r + 1) * height == r * height + height)
        by (nonlinear_arith)
        requires
            0 <= r < g.rows,
            0 <= height,
    ;
    vstd::arithmetic::div_mod::lemma_fundamental_div_mod(SCREEN_WIDTH as int, g.cols as int);
    vstd::arithmetic::div_mod::lemma_fundamental_div_mod(SCREEN_HEIGHT as int, g.rows as int);
}

/// The tiles to paint for `state`, row after row, one for each cell.
pub fn tiles(state: &Grid) -> (tiles: Vec<Tile>)
    ensures
        tiles@ == tiles_of(state@),
{
    let rows = state.rows();
    let cols = state.cols();
    let mut tiles: Vec<Tile> = Vec::new();
    let mut i: usize = 0;
    while i < rows
        invariant
            i <= rows,
            rows == state@.rows,
            cols == state@.cols,
            rows * cols <= usize::MAX,
            tiles@.len() == i * cols,
            forall|k: int| 0 <= k < tiles@.len() ==> tiles@[k] == tiles_of(state@)[k],
        decreases rows - i,
    {
        let mut j: usize = 0;
        while j < cols
            invariant
                i < rows,
                j <= cols,
                rows == state@.rows,
                cols == state@.cols,
                rows * cols <= usize::MAX,
                tiles@.len() == i * cols + j,
                forall|k: int| 0 <= k < tiles@.len() ==> tiles@[k] == tiles_of(state@)[k],
            decreases cols - j,
        {
            proof {
                lemma_tile_fits(j as int, cols as int, SCREEN_WIDTH as int);
                lemma_tile_fits(i as int, rows as int, SCREEN_HEIGHT as int);
                lemma_fundamental_div_mod_converse(i * cols + j, cols as int, i as int, j as int);
                assert(i * cols + j < rows * cols) by (nonlinear_arith)
                    requires
                        i < rows,
                        j < cols,
                ;
            }
            let width = SCREEN_WIDTH as usize / cols;
            let height = SCREEN_HEIGHT as usize / rows;
            let fill = if state.get(i, j) == 1 {
                Shade::Red
            } else {
                Shade::DarkGray
            };
            tiles.push(
                Tile {
                    x: (j * width) as i32,
                    y: (i * height) as i32,
                    width: width as i32,
                    height: height as i32,
                    fill,
                    border: Shade::Gray,
                },
            );
            j += 1;
        }
        i += 1;
        proof {
            assert((i - 1) * cols + cols == i * cols) by (nonlinear_arith);
        }
    }
    tiles
}

} // verus!
