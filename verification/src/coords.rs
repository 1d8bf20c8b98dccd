//! Affine mapping between grid indices and world pixel positions.
//!
//! The board is centered on the world origin. A cell index `(x, y)` maps to
//! the pixel position of that cell; the inverse map rounds a pixel position
//! to the nearest cell and rejects positions that fall outside the board.

use vstd::prelude::*;
use vstd::arithmetic::div_mod::lemma_div_is_ordered;
use vstd::arithmetic::div_mod::lemma_fundamental_div_mod_converse;

use crate::BOARD_HEIGHT;
use crate::BOARD_WIDTH;

verus! {

/// Side length of an item sprite, in pixels.
pub const SPRITE_SIZE_PX: i32 = 32;

/// Pixels of padding around a sprite within its cell.
pub const PADDING: i32 = 4;

/// Side length of one board cell, in pixels.
pub const CELL_SIZE: i32 = SPRITE_SIZE_PX + PADDING;

/// Width of the whole board in pixels: eight cells of `CELL_SIZE` each.
pub const BOARD_WORLD_WIDTH: i32 = CELL_SIZE * 8;

/// Height of the whole board in pixels: eight cells of `CELL_SIZE` each.
pub const BOARD_WORLD_HEIGHT: i32 = CELL_SIZE * 8;

/// World pixel coordinate of cell index `i` along an axis whose board spans
/// `world_extent` pixels centered on the origin.
pub open spec fn spec_idx_to_world(i: int, world_extent: int) -> int {
    i * (CELL_SIZE as int) - world_extent / 2
}

/// Cell index nearest to world pixel coordinate `w` along an axis whose
/// board spans `world_extent` pixels centered on the origin.
pub open spec fn spec_world_to_cell(w: int, world_extent: int) -> int {
    (w + world_extent / 2 + (CELL_SIZE as int) / 2) / (CELL_SIZE as int)
}

/// Whether world pixel coordinate `w` rounds to a cell index on the board
/// along an axis whose board spans `world_extent` pixels.
pub open spec fn spec_world_hits_board(w: int, world_extent: int) -> bool {
    0 <= w + world_extent / 2 + (CELL_SIZE as int) / 2 < world_extent
}

/// World pixel position of the cell with grid index `(x, y)`.
pub fn idx_to_world_coordinates(x: usize, y: usize) -> (c: (i32, i32))
    requires
        x < BOARD_WIDTH,
        y < BOARD_HEIGHT,
    ensures
        c.0 == spec_idx_to_world(x as int, BOARD_WORLD_WIDTH as int),
        c.1 == spec_idx_to_world(y as int, BOARD_WORLD_HEIGHT as int),
{
    let wx = (x as i32) * CELL_SIZE - BOARD_WORLD_WIDTH / 2;
    let wy = (y as i32) * CELL_SIZE - BOARD_WORLD_HEIGHT / 2;
    (wx, wy)
}

/// Grid cell nearest to the world pixel position `(wx, wy)`, or `None` when
/// that position lies outside the board.
pub fn world_coordinates_to_idx(wx: i32, wy: i32) -> (r: Option<(usize, usize)>)
    ensures
        r is Some <==> spec_world_hits_board(wx as int, BOARD_WORLD_WIDTH as int)
            && spec_world_hits_board(wy as int, BOARD_WORLD_HEIGHT as int),
        r is Some ==> {
            &&& r->Some_0.0 < BOARD_WIDTH
            &&& r->Some_0.1 < BOARD_HEIGHT
            &&& r->Some_0.0 as int == spec_world_to_cell(wx as int, BOARD_WORLD_WIDTH as int)
            &&& r->Some_0.1 as int == spec_world_to_cell(wy as int, BOARD_WORLD_HEIGHT as int)
        },
{
    let tx: i64 = wx as i64 + (BOARD_WORLD_WIDTH / 2) as i64 + (CELL_SIZE / 2) as i64;
    let ty: i64 = wy as i64 + (BOARD_WORLD_HEIGHT / 2) as i64 + (CELL_SIZE / 2) as i64;

    if tx < 0 || tx >= BOARD_WORLD_WIDTH as i64 {
        return None;
    }
    if ty < 0 || ty >= BOARD_WORLD_HEIGHT as i64 {
        return None;
    }

    proof {
        let cell = CELL_SIZE as int;
        lemma_fundamental_div_mod_converse(0, cell, 0, 0);
        lemma_fundamental_div_mod_converse(287, cell, 7, 35);
        lemma_div_is_ordered(0, tx as int, cell);
        lemma_div_is_ordered(tx as int, 287, cell);
        lemma_div_is_ordered(0, ty as int, cell);
        lemma_div_is_ordered(ty as int, 287, cell);
    }
    let x = (tx as usize) / (CELL_SIZE as usize);
    let y = (ty as usize) / (CELL_SIZE as usize);
    Some((x, y))
}

/// The two coordinate maps invert each other on the board: the world pixel
/// position of any cell lies on the board and rounds back to that same cell.
pub proof fn lemma_coordinate_round_trip(x: usize, y: usize)
    requires
        x < BOARD_WIDTH,
        y < BOARD_HEIGHT,
    ensures
        spec_world_hits_board(spec_idx_to_world(x as int, BOARD_WORLD_WIDTH as int), BOARD_WORLD_WIDTH as int),
        spec_world_hits_board(spec_idx_to_world(y as int, BOARD_WORLD_HEIGHT as int), BOARD_WORLD_HEIGHT as int),
        spec_world_to_cell(spec_idx_to_world(x as int, BOARD_WORLD_WIDTH as int), BOARD_WORLD_WIDTH as int) == x,
        spec_world_to_cell(spec_idx_to_world(y as int, BOARD_WORLD_HEIGHT as int), BOARD_WORLD_HEIGHT as int) == y,
{
    let cell = CELL_SIZE as int;
    lemma_fundamental_div_mod_converse(x * cell + cell / 2, cell, x as int, cell / 2);
    lemma_fundamental_div_mod_converse(y * cell + cell / 2, cell, y as int, cell / 2);
}

} // verus!
