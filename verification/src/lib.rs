//! Core logic of a merge-board puzzle: a fixed-size grid of cells, each empty
//! or holding one collectible item; dragging an item onto a compatible
//! neighbor merges the two into a higher-tier item.

use vstd::prelude::*;

pub mod board;
pub mod coords;
pub mod item;
pub mod merge_lines;
mod rng;

pub use board::Board;
pub use board::Cell;
pub use board::DragOutcome;
pub use board::cell_in_bounds;

pub use coords::BOARD_WORLD_HEIGHT;
pub use coords::BOARD_WORLD_WIDTH;
pub use coords::CELL_SIZE;
pub use coords::PADDING;
pub use coords::SPRITE_SIZE_PX;
pub use coords::idx_to_world_coordinates;
pub use coords::world_coordinates_to_idx;
pub use item::MergableItem;
pub use item::MergeLine;
pub use merge_lines::MergeLines;
pub use merge_lines::salty_merge_line;
pub use merge_lines::select_sprite_to_spawn;
pub use merge_lines::sweet_merge_line;

verus! {

/// Number of cells along a row of the board.
pub const BOARD_WIDTH: usize = 8;

/// Number of cells along a column of the board.
pub const BOARD_HEIGHT: usize = 8;

} // verus!
