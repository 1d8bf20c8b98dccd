use merge_board::idx_to_world_coordinates;
use merge_board::world_coordinates_to_idx;
use merge_board::BOARD_HEIGHT;
use merge_board::BOARD_WIDTH;
use merge_board::CELL_SIZE;

#[test]
fn cell_size_is_sprite_plus_padding() {
    assert_eq!(CELL_SIZE, 36);
}

#[test]
fn origin_cell_world_position() {
    assert_eq!(idx_to_world_coordinates(0, 0), (-144, -144));
}

#[test]
fn far_corner_world_position() {
    assert_eq!(idx_to_world_coordinates(7, 7), (108, 108));
}

#[test]
fn world_position_resolves_to_cell() {
    assert_eq!(world_coordinates_to_idx(-144, -144), Some((0, 0)));
    assert_eq!(world_coordinates_to_idx(108, 108), Some((7, 7)));
    assert_eq!(world_coordinates_to_idx(0, 0), Some((4, 4)));
}

#[test]
fn near_miss_rounds_to_nearest_cell() {
    // Half a cell in each direction still rounds back to the same cell.
    let (wx, wy) = idx_to_world_coordinates(3, 5);
    assert_eq!(world_coordinates_to_idx(wx + 17, wy - 17), Some((3, 5)));
    assert_eq!(world_coordinates_to_idx(wx - 18, wy + 17), Some((3, 5)));
}

#[test]
fn positions_off_the_board_are_rejected() {
    assert_eq!(world_coordinates_to_idx(-163, 0), None);
    assert_eq!(world_coordinates_to_idx(126, 0), None);
    assert_eq!(world_coordinates_to_idx(0, -163), None);
    assert_eq!(world_coordinates_to_idx(0, 126), None);
    assert_eq!(world_coordinates_to_idx(100_000, 100_000), None);
}

#[test]
fn edge_positions_still_hit_the_board() {
    assert_eq!(world_coordinates_to_idx(-162, -162), Some((0, 0)));
    assert_eq!(world_coordinates_to_idx(125, 125), Some((7, 7)));
}

#[test]
fn every_cell_round_trips() {
    for x in 0..BOARD_WIDTH {
        for y in 0..BOARD_HEIGHT {
            let (wx, wy) = idx_to_world_coordinates(x, y);
            assert_eq!(world_coordinates_to_idx(wx, wy), Some((x, y)));
        }
    }
}
