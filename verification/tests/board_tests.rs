use merge_board::Board;
use merge_board::DragOutcome;
use merge_board::MergableItem;
use merge_board::MergeLine;
use merge_board::idx_to_world_coordinates;
use merge_board::BOARD_HEIGHT;
use merge_board::BOARD_WIDTH;

#[test]
fn merge_rule_same_tier_and_line() {
    let a = MergableItem { x: 0, y: 0, tier: 1, merge_line: MergeLine::SWEET };
    let b = MergableItem { x: 1, y: 0, tier: 1, merge_line: MergeLine::SWEET };
    assert!(a.can_be_merged_with(&b));
    assert!(b.can_be_merged_with(&a));
}

#[test]
fn merge_rule_different_tier() {
    let a = MergableItem { x: 0, y: 0, tier: 1, merge_line: MergeLine::SWEET };
    let b = MergableItem { x: 1, y: 0, tier: 2, merge_line: MergeLine::SWEET };
    assert!(!a.can_be_merged_with(&b));
}

#[test]
fn merge_rule_different_line() {
    let a = MergableItem { x: 0, y: 0, tier: 1, merge_line: MergeLine::SWEET };
    let b = MergableItem { x: 1, y: 0, tier: 1, merge_line: MergeLine::SALTY };
    assert!(!a.can_be_merged_with(&b));
}

#[test]
fn merge_rule_same_cell() {
    let a = MergableItem { x: 3, y: 4, tier: 1, merge_line: MergeLine::SALTY };
    let b = MergableItem { x: 3, y: 4, tier: 1, merge_line: MergeLine::SALTY };
    assert!(!a.can_be_merged_with(&b));
}

#[test]
fn new_board_is_empty() {
    let b = Board::new();
    assert_eq!(b.cells.len(), BOARD_HEIGHT);
    for row in &b.cells {
        assert_eq!(row.len(), BOARD_WIDTH);
        for cell in row {
            assert!(cell.is_none());
        }
    }
    assert_eq!(b.items.len(), 0);
}

#[test]
fn spawn_item_places_handle() {
    let mut b = Board::new();
    let id = b.spawn_item(2, 5, 0, MergeLine::SWEET);
    assert_eq!(id, 0);
    assert_eq!(b.cells[5][2], Some(0));
    assert_eq!(
        b.items[0],
        Some(MergableItem { x: 2, y: 5, tier: 0, merge_line: MergeLine::SWEET })
    );
}

#[test]
fn drop_on_partner_merges() {
    let mut b = Board::new();
    let dropped = b.spawn_item(0, 0, 1, MergeLine::SWEET);
    let partner = b.spawn_item(4, 6, 1, MergeLine::SWEET);
    // Release the dragged item right on the partner's cell.
    let (wx, wy) = idx_to_world_coordinates(4, 6);
    let out = b.merge_or_snap_back(dropped, wx, wy);
    assert_eq!(out, DragOutcome::Merged { x: 4, y: 6, partner, merged: 2 });
    // Both inputs despawned, one new item of the next tier on the partner's cell.
    assert_eq!(b.items[dropped], None);
    assert_eq!(b.items[partner], None);
    assert_eq!(
        b.items[2],
        Some(MergableItem { x: 4, y: 6, tier: 2, merge_line: MergeLine::SWEET })
    );
    assert_eq!(b.cells[0][0], None);
    assert_eq!(b.cells[6][4], Some(2));
}

#[test]
fn drop_near_partner_still_merges() {
    let mut b = Board::new();
    let dropped = b.spawn_item(1, 1, 0, MergeLine::SALTY);
    let partner = b.spawn_item(2, 2, 0, MergeLine::SALTY);
    // A release a few pixels off the partner's position rounds to its cell.
    let (wx, wy) = idx_to_world_coordinates(2, 2);
    let out = b.merge_or_snap_back(dropped, wx + 10, wy - 10);
    assert_eq!(out, DragOutcome::Merged { x: 2, y: 2, partner, merged: 2 });
}

#[test]
fn drop_on_empty_cell_snaps_back() {
    let mut b = Board::new();
    let dropped = b.spawn_item(3, 3, 0, MergeLine::SWEET);
    let (wx, wy) = idx_to_world_coordinates(5, 5);
    let out = b.merge_or_snap_back(dropped, wx, wy);
    assert_eq!(out, DragOutcome::SnappedBack { x: 3, y: 3 });
    // Nothing changed.
    assert_eq!(b.cells[3][3], Some(dropped));
    assert!(b.items[dropped].is_some());
}

#[test]
fn drop_outside_board_snaps_back() {
    let mut b = Board::new();
    let dropped = b.spawn_item(0, 7, 2, MergeLine::SALTY);
    let out = b.merge_or_snap_back(dropped, 100_000, 0);
    assert_eq!(out, DragOutcome::SnappedBack { x: 0, y: 7 });
}

#[test]
fn drop_on_incompatible_item_snaps_back() {
    let mut b = Board::new();
    let dropped = b.spawn_item(0, 0, 1, MergeLine::SWEET);
    let other = b.spawn_item(4, 6, 2, MergeLine::SWEET);
    let (wx, wy) = idx_to_world_coordinates(4, 6);
    let out = b.merge_or_snap_back(dropped, wx, wy);
    assert_eq!(out, DragOutcome::SnappedBack { x: 0, y: 0 });
    assert_eq!(b.cells[6][4], Some(other));
}

#[test]
fn drop_on_own_cell_snaps_back() {
    let mut b = Board::new();
    let dropped = b.spawn_item(2, 2, 0, MergeLine::SWEET);
    let (wx, wy) = idx_to_world_coordinates(2, 2);
    let out = b.merge_or_snap_back(dropped, wx, wy);
    assert_eq!(out, DragOutcome::SnappedBack { x: 2, y: 2 });
    assert_eq!(b.cells[2][2], Some(dropped));
}

#[test]
fn starting_items_fill_empty_cells() {
    let mut b = Board::new();
    let spawned = b.spawn_starting_items(16);
    assert_eq!(spawned, 16);
    assert_eq!(b.items.len(), 16);
    let mut on_board = 0;
    for (id, slot) in b.items.iter().enumerate() {
        let item = slot.expect("every starting item is live");
        assert_eq!(item.tier, 0);
        assert_eq!(b.cells[item.y][item.x], Some(id));
        on_board += 1;
    }
    assert_eq!(on_board, 16);
}

#[test]
fn starting_items_stop_when_board_full() {
    let mut b = Board::new();
    let spawned = b.spawn_starting_items(64);
    assert_eq!(spawned, 64);
    // The board is full now; further spawns find no empty cell.
    let more = b.spawn_starting_items(5);
    assert_eq!(more, 0);
    assert_eq!(b.items.len(), 64);
    for row in &b.cells {
        for cell in row {
            assert!(cell.is_some());
        }
    }
}
