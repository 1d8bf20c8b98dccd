//! The merge board: a fixed grid of cells, each empty or holding a handle to
//! one live item, together with the items themselves.
//!
//! An item handle is the index of the item's slot in `items`; despawning an
//! item leaves `None` in its slot. The board invariant ties the two sides
//! together: a cell's handle, if present, names a live item whose own stored
//! coordinates match that cell.

use vstd::prelude::*;

use crate::BOARD_HEIGHT;
use crate::BOARD_WIDTH;
use crate::item::MergableItem;
use crate::item::MergeLine;

verus! {

broadcast use vstd::seq_lib::lemma_seq_contains_after_push;

/// A piece of board, either empty or holding the handle of a merge item.
pub type Cell = Option<usize>;

/// Whether `(x, y)` is a grid coordinate on the board.
pub open spec fn cell_in_bounds(x: int, y: int) -> bool {
    0 <= x < BOARD_WIDTH as int && 0 <= y < BOARD_HEIGHT as int
}

/// What a drag release resolved to: either a merge happened, or the dragged
/// item goes back to where it came from.
#[derive(Clone, Copy, PartialEq, Eq, Structural, Debug)]
pub enum DragOutcome {
    /// Two items merged: the cell where it happened, the handle of the
    /// partner that was consumed, and the handle of the freshly spawned
    /// higher-tier item.
    Merged { x: usize, y: usize, partner: usize, merged: usize },
    /// No merge: the dragged item returns to its origin cell `(x, y)`.
    SnappedBack { x: usize, y: usize },
}

/// The board and the items living on it.
pub struct Board {
    /// The grid, indexed as `cells[y][x]`.
    pub cells: Vec<Vec<Cell>>,
    /// One slot per item ever spawned; a despawned item leaves `None`.
    pub items: Vec<Option<MergableItem>>,
}

impl Board {
    /// The cell at grid coordinate `(x, y)`.
    pub open spec fn cell(self, x: int, y: int) -> Cell {
        self.cells@[y]@[x]
    }

    /// Whether `id` names a live item.
    pub open spec fn live_item(self, id: int) -> bool {
        0 <= id < self.items@.len() && self.items@[id] is Some
    }

    /// The live item named by `id`.
    pub open spec fn spec_item(self, id: int) -> MergableItem {
        self.items@[id]->Some_0
    }

    /// How many items are live on the board.
    pub open spec fn num_live_items(self) -> nat {
        Self::count_live(self.items@)
    }

    /// How many slots of `s` hold a live item.
    pub open spec fn count_live(s: Seq<Option<MergableItem>>) -> nat
        decreases s.len(),
    {
        if s.len() == 0 {
            0
        } else {
            Self::count_live(s.drop_last()) + if s.last() is Some {
                1nat
            } else {
                0nat
            }
        }
    }

    /// Despawning a live slot lowers the live count by one.
    proof fn lemma_count_live_set_none(s: Seq<Option<MergableItem>>, i: int)
        requires
            0 <= i < s.len(),
            s[i] is Some,
        ensures
            Self::count_live(s.update(i, None)) == Self::count_live(s) - 1,
        decreases s.len(),
    {
        if i == s.len() - 1 {
            assert(s.update(i, None).drop_last() =~= s.drop_last());
        } else {
            Self::lemma_count_live_set_none(s.drop_last(), i);
            assert(s.update(i, None).drop_last() =~= s.drop_last().update(i, None));
            assert(s.update(i, None).last() == s.last());
        }
    }

    /// Spawning into a fresh slot raises the live count by one.
    proof fn lemma_count_live_push_some(s: Seq<Option<MergableItem>>, item: MergableItem)
        ensures
            Self::count_live(s.push(Some(item))) == Self::count_live(s) + 1,
    {
        assert(s.push(Some(item)).drop_last() =~= s);
    }

    /// The board invariant: the grid has its fixed dimensions; every cell's
    /// handle names a live item whose stored coordinates match that cell; and
    /// every live item's stored coordinates lie on the board.
    pub open spec fn wf(self) -> bool {
        &&& self.cells@.len() == BOARD_HEIGHT
        &&& forall|y: int|
            0 <= y < BOARD_HEIGHT as int ==> (#[trigger] self.cells@[y])@.len() == BOARD_WIDTH
        &&& forall|x: int, y: int|
            cell_in_bounds(x, y) && (#[trigger] self.cell(x, y)) is Some ==> {
                let id = self.cell(x, y)->Some_0 as int;
                &&& self.live_item(id)
                &&& self.spec_item(id).x == x
                &&& self.spec_item(id).y == y
            }
        &&& forall|id: int|
            #[trigger] self.live_item(id) ==> cell_in_bounds(
                self.spec_item(id).x as int,
                self.spec_item(id).y as int,
            )
    }

    /// An empty board: full dimensions, no items.
    pub fn new() -> (b: Board)
        ensures
            b.wf(),
            b.items@.len() == 0,
            b.num_live_items() == 0,
            forall|x: int, y: int| cell_in_bounds(x, y) ==> (#[trigger] b.cell(x, y)) is None,
    {
        let mut cells: Vec<Vec<Cell>> = Vec::new();
        let mut y: usize = 0;
        while y < BOARD_HEIGHT
            invariant
                y <= BOARD_HEIGHT,
                cells@.len() == y,
                forall|j: int| 0 <= j < y as int ==> (#[trigger] cells@[j])@.len() == BOARD_WIDTH,
                forall|i: int, j: int|
                    0 <= j < y as int && 0 <= i < BOARD_WIDTH as int ==> (#[trigger] cells@[j]@[i]) is None,
            decreases BOARD_HEIGHT - y,
        {
            let mut row: Vec<Cell> = Vec::new();
            let mut x: usize = 0;
            while x < BOARD_WIDTH
                invariant
                    x <= BOARD_WIDTH,
                    row@.len() == x,
                    forall|i: int| 0 <= i < x as int ==> (#[trigger] row@[i]) is None,
                decreases BOARD_WIDTH - x,
            {
                row.push(None);
                x += 1;
            }
            cells.push(row);
            y += 1;
        }
        Board { cells, items: Vec::new() }
    }

    /// Spawn a new item on the empty cell `(x, y)` and return its handle.
    pub fn spawn_item(&mut self, x: usize, y: usize, tier: usize, merge_line: MergeLine) -> (id:
        usize)
        requires
            old(self).wf(),
            x < BOARD_WIDTH,
            y < BOARD_HEIGHT,
            old(self).cell(x as int, y as int) is None,
        ensures
            final(self).wf(),
            id == old(self).items@.len(),
            final(self).items@ == old(self).items@.push(
                Some(MergableItem { x, y, tier, merge_line }),
            ),
            final(self).num_live_items() == old(self).num_live_items() + 1,
            forall|xx: int, yy: int|
                cell_in_bounds(xx, yy) ==> #[trigger] final(self).cell(xx, yy) == (
                if xx == x as int && yy == y as int {
                    Some(id)
                } else {
                    old(self).cell(xx, yy)
                }),
    {
        let id = self.items.len();
        self.items.push(Some(MergableItem { x, y, tier, merge_line }));
        let row = &mut self.cells[y];
        row[x] = Some(id);
        proof {
            Self::lemma_count_live_push_some(
                old(self).items@,
                MergableItem { x, y, tier, merge_line },
            );
            assert forall|xx: int, yy: int|
                cell_in_bounds(xx, yy) && (#[trigger] self.cell(xx, yy)) is Some implies {
                let id2 = self.cell(xx, yy)->Some_0 as int;
                &&& self.live_item(id2)
                &&& self.spec_item(id2).x == xx
                &&& self.spec_item(id2).y == yy
            } by {
                if !(xx == x as int && yy == y as int) {
                    assert(old(self).cell(xx, yy) is Some);
                    assert(old(self).live_item(old(self).cell(xx, yy)->Some_0 as int));
                }
            }
            assert forall|id2: int| #[trigger] self.live_item(id2) implies cell_in_bounds(
                self.spec_item(id2).x as int,
                self.spec_item(id2).y as int,
            ) by {
                if id2 < old(self).items@.len() {
                    assert(old(self).live_item(id2));
                }
            }
        }
        id
    }

    /// The partner a drop at world position `(wx, wy)` would merge with: the
    /// handle in the cell that position rounds to, provided the dropped item
    /// may merge with it.
    pub open spec fn spec_merge_partner(self, dropped: MergableItem, wx: int, wy: int) -> Option<
        int,
    > {
        if crate::coords::spec_world_hits_board(wx, crate::coords::BOARD_WORLD_WIDTH as int)
            && crate::coords::spec_world_hits_board(
            wy,
            crate::coords::BOARD_WORLD_HEIGHT as int,
        ) {
            let x = crate::coords::spec_world_to_cell(wx, crate::coords::BOARD_WORLD_WIDTH as int);
            let y = crate::coords::spec_world_to_cell(wy, crate::coords::BOARD_WORLD_HEIGHT as int);
            match self.cell(x, y) {
                Some(id) => if dropped.spec_can_be_merged_with(self.spec_item(id as int)) {
                    Some(id as int)
                } else {
                    None
                },
                None => None,
            }
        } else {
            None
        }
    }

    /// Resolve the release of a dragged item at world position `(wx, wy)`.
    ///
    /// If that position rounds to a board cell occupied by a mergeable
    /// partner, both items despawn, the dragged item's origin cell is
    /// cleared, and a new item one tier higher appears in the partner's
    /// cell. Otherwise nothing changes and the item is to snap back to its
    /// origin cell.
    pub fn merge_or_snap_back(&mut self, dropped_id: usize, wx: i32, wy: i32) -> (out: DragOutcome)
        requires
            old(self).wf(),
            old(self).live_item(dropped_id as int),
            forall|id: int|
                #[trigger] old(self).live_item(id) ==> old(self).spec_item(id).tier < usize::MAX,
        ensures
            final(self).wf(),
            ({
                let dropped = old(self).spec_item(dropped_id as int);
                match old(self).spec_merge_partner(dropped, wx as int, wy as int) {
                    Some(pid) => {
                        let partner = old(self).spec_item(pid);
                        let new_id = old(self).items@.len();
                        let merged_item = (MergableItem {
                            x: partner.x,
                            y: partner.y,
                            tier: (partner.tier + 1) as usize,
                            merge_line: partner.merge_line,
                        });
                        &&& out == (DragOutcome::Merged {
                            x: partner.x,
                            y: partner.y,
                            partner: pid as usize,
                            merged: new_id as usize,
                        })
                        &&& final(self).items@ == old(self).items@.update(
                            dropped_id as int,
                            None,
                        ).update(pid, None).push(Some(merged_item))
                        &&& final(self).num_live_items() == old(self).num_live_items() - 1
                        &&& forall|xx: int, yy: int|
                            cell_in_bounds(xx, yy) ==> #[trigger] final(self).cell(xx, yy) == (
                            if xx == partner.x as int && yy == partner.y as int {
                                Some(new_id as usize)
                            } else if xx == dropped.x as int && yy == dropped.y as int {
                                None
                            } else {
                                old(self).cell(xx, yy)
                            })
                    },
                    None => {
                        &&& out == (DragOutcome::SnappedBack { x: dropped.x, y: dropped.y })
                        &&& *final(self) == *old(self)
                    },
                }
            }),
    {
        let dropped = self.items[dropped_id].unwrap();
        if let Some((x, y)) = crate::coords::world_coordinates_to_idx(wx, wy) {
            let row = &self.cells[y];
            if let Some(partner_id) = row[x] {
                proof {
                    assert(old(self).cell(x as int, y as int) is Some);
                }
                let partner = self.items[partner_id].unwrap();
                if dropped.can_be_merged_with(&partner) {
                    let new_id = self.items.len();
                    self.items[dropped_id] = None;
                    self.items[partner_id] = None;
                    self.items.push(
                        Some(
                            MergableItem {
                                x: partner.x,
                                y: partner.y,
                                tier: partner.tier + 1,
                                merge_line: partner.merge_line,
                            },
                        ),
                    );
                    let row_d = &mut self.cells[dropped.y];
                    row_d[dropped.x] = None;
                    let row_p = &mut self.cells[y];
                    row_p[x] = Some(new_id);
                    proof {
                        let od = *old(self);
                        let did = dropped_id as int;
                        let pid = partner_id as int;
                        assert(od.spec_item(pid) == partner);
                        assert(od.spec_item(did) == dropped);
                        assert(cell_in_bounds(dropped.x as int, dropped.y as int));
                        assert(did != pid);
                        Self::lemma_count_live_set_none(od.items@, did);
                        Self::lemma_count_live_set_none(od.items@.update(did, None), pid);
                        Self::lemma_count_live_push_some(
                            od.items@.update(did, None).update(pid, None),
                            MergableItem {
                                x: partner.x,
                                y: partner.y,
                                tier: (partner.tier + 1) as usize,
                                merge_line: partner.merge_line,
                            },
                        );
                        assert forall|xx: int, yy: int|
                            cell_in_bounds(xx, yy) && (#[trigger] self.cell(xx, yy)) is Some
                            implies {
                            let id2 = self.cell(xx, yy)->Some_0 as int;
                            &&& self.live_item(id2)
                            &&& self.spec_item(id2).x == xx
                            &&& self.spec_item(id2).y == yy
                        } by {
                            if xx == x as int && yy == y as int {
                                assert(self.items@[new_id as int] is Some);
                            } else if xx == dropped.x as int && yy == dropped.y as int {
                            } else {
                                assert(self.cell(xx, yy) == od.cell(xx, yy));
                                let id2 = od.cell(xx, yy)->Some_0 as int;
                                assert(od.live_item(id2));
                                assert(id2 != did && id2 != pid);
                                assert(self.items@[id2] == od.items@[id2]);
                            }
                        }
                        assert forall|id2: int| #[trigger] self.live_item(id2) implies
                            cell_in_bounds(
                                self.spec_item(id2).x as int,
                                self.spec_item(id2).y as int,
                            ) by {
                            if id2 != new_id as int && id2 != did && id2 != pid {
                                assert(self.items@[id2] == od.items@[id2]);
                                assert(od.live_item(id2));
                            }
                        }
                    }
                    return DragOutcome::Merged { x, y, partner: partner_id, merged: new_id };
                }
            }
        }
        DragOutcome::SnappedBack { x: dropped.x, y: dropped.y }
    }

    /// The grid coordinates of every empty cell.
    fn empty_cells(&self) -> (es: Vec<(usize, usize)>)
        requires
            self.wf(),
        ensures
            forall|k: int|
                0 <= k < es@.len() ==> {
                    let p = #[trigger] es@[k];
                    &&& p.0 < BOARD_WIDTH
                    &&& p.1 < BOARD_HEIGHT
                    &&& self.cell(p.0 as int, p.1 as int) is None
                },
            forall|x: int, y: int|
                cell_in_bounds(x, y) && (#[trigger] self.cell(x, y)) is None ==> es@.contains(
                    (x as usize, y as usize),
                ),
    {
        let mut es: Vec<(usize, usize)> = Vec::new();
        let mut y: usize = 0;
        while y < BOARD_HEIGHT
            invariant
                self.wf(),
                y <= BOARD_HEIGHT,
                forall|k: int|
                    0 <= k < es@.len() ==> {
                        let p = #[trigger] es@[k];
                        &&& p.0 < BOARD_WIDTH
                        &&& p.1 < BOARD_HEIGHT
                        &&& self.cell(p.0 as int, p.1 as int) is None
                    },
                forall|xx: int, yy: int|
                    cell_in_bounds(xx, yy) && yy < y as int && (#[trigger] self.cell(xx, yy))
                        is None ==> es@.contains((xx as usize, yy as usize)),
            decreases BOARD_HEIGHT - y,
        {
            let mut x: usize = 0;
            while x < BOARD_WIDTH
                invariant
                    self.wf(),
                    y < BOARD_HEIGHT,
                    x <= BOARD_WIDTH,
                    forall|k: int|
                        0 <= k < es@.len() ==> {
                            let p = #[trigger] es@[k];
                            &&& p.0 < BOARD_WIDTH
                            &&& p.1 < BOARD_HEIGHT
                            &&& self.cell(p.0 as int, p.1 as int) is None
                        },
                    forall|xx: int, yy: int|
                        cell_in_bounds(xx, yy) && (yy < y as int || (yy == y as int && xx < x as int))
                            && (#[trigger] self.cell(xx, yy)) is None ==> es@.contains(
                            (xx as usize, yy as usize),
                        ),
                decreases BOARD_WIDTH - x,
            {
                let row = &self.cells[y];
                if row[x].is_none() {
                    es.push((x, y));
                }
                x += 1;
            }
            y += 1;
        }
        es
    }

    /// Spawn `count` tier-0 items of random lines on random empty cells.
    ///
    /// Returns how many items were spawned: `count`, unless the board filled
    /// up first. Cells that already held an item are never touched, and each
    /// new item sits on the cell it was spawned on.
    pub fn spawn_starting_items(&mut self, count: usize) -> (spawned: usize)
        requires
            old(self).wf(),
        ensures
            final(self).wf(),
            spawned <= count,
            final(self).items@.len() == old(self).items@.len() + spawned,
            final(self).num_live_items() == old(self).num_live_items() + spawned,
            forall|id: int|
                0 <= id < old(self).items@.len()
                    ==> final(self).items@[id] == old(self).items@[id],
            forall|id: int|
                old(self).items@.len() <= id < final(self).items@.len() ==> {
                    &&& (#[trigger] final(self).items@[id]) is Some
                    &&& final(self).items@[id]->Some_0.tier == 0
                    &&& final(self).cell(
                        final(self).items@[id]->Some_0.x as int,
                        final(self).items@[id]->Some_0.y as int,
                    ) == Some(id as usize)
                },
            forall|x: int, y: int|
                cell_in_bounds(x, y) && (#[trigger] old(self).cell(x, y)) is Some
                    ==> final(self).cell(x, y) == old(self).cell(x, y),
            spawned < count ==> forall|x: int, y: int|
                cell_in_bounds(x, y) ==> (#[trigger] final(self).cell(x, y)) is Some,
    {
        let mut rng = crate::rng::fresh_rng();
        let mut spawned: usize = 0;
        while spawned < count
            invariant
                self.wf(),
                spawned <= count,
                self.items@.len() == old(self).items@.len() + spawned,
                self.num_live_items() == old(self).num_live_items() + spawned,
                forall|id: int|
                    0 <= id < old(self).items@.len() ==> self.items@[id] == old(self).items@[id],
                forall|id: int|
                    old(self).items@.len() <= id < self.items@.len() ==> {
                        &&& (#[trigger] self.items@[id]) is Some
                        &&& self.items@[id]->Some_0.tier == 0
                        &&& self.cell(
                            self.items@[id]->Some_0.x as int,
                            self.items@[id]->Some_0.y as int,
                        ) == Some(id as usize)
                    },
                forall|x: int, y: int|
                    cell_in_bounds(x, y) && (#[trigger] old(self).cell(x, y)) is Some ==> self.cell(
                        x,
                        y,
                    ) == old(self).cell(x, y),
            decreases count - spawned,
        {
            let es = self.empty_cells();
            if es.len() == 0 {
                return spawned;
            }
            let k = crate::rng::random_index(&mut rng, es.len());
            let (x, y) = es[k];
            let merge_line = if crate::rng::random_coin() {
                MergeLine::SWEET
            } else {
                MergeLine::SALTY
            };
            let ghost before = *self;
            let id = self.spawn_item(x, y, 0, merge_line);
            proof {
                assert forall|id2: int|
                    old(self).items@.len() <= id2 < self.items@.len() implies {
                    &&& (#[trigger] self.items@[id2]) is Some
                    &&& self.items@[id2]->Some_0.tier == 0
                    &&& self.cell(
                        self.items@[id2]->Some_0.x as int,
                        self.items@[id2]->Some_0.y as int,
                    ) == Some(id2 as usize)
                } by {
                    assert(es@[k as int] == (x, y));
                    assert(before.cell(x as int, y as int) is None);
                    if id2 < before.items@.len() {
                        assert(before.live_item(id2));
                        assert(self.items@[id2] == before.items@[id2]);
                        let it = before.items@[id2]->Some_0;
                        assert(cell_in_bounds(it.x as int, it.y as int));
                        assert(before.cell(it.x as int, it.y as int) == Some(id2 as usize));
                        assert(!(it.x == x && it.y == y));
                        assert(self.cell(it.x as int, it.y as int) == Some(id2 as usize));
                    } else {
                        assert(id2 == id as int);
                        assert(self.items@[id2] == Some(
                            MergableItem { x, y, tier: 0, merge_line },
                        ));
                        assert(self.cell(x as int, y as int) == Some(id as usize));
                    }
                }
            }
            spawned = spawned + 1;
        }
        spawned
    }
}

} // verus!
