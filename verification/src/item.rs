//! Items that sit on the board: a tier and a categorical "line" (flavor
//! family), plus the board coordinates the item believes it occupies.

use vstd::prelude::*;

verus! {

/// The flavor family an item belongs to. Only items of the same line can
/// merge.
#[derive(Clone, Copy, PartialEq, Eq, Structural, Debug)]
pub enum MergeLine {
    SWEET,
    SALTY,
}

/// One collectible item: its grid coordinates, its tier (position within its
/// merge line), and its line.
#[derive(Clone, Copy, PartialEq, Eq, Structural, Debug)]
pub struct MergableItem {
    pub x: usize,
    pub y: usize,
    pub tier: usize,
    pub merge_line: MergeLine,
}

impl MergableItem {
    /// Two items may merge iff they share the same tier and the same line and
    /// do not occupy the same cell.
    pub open spec fn spec_can_be_merged_with(self, other: Self) -> bool {
        self.tier == other.tier && self.merge_line == other.merge_line
            && !(self.x == other.x && self.y == other.y)
    }

    /// The merge-eligibility rule.
    pub fn can_be_merged_with(&self, other: &Self) -> (r: bool)
        ensures
            r == self.spec_can_be_merged_with(*other),
    {
        self.tier == other.tier && self.merge_line == other.merge_line
            && !(self.x == other.x && self.y == other.y)
    }
}

} // verus!
