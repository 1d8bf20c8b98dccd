//! The two merge lines: for each flavor family, the sprite file names of its
//! tiers, lowest tier first, and the lookup that picks the sprite of an item.

use vstd::prelude::*;
use vstd::string::StringExecFns;

use crate::item::MergableItem;
use crate::item::MergeLine;

verus! {

/// The sprite file names of the sweet line, lowest tier first.
pub open spec fn spec_sweet_merge_line() -> Seq<Seq<char>> {
    seq![
        "26_chocolate.png"@,
        "30_chocolatecake.png"@,
        "34_donut.png"@,
        "52_gingerbreadman.png"@,
        "46_fruitcake.png"@,
        "57_icecream.png"@,
        "59_jelly.png"@,
        "61_jam.png"@,
        "50_giantgummybear.png"@,
        "90_strawberrycake.png"@,
        "79_pancakes.png"@,
    ]
}

/// The sprite file names of the salty line, lowest tier first.
pub open spec fn spec_salty_merge_line() -> Seq<Seq<char>> {
    seq![
        "15_burger.png"@,
        "32_curry.png"@,
        "38_friedegg.png"@,
        "92_sandwich.png"@,
        "44_frenchfries.png"@,
        "69_meatball.png"@,
        "54_hotdog.png"@,
        "81_pizza.png"@,
        "85_roastedchicken.png"@,
        "99_taco.png"@,
        "95_steak.png"@,
    ]
}

/// Sprite file names of the sweet line's tiers, lowest first.
pub fn sweet_merge_line() -> (r: Vec<&'static str>)
    ensures
        r@.len() == spec_sweet_merge_line().len(),
        forall|i: int| 0 <= i < r@.len() ==> (#[trigger] r@[i])@ == spec_sweet_merge_line()[i],
{
    let mut v: Vec<&'static str> = Vec::new();
    v.push("26_chocolate.png");
    v.push("30_chocolatecake.png");
    v.push("34_donut.png");
    v.push("52_gingerbreadman.png");
    v.push("46_fruitcake.png");
    v.push("57_icecream.png");
    v.push("59_jelly.png");
    v.push("61_jam.png");
    v.push("50_giantgummybear.png");
    v.push("90_strawberrycake.png");
    v.push("79_pancakes.png");
    v
}

/// Sprite file names of the salty line's tiers, lowest first.
pub fn salty_merge_line() -> (r: Vec<&'static str>)
    ensures
        r@.len() == spec_salty_merge_line().len(),
        forall|i: int| 0 <= i < r@.len() ==> (#[trigger] r@[i])@ == spec_salty_merge_line()[i],
{
    let mut v: Vec<&'static str> = Vec::new();
    v.push("15_burger.png");
    v.push("32_curry.png");
    v.push("38_friedegg.png");
    v.push("92_sandwich.png");
    v.push("44_frenchfries.png");
    v.push("69_meatball.png");
    v.push("54_hotdog.png");
    v.push("81_pizza.png");
    v.push("85_roastedchicken.png");
    v.push("99_taco.png");
    v.push("95_steak.png");
    v
}

/// The sprite file names of both merge lines, indexed by tier.
pub struct MergeLines {
    pub sweet: Vec<&'static str>,
    pub salty: Vec<&'static str>,
}

impl MergeLines {
    /// The tier sequence an item of the given line draws its sprites from.
    pub open spec fn spec_line(self, merge_line: MergeLine) -> Seq<&'static str> {
        match merge_line {
            MergeLine::SWEET => self.sweet@,
            MergeLine::SALTY => self.salty@,
        }
    }

    /// Both lines carry the standard tier sequences.
    pub open spec fn wf(self) -> bool {
        &&& self.sweet@.len() == spec_sweet_merge_line().len()
        &&& forall|i: int| 0 <= i < self.sweet@.len() ==> (#[trigger] self.sweet@[i])@
            == spec_sweet_merge_line()[i]
        &&& self.salty@.len() == spec_salty_merge_line().len()
        &&& forall|i: int| 0 <= i < self.salty@.len() ==> (#[trigger] self.salty@[i])@
            == spec_salty_merge_line()[i]
    }

    /// The standard pair of merge lines.
    pub fn standard() -> (r: MergeLines)
        ensures
            r.wf(),
    {
        MergeLines { sweet: sweet_merge_line(), salty: salty_merge_line() }
    }
}

/// Asset path of the sprite that shows the given item: the file of the item's
/// tier within its line, under the icon directory.
pub fn select_sprite_to_spawn(item: &MergableItem, lines: &MergeLines) -> (r: String)
    requires
        item.tier < lines.spec_line(item.merge_line).len(),
    ensures
        r@ == "icons/"@ + lines.spec_line(item.merge_line)[item.tier as int]@,
{
    let line: &Vec<&'static str> = match item.merge_line {
        MergeLine::SWEET => &lines.sweet,
        MergeLine::SALTY => &lines.salty,
    };
    let path: &str = line[item.tier];
    let prefix = String::from_str("icons/");
    prefix.concat(path)
}

} // verus!
