//! The tool the player currently has selected.

use vstd::prelude::*;
use crate::item_id::ItemId;

verus! {

/// What an interaction applies to a tile: nothing, a held item (tool, seed
/// or crop), or the wall-building mode.
#[derive(Copy, Clone, Debug, Eq, PartialEq, Structural)]
pub enum ActiveTool {
    NoTool,
    Item(ItemId),
    Wall,
}

impl ActiveTool {
    /// Display name of the selection.
    pub fn name(&self) -> (r: String)
        ensures
            r@ == self.spec_name(),
    {
        match self {
            ActiveTool::Item(item) => {
                match item {
                    ItemId::Crop { .. } => "Crop".to_owned(),
                    ItemId::Seed { .. } => "Seed".to_owned(),
                    ItemId::Tool { tool_id } => tool_id.name(),
                }
            },
            ActiveTool::Wall => "Wall".to_owned(),
            ActiveTool::NoTool => "None".to_owned(),
        }
    }

    pub open spec fn spec_name(self) -> Seq<char> {
        match self {
            ActiveTool::Item(item) => match item {
                ItemId::Crop { .. } => "Crop"@,
                ItemId::Seed { .. } => "Seed"@,
                ItemId::Tool { tool_id } => tool_id.spec_name(),
            },
            ActiveTool::Wall => "Wall"@,
            ActiveTool::NoTool => "None"@,
        }
    }
}

impl Default for ActiveTool {
    /// At startup nothing is selected.
    fn default() -> (r: Self)
        ensures
            r == ActiveTool::NoTool,
    {
        ActiveTool::NoTool
    }
}

} // verus!
