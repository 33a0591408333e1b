//! Identifiers for the items a player can hold and use: crops, seeds and
//! tools.

use vstd::prelude::*;
use crate::item_definitions::AllCrops;

verus! {

/// Identifies one crop species in the crop registry.
#[derive(Copy, Clone, Eq, PartialEq, Hash, Debug, Structural)]
pub struct CropId(pub u32);

/// The tools a player can select.
#[derive(Copy, Clone, Eq, PartialEq, Hash, Debug, Structural)]
pub enum ToolId {
    Hoe,
    Pickaxe,
    Scythe,
}

impl ToolId {
    /// Display name of the tool.
    pub fn name(&self) -> (r: String)
        ensures
            r@ == self.spec_name(),
    {
        match self {
            ToolId::Hoe => "Hoe".to_owned(),
            ToolId::Pickaxe => "Pickaxe".to_owned(),
            ToolId::Scythe => "Scythe".to_owned(),
        }
    }

    pub open spec fn spec_name(self) -> Seq<char> {
        match self {
            ToolId::Hoe => "Hoe"@,
            ToolId::Pickaxe => "Pickaxe"@,
            ToolId::Scythe => "Scythe"@,
        }
    }
}

/// Identifies an item: a harvested crop, a seed for a crop species, or a
/// tool.
#[derive(Copy, Clone, Eq, PartialEq, Hash, Debug, Structural)]
pub enum ItemId {
    Crop { crop_id: CropId },
    Seed { crop_id: CropId },
    Tool { tool_id: ToolId },
}

impl ItemId {
    /// Display name of the item. A crop or seed is named after its species;
    /// an id that the registry does not know yields `None`.
    pub fn item_name(&self, all_crops: &AllCrops) -> (r: Option<String>)
        requires
            all_crops.wf(),
        ensures
            r matches Some(name) ==> name@ == self.spec_item_name(*all_crops),
            r is Some <==> self.spec_item_name_known(*all_crops),
    {
        match self {
            ItemId::Crop { crop_id } => {
                match all_crops.get(*crop_id) {
                    Some(def) => Some(def.name.clone()),
                    None => None,
                }
            },
            ItemId::Seed { crop_id } => {
                match all_crops.get(*crop_id) {
                    Some(def) => Some(def.name.clone().concat(" Seed")),
                    None => None,
                }
            },
            ItemId::Tool { tool_id } => Some(tool_id.name()),
        }
    }

    /// Whether the registry can name this item.
    pub open spec fn spec_item_name_known(self, all_crops: AllCrops) -> bool {
        match self {
            ItemId::Crop { crop_id } => all_crops.spec_contains(crop_id),
            ItemId::Seed { crop_id } => all_crops.spec_contains(crop_id),
            ItemId::Tool { tool_id } => true,
        }
    }

    /// The name the registry gives this item, where it is known.
    pub open spec fn spec_item_name(self, all_crops: AllCrops) -> Seq<char> {
        match self {
            ItemId::Crop { crop_id } => all_crops.spec_get(crop_id).name@,
            ItemId::Seed { crop_id } => all_crops.spec_get(crop_id).name@ + " Seed"@,
            ItemId::Tool { tool_id } => tool_id.spec_name(),
        }
    }
}

} // verus!
