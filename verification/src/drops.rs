//! Items dropped into the world, waiting to be picked up.

use vstd::prelude::*;
use crate::item_id::{CropId, ItemId};

verus! {

/// A stack of one kind of item lying on the ground.
#[derive(Debug, Copy, Clone, Eq, PartialEq, Structural)]
pub struct ItemDrop {
    pub item_id: ItemId,
    pub amount: u32,
}

impl ItemDrop {
    /// The drop a harvested crop leaves behind.
    pub fn from_crop(crop_id: CropId, amount: u32) -> (r: Self)
        ensures
            r == (ItemDrop { item_id: ItemId::Crop { crop_id }, amount }),
    {
        Self { item_id: ItemId::Crop { crop_id }, amount }
    }
}

} // verus!
