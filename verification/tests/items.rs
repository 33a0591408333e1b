use farmgrid::active_tool::ActiveTool;
use farmgrid::drops::ItemDrop;
use farmgrid::inventory::Inventory;
use farmgrid::item_definitions::{AllCrops, CropDefinition, parse_crops};
use farmgrid::item_id::{CropId, ItemId, ToolId};

#[test]
fn shipped_registry_holds_the_two_example_species() {
    let all = parse_crops();
    assert_eq!(all.len(), 2);
    let blue = all.get(CropId(0)).unwrap();
    assert_eq!(blue.name, "Blue Debug Plant");
    assert_eq!(blue.stages, 4);
    assert_eq!(blue.growth_time_per_stage, 5);
    let red = all.get(CropId(1)).unwrap();
    assert_eq!(red.name, "Red Debug Plant");
    assert_eq!(red.stages, 4);
    assert_eq!(red.growth_time_per_stage, 1);
    assert!(all.get(CropId(2)).is_none());
}

#[test]
fn item_names_come_from_the_registry() {
    let all = parse_crops();
    let tool = ItemId::Tool { tool_id: ToolId::Hoe };
    assert_eq!(tool.item_name(&all).unwrap(), "Hoe");
    let scythe = ItemId::Tool { tool_id: ToolId::Scythe };
    assert_eq!(scythe.item_name(&all).unwrap(), "Scythe");
    let crop = ItemId::Crop { crop_id: CropId(0) };
    assert_eq!(crop.item_name(&all).unwrap(), "Blue Debug Plant");
    let seed = ItemId::Seed { crop_id: CropId(1) };
    assert_eq!(seed.item_name(&all).unwrap(), "Red Debug Plant Seed");
    let unknown = ItemId::Crop { crop_id: CropId(9) };
    assert!(unknown.item_name(&all).is_none());
}

#[test]
fn tool_and_selection_names() {
    assert_eq!(ToolId::Pickaxe.name(), "Pickaxe");
    assert_eq!(ActiveTool::Wall.name(), "Wall");
    assert_eq!(ActiveTool::NoTool.name(), "None");
    assert_eq!(
        ActiveTool::Item(ItemId::Tool { tool_id: ToolId::Hoe }).name(),
        "Hoe"
    );
}

#[test]
fn registry_insert_then_get() {
    let mut all = AllCrops::new();
    assert_eq!(all.len(), 0);
    all.insert(CropDefinition {
        id: CropId(7),
        name: String::from("Lilac"),
        stages: 6,
        growth_time_per_stage: 11,
    });
    let def = all.get(CropId(7)).unwrap();
    assert_eq!(def.name, "Lilac");
    assert_eq!(def.stages, 6);
    assert!(all.get(CropId(6)).is_none());
}

#[test]
fn drops_from_crops_carry_the_species() {
    let drop = ItemDrop::from_crop(CropId(1), 3);
    assert_eq!(drop.item_id, ItemId::Crop { crop_id: CropId(1) });
    assert_eq!(drop.amount, 3);
}

#[test]
fn inventory_counts_per_item() {
    let mut inventory = Inventory::default();
    assert!(inventory.is_empty());
    let veggie = ItemId::Crop { crop_id: CropId(0) };
    let other = ItemId::Crop { crop_id: CropId(1) };
    inventory.add_item(&veggie, 2);
    inventory.add_item(&other, 5);
    inventory.add_item(&veggie, 3);
    assert!(!inventory.is_empty());
    assert_eq!(inventory.item_count(veggie), 5);

    let mut inventory = Inventory::default();
    inventory.add_item(&other, 5);
    assert_eq!(inventory.item_count(other), 5);

    let mut inventory = Inventory::default();
    inventory.add_item(&other, 5);
    assert_eq!(inventory.item_count(veggie), 0);
}
