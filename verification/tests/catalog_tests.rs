use recipe_ratio::catalog::{get_producer_type, parse_materials_json, MaterialRecord};
use recipe_ratio::enums::{AssemblingMachineLevel, FurnaceLevel, ProducerType};
use recipe_ratio::errors::{CatalogError, ResolveError};
use recipe_ratio::material_database::MaterialDatabase;
use recipe_ratio::ratio::Ratio;
use recipe_ratio::user_settings::UserSettings;

fn record(name: &str, producer: &str, resources: &[(&str, u64)], amount: u64, time: u64) -> MaterialRecord {
    MaterialRecord {
        name: name.to_string(),
        producer: producer.to_string(),
        resources: resources
            .iter()
            .map(|(n, q)| (n.to_string(), Ratio::from_int(*q)))
            .collect(),
        amount: Ratio::from_int(amount),
        time: Ratio::from_int(time),
    }
}

fn default_settings() -> UserSettings {
    UserSettings {
        assembling_machine_level: AssemblingMachineLevel::One,
        furnace_level: FurnaceLevel::Stone,
        whole_numbers: false,
        ignore_furnaces_for_ratio: false,
        ignore_raw_for_ratio: false,
    }
}

#[test]
fn producer_names_parse_exactly() {
    assert_eq!(
        get_producer_type("Assembling Machine"),
        Some(ProducerType::AssemblingMachine)
    );
    assert_eq!(get_producer_type("Furnace"), Some(ProducerType::Furnace));
    assert_eq!(
        get_producer_type("Chemical Plant"),
        Some(ProducerType::ChemicalPlant)
    );
    assert_eq!(get_producer_type("Rocket Silo"), Some(ProducerType::RocketSilo));
    assert_eq!(get_producer_type("furnace"), None);
}

#[test]
fn catalog_builds_raw_then_composites() {
    let raw = vec!["Iron Ore".to_string(), "Coal".to_string()];
    let records = vec![
        record("Iron Plate", "Furnace", &[("Iron Ore", 1)], 1, 2),
        record("Steel", "Furnace", &[("Iron Plate", 5)], 1, 16),
    ];
    let materials = parse_materials_json(raw, records).unwrap();
    assert_eq!(materials.len(), 4);
    assert_eq!(materials[0].name, "Iron Ore");
    assert_eq!(materials[1].name, "Coal");
    assert_eq!(materials[2].name, "Iron Plate");
    assert_eq!(materials[3].name, "Steel");
    // Steel's tree reaches the ore through the plate
    let steel = &materials[3];
    assert_eq!(steel.recipe.items.len(), 1);
    assert_eq!(steel.recipe.items[0].0.name, "Iron Plate");
    assert_eq!(steel.recipe.items[0].0.recipe.items[0].0.name, "Iron Ore");
}

#[test]
fn unknown_resource_is_malformed() {
    let raw = vec!["Iron Ore".to_string()];
    let records = vec![record("Iron Plate", "Furnace", &[("Copper Ore", 1)], 1, 2)];
    assert_eq!(
        parse_materials_json(raw, records),
        Err(CatalogError::MalformedCatalog("Copper Ore".to_string()))
    );
}

#[test]
fn invalid_producer_is_malformed() {
    let raw = vec!["Iron Ore".to_string()];
    let records = vec![record("Iron Plate", "Smelter", &[("Iron Ore", 1)], 1, 2)];
    assert_eq!(
        parse_materials_json(raw, records),
        Err(CatalogError::MalformedCatalog("Smelter".to_string()))
    );
}

#[test]
fn zero_batch_size_is_malformed() {
    let raw = vec!["Iron Ore".to_string()];
    let records = vec![record("Iron Plate", "Furnace", &[("Iron Ore", 1)], 0, 2)];
    assert_eq!(
        parse_materials_json(raw, records),
        Err(CatalogError::MalformedCatalog("Iron Plate".to_string()))
    );
}

#[test]
fn cyclic_records_are_rejected() {
    let raw = vec!["Iron Ore".to_string()];
    let records = vec![
        record("A", "Furnace", &[("B", 1)], 1, 1),
        record("B", "Furnace", &[("A", 1)], 1, 1),
    ];
    assert_eq!(parse_materials_json(raw, records), Err(CatalogError::CyclicRecipe));
}

#[test]
fn lookup_ignores_ascii_case() {
    let raw = vec!["Iron Ore".to_string()];
    let records = vec![record("Iron Plate", "Furnace", &[("Iron Ore", 2)], 1, 3)];
    let database = MaterialDatabase::new(parse_materials_json(raw, records).unwrap());
    let settings = default_settings();
    let result = database.lookup_result("iron plate", &settings).unwrap();
    assert_eq!(result.total_raw.len(), 1);
    assert_eq!(result.total_raw[0].0.name, "Iron Ore");
    assert_eq!((result.total_raw[0].1.num, result.total_raw[0].1.den), (2, 1));
    let upper = database.lookup_result("IRON ORE", &settings).unwrap();
    assert_eq!(upper.total_raw[0].0.name, "Iron Ore");
}

#[test]
fn unknown_material_is_reported() {
    let database = MaterialDatabase::new(Vec::new());
    let settings = default_settings();
    assert_eq!(
        database.lookup_result("Iron Plate", &settings).err(),
        Some(ResolveError::UnknownMaterial)
    );
}
