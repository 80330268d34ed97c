use recipe_ratio::enums::{AssemblingMachineLevel, FurnaceLevel, ProducerType};
use recipe_ratio::enums::get_producer_type_name;
use recipe_ratio::material::Material;
use recipe_ratio::ratio::Ratio;
use recipe_ratio::recipe::Recipe;
use recipe_ratio::strutil::{convert_bool_to_capital_string, eq_ignore_ascii_case, str_eq};

fn plate(quantity: u64) -> Material {
    Material::non_raw(
        "Iron Plate",
        Recipe::new(
            Some(ProducerType::Furnace),
            vec![(Material::raw("Iron Ore"), Ratio::from_int(quantity))],
            Ratio::from_int(2),
            Ratio::from_int(1),
        ),
    )
}

#[test]
fn separately_built_equal_trees_are_the_same_material() {
    assert!(plate(1).is_same(&plate(1)));
}

#[test]
fn any_structural_difference_separates_materials() {
    // same name, different quantity deep in the recipe
    assert!(!plate(1).is_same(&plate(2)));
    // same shape, different name
    assert!(!Material::raw("Iron Ore").is_same(&Material::raw("Copper Ore")));
    // raw versus composite under one name
    assert!(!plate(1).is_same(&Material::raw("Iron Plate")));
}

#[test]
fn string_comparisons() {
    assert!(str_eq("Iron Plate", "Iron Plate"));
    assert!(!str_eq("Iron Plate", "iron plate"));
    assert!(eq_ignore_ascii_case("Iron Plate", "iRoN pLaTe"));
    assert!(!eq_ignore_ascii_case("Iron Plate", "Iron Plates"));
}

#[test]
fn display_names() {
    assert_eq!(
        get_producer_type_name(ProducerType::AssemblingMachine),
        "Assembling Machine"
    );
    assert_eq!(get_producer_type_name(ProducerType::RocketSilo), "Rocket Silo");
    assert_eq!(convert_bool_to_capital_string(true), "True");
    assert_eq!(convert_bool_to_capital_string(false), "False");
    assert_eq!(AssemblingMachineLevel::Two.label(), "2");
    assert_eq!(FurnaceLevel::Steel.label(), "Steel");
}
