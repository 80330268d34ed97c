use recipe_ratio::enums::{AssemblingMachineLevel, FurnaceLevel, ProducerType};
use recipe_ratio::errors::ResolveError;
use recipe_ratio::material::Material;
use recipe_ratio::ratio::Ratio;
use recipe_ratio::recipe::Recipe;
use recipe_ratio::user_settings::UserSettings;

fn default_settings() -> UserSettings {
    UserSettings {
        assembling_machine_level: AssemblingMachineLevel::One,
        furnace_level: FurnaceLevel::Stone,
        whole_numbers: false,
        ignore_furnaces_for_ratio: false,
        ignore_raw_for_ratio: false,
    }
}

fn composite(
    name: &str,
    producer: ProducerType,
    inputs: Vec<(Material, Ratio)>,
    time: Ratio,
    amount: Ratio,
) -> Material {
    Material::non_raw(name, Recipe::new(Some(producer), inputs, time, amount))
}

#[test]
fn raw_material_resolves_to_itself() {
    let ore = Material::raw("Iron Ore");
    let settings = default_settings();
    let result = ore.total_raw_result(&settings).unwrap();
    assert!(result.producers.is_empty());
    assert_eq!(result.total_raw.len(), 1);
    let (material, amount) = &result.total_raw[0];
    assert!(material.is_same(&ore));
    assert_eq!((amount.num, amount.den), (1, 1));
}

#[test]
fn linear_chain_resolves_each_link() {
    // C raw; B from one C; A from one B; batch sizes one.
    let c = Material::raw("C");
    let b = composite(
        "B",
        ProducerType::ChemicalPlant,
        vec![(Material::raw("C"), Ratio::from_int(1))],
        Ratio::from_int(3),
        Ratio::from_int(1),
    );
    let a = composite(
        "A",
        ProducerType::ChemicalPlant,
        vec![(b, Ratio::from_int(1))],
        Ratio::from_int(5),
        Ratio::from_int(1),
    );
    let settings = default_settings();
    let result = a.total_raw_result(&settings).unwrap();
    // total_raw = { C: 1 }
    assert_eq!(result.total_raw.len(), 1);
    assert!(result.total_raw[0].0.is_same(&c));
    assert_eq!((result.total_raw[0].1.num, result.total_raw[0].1.den), (1, 1));
    // producers: B at 3 (time/modifier, modifier 1), A at 5; no cross contamination
    assert_eq!(result.producers.len(), 2);
    for (material, (producer, amount)) in &result.producers {
        assert_eq!(*producer, ProducerType::ChemicalPlant);
        if material.name == "B" {
            assert_eq!((amount.num, amount.den), (3, 1));
        } else {
            assert_eq!(material.name, "A");
            assert_eq!((amount.num, amount.den), (5, 1));
        }
    }
}

#[test]
fn shared_raw_dependency_sums_contributions() {
    // Both B and D consume R; A consumes one B and one D.
    let b = composite(
        "B",
        ProducerType::AssemblingMachine,
        vec![(Material::raw("R"), Ratio::from_int(2))],
        Ratio::from_int(1),
        Ratio::from_int(1),
    );
    let d = composite(
        "D",
        ProducerType::AssemblingMachine,
        vec![(Material::raw("R"), Ratio::from_int(3))],
        Ratio::from_int(1),
        Ratio::from_int(1),
    );
    let a = composite(
        "A",
        ProducerType::AssemblingMachine,
        vec![(b, Ratio::from_int(1)), (d, Ratio::from_int(1))],
        Ratio::from_int(1),
        Ratio::from_int(1),
    );
    let settings = default_settings();
    let result = a.total_raw_result(&settings).unwrap();
    assert_eq!(result.total_raw.len(), 1);
    assert_eq!(result.total_raw[0].0.name, "R");
    // 2 + 3 contributed through the two branches
    assert_eq!(
        (result.total_raw[0].1.num, result.total_raw[0].1.den),
        (5, 1)
    );
}

#[test]
fn batch_size_divides_quantities_and_time() {
    // Two plates per batch of one ore pair: 3 ore per batch, batch 2.
    let plate = composite(
        "Plate",
        ProducerType::Furnace,
        vec![(Material::raw("Ore"), Ratio::from_int(3))],
        Ratio::from_int(4),
        Ratio::from_int(2),
    );
    let settings = default_settings();
    let result = plate.total_raw_result(&settings).unwrap();
    // per plate: 3/2 ore, 4/1/2 = 2 furnace-seconds
    assert_eq!(
        (result.total_raw[0].1.num, result.total_raw[0].1.den),
        (3, 2)
    );
    assert_eq!(result.producers.len(), 1);
    let (_, (producer, amount)) = &result.producers[0];
    assert_eq!(*producer, ProducerType::Furnace);
    assert_eq!((amount.num, amount.den), (2, 1));
}

#[test]
fn modifier_table_is_exact() {
    let table = [
        (AssemblingMachineLevel::One, (1, 2)),
        (AssemblingMachineLevel::Two, (3, 4)),
        (AssemblingMachineLevel::Three, (5, 4)),
    ];
    for (level, expected) in table {
        let modifier = Material::calculate_production_modifier(
            &level,
            &FurnaceLevel::Stone,
            &Some(ProducerType::AssemblingMachine),
        );
        assert_eq!((modifier.num, modifier.den), expected);
    }
    let stone = Material::calculate_production_modifier(
        &AssemblingMachineLevel::One,
        &FurnaceLevel::Stone,
        &Some(ProducerType::Furnace),
    );
    assert_eq!((stone.num, stone.den), (1, 1));
    let steel = Material::calculate_production_modifier(
        &AssemblingMachineLevel::One,
        &FurnaceLevel::Steel,
        &Some(ProducerType::Furnace),
    );
    assert_eq!((steel.num, steel.den), (2, 1));
    let untiered = Material::calculate_production_modifier(
        &AssemblingMachineLevel::Three,
        &FurnaceLevel::Steel,
        &Some(ProducerType::RocketSilo),
    );
    assert_eq!((untiered.num, untiered.den), (1, 1));
}

#[test]
fn modifier_speeds_up_production() {
    let plate = composite(
        "Plate",
        ProducerType::Furnace,
        vec![(Material::raw("Ore"), Ratio::from_int(1))],
        Ratio::from_int(3),
        Ratio::from_int(1),
    );
    let mut settings = default_settings();
    settings.furnace_level = FurnaceLevel::Steel;
    let result = plate.total_raw_result(&settings).unwrap();
    // 3 seconds at speed 2: 3/2 furnaces per plate per second
    let (_, (_, amount)) = &result.producers[0];
    assert_eq!((amount.num, amount.den), (3, 2));
}

#[test]
fn resolving_twice_gives_identical_results() {
    let a = composite(
        "A",
        ProducerType::AssemblingMachine,
        vec![(Material::raw("R"), Ratio::new(7, 3))],
        Ratio::new(5, 2),
        Ratio::from_int(2),
    );
    let settings = default_settings();
    let r1 = a.total_raw_result(&settings).unwrap();
    let r2 = a.total_raw_result(&settings).unwrap();
    assert_eq!(r1.producers.len(), r2.producers.len());
    assert_eq!(r1.total_raw.len(), r2.total_raw.len());
    for (e1, e2) in r1.producers.iter().zip(r2.producers.iter()) {
        assert!(e1.0.is_same(e2.0));
        assert_eq!(e1.1 .0, e2.1 .0);
        assert_eq!(e1.1 .1, e2.1 .1);
    }
    for (e1, e2) in r1.total_raw.iter().zip(r2.total_raw.iter()) {
        assert!(e1.0.is_same(e2.0));
        assert_eq!(e1.1, e2.1);
    }
}

#[test]
fn arithmetic_overflow_is_reported() {
    let a = composite(
        "A",
        ProducerType::AssemblingMachine,
        vec![(Material::raw("R"), Ratio::from_int(1))],
        Ratio::from_int(u64::MAX),
        Ratio::from_int(1),
    );
    // assembling machine level one halves the speed: MAX * 2 overflows
    let settings = default_settings();
    let result = a.total_raw_result(&settings);
    assert_eq!(result.err(), Some(ResolveError::ArithmeticOverflow));
}

#[test]
fn degenerate_recipe_with_no_inputs_behaves_like_raw() {
    let odd = composite(
        "Odd",
        ProducerType::AssemblingMachine,
        Vec::new(),
        Ratio::from_int(4),
        Ratio::from_int(1),
    );
    let settings = default_settings();
    let result = odd.total_raw_result(&settings).unwrap();
    assert!(result.producers.is_empty());
    assert_eq!(result.total_raw.len(), 1);
    assert_eq!(result.total_raw[0].0.name, "Odd");
    assert_eq!((result.total_raw[0].1.num, result.total_raw[0].1.den), (1, 1));
}
