use recipe_ratio::enums::ProducerType;
use recipe_ratio::material::Material;
use recipe_ratio::ratio::Ratio;
use recipe_ratio::recipe::Recipe;
use recipe_ratio::total_raw_result::{lcm, lcm_multiple, TotalRawResult};

fn composite(name: &str, producer: ProducerType) -> Material {
    Material::non_raw(
        name,
        Recipe::new(
            Some(producer),
            vec![(Material::raw("Ore"), Ratio::from_int(1))],
            Ratio::from_int(1),
            Ratio::from_int(1),
        ),
    )
}

#[test]
fn lcm_of_pairs() {
    assert_eq!(lcm(4, 6), Some(12));
    assert_eq!(lcm(1, 9), Some(9));
    assert_eq!(lcm(u64::MAX, 2), None);
}

#[test]
fn lcm_multiple_folds_pairwise() {
    assert_eq!(lcm_multiple(vec![2, 3, 4]), Some(12));
    assert_eq!(lcm_multiple(vec![]), Some(1));
    assert_eq!(lcm_multiple(vec![5]), Some(5));
}

#[test]
fn denominators_two_three_four_scale_by_twelve() {
    let assembler = composite("Gear", ProducerType::AssemblingMachine);
    let furnace = composite("Plate", ProducerType::Furnace);
    let ore = Material::raw("Ore");
    let result = TotalRawResult::new(
        vec![
            (&assembler, (ProducerType::AssemblingMachine, Ratio::new(1, 2))),
            (&furnace, (ProducerType::Furnace, Ratio::new(1, 3))),
        ],
        vec![(&ore, Ratio::new(5, 4))],
    );
    let (factor, scaled) = result.whole_ratio(false, false).unwrap();
    assert_eq!((factor.num, factor.den), (12, 1));
    // every entry of both maps is multiplied by 12, excluded ones included
    assert_eq!(
        (scaled.producers[0].1 .1.num, scaled.producers[0].1 .1.den),
        (6, 1)
    );
    assert_eq!(
        (scaled.producers[1].1 .1.num, scaled.producers[1].1 .1.den),
        (4, 1)
    );
    assert_eq!(
        (scaled.total_raw[0].1.num, scaled.total_raw[0].1.den),
        (15, 1)
    );
}

#[test]
fn integral_candidates_leave_result_unchanged() {
    let assembler = composite("Gear", ProducerType::AssemblingMachine);
    let ore = Material::raw("Ore");
    let result = TotalRawResult::new(
        vec![(&assembler, (ProducerType::AssemblingMachine, Ratio::from_int(3)))],
        vec![(&ore, Ratio::from_int(7))],
    );
    let (factor, scaled) = result.whole_ratio(false, false).unwrap();
    assert_eq!((factor.num, factor.den), (1, 1));
    assert_eq!(
        (scaled.producers[0].1 .1.num, scaled.producers[0].1 .1.den),
        (3, 1)
    );
    assert_eq!(
        (scaled.total_raw[0].1.num, scaled.total_raw[0].1.den),
        (7, 1)
    );
}

#[test]
fn exclusion_flags_change_factor_but_rescale_everything() {
    let assembler = composite("Gear", ProducerType::AssemblingMachine);
    let furnace = composite("Plate", ProducerType::Furnace);
    let ore = Material::raw("Ore");
    let producers = vec![
        (&assembler, (ProducerType::AssemblingMachine, Ratio::new(1, 2))),
        (&furnace, (ProducerType::Furnace, Ratio::new(1, 3))),
    ];
    let raw = vec![(&ore, Ratio::new(1, 5))];
    let result = TotalRawResult::new(producers.clone(), raw.clone());

    let (factor_all, scaled_all) = result.whole_ratio(false, false).unwrap();
    assert_eq!((factor_all.num, factor_all.den), (30, 1));
    assert_eq!(
        (scaled_all.total_raw[0].1.num, scaled_all.total_raw[0].1.den),
        (6, 1)
    );

    let (factor_no_raw, scaled_no_raw) = result.whole_ratio(false, true).unwrap();
    assert_eq!((factor_no_raw.num, factor_no_raw.den), (6, 1));
    // the excluded raw entry is still rescaled by the chosen factor
    assert_eq!(
        (
            scaled_no_raw.total_raw[0].1.num,
            scaled_no_raw.total_raw[0].1.den
        ),
        (6, 5)
    );

    let (factor_no_furnace, scaled_no_furnace) = result.whole_ratio(true, false).unwrap();
    assert_eq!((factor_no_furnace.num, factor_no_furnace.den), (10, 1));
    // the excluded furnace entry is still rescaled by the chosen factor
    assert_eq!(
        (
            scaled_no_furnace.producers[1].1 .1.num,
            scaled_no_furnace.producers[1].1 .1.den
        ),
        (10, 3)
    );
}
