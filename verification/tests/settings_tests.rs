use recipe_ratio::enums::{AssemblingMachineLevel, FurnaceLevel};
use recipe_ratio::flags::Flags;
use recipe_ratio::settings_update::{
    apply_update_flags, first_unknown_flag, get_assembling_machine_level, get_furnace_level,
    get_ignore_furnace, get_ignore_raw, get_whole_number,
};
use recipe_ratio::user_settings::{UserSettings, UserSettingsDatabase};

fn strings(tokens: &[&str]) -> Vec<String> {
    tokens.iter().map(|t| t.to_string()).collect()
}

#[test]
fn defaults_are_the_lowest_tiers() {
    let settings = UserSettings::default();
    assert_eq!(settings.assembling_machine_level, AssemblingMachineLevel::One);
    assert_eq!(settings.furnace_level, FurnaceLevel::Stone);
    assert!(!settings.whole_numbers);
    assert!(!settings.ignore_furnaces_for_ratio);
    assert!(!settings.ignore_raw_for_ratio);
}

#[test]
fn database_returns_defaults_until_updated() {
    let mut database = UserSettingsDatabase::new();
    assert_eq!(database.get("alex"), UserSettings::default());
    let mut updated = UserSettings::default();
    updated.furnace_level = FurnaceLevel::Steel;
    database.update("alex", updated);
    assert_eq!(database.get("alex").furnace_level, FurnaceLevel::Steel);
    assert_eq!(database.get("sam"), UserSettings::default());
}

#[test]
fn assembling_level_flag_is_read_case_insensitively() {
    let settings = UserSettings::default();
    let flags = Flags::new(strings(&["-a", "3"])).unwrap();
    assert_eq!(
        get_assembling_machine_level(&settings, &flags),
        Ok(AssemblingMachineLevel::Three)
    );
    let missing = Flags::new(strings(&["-w", "true"])).unwrap();
    assert_eq!(
        get_assembling_machine_level(&settings, &missing),
        Ok(AssemblingMachineLevel::One)
    );
    let invalid = Flags::new(strings(&["-a", "9"])).unwrap();
    assert_eq!(
        get_assembling_machine_level(&settings, &invalid),
        Err("Error: Invalid assembling machine level *9*".to_string())
    );
    let valueless = Flags::new(strings(&["-a"])).unwrap();
    assert_eq!(
        get_assembling_machine_level(&settings, &valueless),
        Err("No value found for -a flag".to_string())
    );
}

#[test]
fn furnace_level_flag_accepts_mixed_case() {
    let settings = UserSettings::default();
    let flags = Flags::new(strings(&["-f", "Steel"])).unwrap();
    assert_eq!(get_furnace_level(&settings, &flags), Ok(FurnaceLevel::Steel));
    let stone = Flags::new(strings(&["-f", "STONE"])).unwrap();
    assert_eq!(get_furnace_level(&settings, &stone), Ok(FurnaceLevel::Stone));
    let invalid = Flags::new(strings(&["-f", "iron"])).unwrap();
    assert_eq!(
        get_furnace_level(&settings, &invalid),
        Err("Error: Invalid furnace level flag *iron*".to_string())
    );
}

#[test]
fn boolean_flags_accept_true_and_false() {
    let settings = UserSettings::default();
    let flags = Flags::new(strings(&["-w", "TRUE"])).unwrap();
    assert_eq!(get_whole_number(&settings, &flags), Ok(true));
    let flags = Flags::new(strings(&["-ignore-furnace", "false"])).unwrap();
    assert_eq!(get_ignore_furnace(&settings, &flags), Ok(false));
    let flags = Flags::new(strings(&["-ignore-raw", "true"])).unwrap();
    assert_eq!(get_ignore_raw(&settings, &flags), Ok(true));
    let invalid = Flags::new(strings(&["-w", "yes"])).unwrap();
    assert_eq!(
        get_whole_number(&settings, &invalid),
        Err("Error: Invalid whole flag *yes*".to_string())
    );
}

#[test]
fn apply_update_flags_updates_every_named_field() {
    let settings = UserSettings::default();
    let flags = Flags::new(strings(&["-a", "2", "-f", "steel", "-w", "true"])).unwrap();
    let updated = apply_update_flags(&settings, &flags).unwrap();
    assert_eq!(updated.assembling_machine_level, AssemblingMachineLevel::Two);
    assert_eq!(updated.furnace_level, FurnaceLevel::Steel);
    assert!(updated.whole_numbers);
    assert!(!updated.ignore_furnaces_for_ratio);
    assert!(!updated.ignore_raw_for_ratio);
}

#[test]
fn apply_update_flags_reports_the_first_error() {
    let settings = UserSettings::default();
    let flags = Flags::new(strings(&["-a", "9", "-f", "iron"])).unwrap();
    assert_eq!(
        apply_update_flags(&settings, &flags),
        Err("Error: Invalid assembling machine level *9*".to_string())
    );
}

#[test]
fn unknown_flags_are_detected_in_order() {
    let flags = Flags::new(strings(&["-a", "2", "-x", "-y"])).unwrap();
    assert_eq!(first_unknown_flag(&flags), Some("x".to_string()));
    let known = Flags::new(strings(&["-a", "2", "-ignore-raw", "true"])).unwrap();
    assert_eq!(first_unknown_flag(&known), None);
}
