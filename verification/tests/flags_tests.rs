use recipe_ratio::flags::{try_parse_flags, validate_flag, Flags};

fn strings(tokens: &[&str]) -> Vec<String> {
    tokens.iter().map(|t| t.to_string()).collect()
}

#[test]
fn validate_flag_strips_the_dash() {
    assert_eq!(validate_flag("-a"), Some("a"));
    assert_eq!(validate_flag("-ignore-raw"), Some("ignore-raw"));
    assert_eq!(validate_flag("a"), None);
    assert_eq!(validate_flag(""), None);
}

#[test]
fn parses_flags_with_and_without_values() {
    let flags = Flags::new(strings(&["-a", "3", "-w"])).unwrap();
    assert_eq!(flags.get("a"), Some(Some("3".to_string())));
    assert_eq!(flags.get("w"), Some(None));
    assert_eq!(flags.get("f"), None);
}

#[test]
fn later_flag_replaces_earlier_one() {
    let flags = Flags::new(strings(&["-a", "1", "-a", "2"])).unwrap();
    assert_eq!(flags.get("a"), Some(Some("2".to_string())));
    assert_eq!(flags.get_all().len(), 1);
}

#[test]
fn invalid_token_is_reported() {
    let error = match Flags::new(strings(&["oops"])) {
        Ok(_) => panic!("an invalid token must be rejected"),
        Err(message) => message,
    };
    assert_eq!(error, "Invalid flag oops");
}

#[test]
fn try_parse_flags_keeps_entries() {
    let entries = try_parse_flags(strings(&["-a", "3", "-ignore-raw", "true"])).unwrap();
    assert_eq!(entries.len(), 2);
    assert_eq!(entries[0], ("a".to_string(), Some("3".to_string())));
    assert_eq!(entries[1], ("ignore-raw".to_string(), Some("true".to_string())));
}

#[test]
fn get_all_reports_every_flag() {
    let flags = Flags::new(strings(&["-a", "-f", "steel"])).unwrap();
    let all = flags.get_all();
    assert_eq!(all.len(), 2);
    assert_eq!(all[0], ("a".to_string(), None));
    assert_eq!(all[1], ("f".to_string(), Some("steel".to_string())));
}
