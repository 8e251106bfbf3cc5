use metronome::portable_settings::{defaults, parse_unsigned, PortableSettings, SettingValue};

fn lookup(entries: &[(String, SettingValue)], key: &str) -> SettingValue {
    entries.iter().find(|(k, _)| k == key).map(|(_, v)| v.clone()).unwrap()
}

#[test]
fn test_defaults_has_all_keys() {
    let defs = defaults();
    assert_eq!(defs.len(), 13);
    assert_eq!(lookup(&defs, "beats-per-bar"), SettingValue::Number("4".to_string()));
    assert_eq!(lookup(&defs, "active-theme"), SettingValue::Text("Monokai".to_string()));
    assert_eq!(lookup(&defs, "background-opacity"), SettingValue::Number("0.15".to_string()));
}

#[test]
fn test_defaults_types_are_correct() {
    let defs = defaults();
    assert!(matches!(lookup(&defs, "tempo-ramp-enabled"), SettingValue::Boolean(_)));
    assert!(matches!(lookup(&defs, "beats-per-minute"), SettingValue::Number(_)));
    assert!(matches!(lookup(&defs, "active-theme"), SettingValue::Text(_)));
    match lookup(&defs, "background-opacity") {
        SettingValue::Number(text) => assert!(text.contains('.')),
        _ => panic!("background-opacity is not a number"),
    }
}

#[test]
fn test_uint_reads_numbers() {
    let settings = PortableSettings::new("test.app");
    assert_eq!(settings.uint("beats-per-minute"), 100);
    assert_eq!(settings.uint("tempo-ramp-target"), 260);
    assert_eq!(settings.uint("window-width"), 0);
    assert_eq!(settings.uint("background-opacity"), 0);
    assert_eq!(settings.uint("active-theme"), 0);
    assert_eq!(settings.uint("missing"), 0);
}

#[test]
fn test_boolean_reads_booleans() {
    let mut settings = PortableSettings::new("test.app");
    assert!(!settings.boolean("is-maximized"));
    assert!(!settings.boolean("beats-per-bar"));
    settings.set_boolean("is-maximized", true);
    assert!(settings.boolean("is-maximized"));
}

#[test]
fn test_set_then_read_back() {
    let mut settings = PortableSettings::new("test.app");
    settings.set_uint("beats-per-minute", 140);
    assert_eq!(settings.uint("beats-per-minute"), 140);
    settings.set_uint("new-key", 7);
    assert_eq!(settings.uint("new-key"), 7);
    settings.set_string("active-theme", "Nord");
    assert_eq!(settings.string("active-theme"), "Nord");
    assert_eq!(settings.uint("tempo-ramp-bars"), 4);
}

#[test]
fn test_uint_takes_low_32_bits() {
    let mut settings = PortableSettings::new("test.app");
    settings.set("big", SettingValue::Number("4294967297".to_string()));
    assert_eq!(settings.uint("big"), 1);
    settings.set("too-big", SettingValue::Number("18446744073709551616".to_string()));
    assert_eq!(settings.uint("too-big"), 0);
}

#[test]
fn test_parse_unsigned() {
    assert_eq!(parse_unsigned("0"), Some(0));
    assert_eq!(parse_unsigned("18446744073709551615"), Some(u64::MAX));
    assert_eq!(parse_unsigned("18446744073709551616"), None);
    assert_eq!(parse_unsigned("-1"), None);
    assert_eq!(parse_unsigned("1.5"), None);
    assert_eq!(parse_unsigned(""), None);
}

#[test]
fn settings_text_is_laid_over_the_defaults() {
    let settings = PortableSettings::load_from_text(
        "{\"beats-per-bar\": 7, \"is-maximized\": true, \"active-theme\": \"Dracula\", \"extra\": [1, 2]}",
    );
    assert_eq!(settings.uint("beats-per-bar"), 7);
    assert!(settings.boolean("is-maximized"));
    assert_eq!(settings.string("active-theme"), "Dracula");
    assert_eq!(settings.uint("beats-per-minute"), 100);
    assert_eq!(settings.value("extra"), Some(SettingValue::Other));
    assert_eq!(settings.value("background-opacity"), Some(SettingValue::Number("0.15".to_string())));
    assert_eq!(settings.entries().len(), 14);
}

#[test]
fn settings_text_that_is_no_object_gives_the_defaults() {
    let settings = PortableSettings::load_from_text("[1, 2, 3]");
    assert_eq!(settings.entries(), &defaults());
    let broken = PortableSettings::load_from_text("{\"beats-per-bar\": ");
    assert_eq!(broken.entries(), &defaults());
}
