use mipush_zygisk::hook::{
    parse_bool, parse_int, parse_long, spoofed_value, HandleTable, KeyObserver, MAX_HANDLES,
    MAX_OBSERVED,
};

#[test]
fn parses_typed_property_values() {
    assert_eq!(parse_int("13"), Some(13));
    assert_eq!(parse_long("1625587200"), Some(1_625_587_200));
    assert_eq!(parse_bool("true"), Some(true));
    assert_eq!(parse_bool("0"), Some(false));
}

#[test]
fn rejects_invalid_typed_property_values() {
    assert_eq!(parse_int("V130"), None);
    assert_eq!(parse_long("picasso"), None);
    assert_eq!(parse_bool("maybe"), None);
}

#[test]
fn integer_edge_cases() {
    assert_eq!(parse_int(" -2147483648 "), Some(i32::MIN));
    assert_eq!(parse_int("+2147483647"), Some(i32::MAX));
    assert_eq!(parse_int("2147483648"), None);
    assert_eq!(parse_int("-"), None);
    assert_eq!(parse_int(""), None);
    assert_eq!(parse_int("1 2"), None);
    assert_eq!(parse_long("-9223372036854775808"), Some(i64::MIN));
    assert_eq!(parse_long("9223372036854775807"), Some(i64::MAX));
    assert_eq!(parse_long("9223372036854775808"), None);
    assert_eq!(parse_long("99999999999999999999999999x"), None);
}

#[test]
fn boolean_spellings_ignore_case() {
    for yes in ["1", "TRUE", "y", "Yes", " on "] {
        assert_eq!(parse_bool(yes), Some(true));
    }
    for no in ["0", "False", "N", "no", "OFF"] {
        assert_eq!(parse_bool(no), Some(false));
    }
    assert_eq!(parse_bool("tru"), None);
}

#[test]
fn spoofed_value_uses_first_entry() {
    let props = vec![
        ("a".to_string(), "1".to_string()),
        ("b".to_string(), "2".to_string()),
        ("a".to_string(), "3".to_string()),
    ];
    assert_eq!(spoofed_value(&props, "a"), Some("1"));
    assert_eq!(spoofed_value(&props, "b"), Some("2"));
    assert_eq!(spoofed_value(&props, "c"), None);
}

#[test]
fn observer_keeps_distinct_keys_up_to_the_limit() {
    let mut observer = KeyObserver::new();
    observer.observe_key("a");
    observer.observe_key("b");
    observer.observe_key("a");
    assert_eq!(observer.keys(), &vec!["a".to_string(), "b".to_string()]);
    for i in 0..400 {
        observer.observe_key(&format!("k{i}"));
    }
    assert_eq!(observer.keys().len(), MAX_OBSERVED);
}

#[test]
fn handles_read_back_their_values() {
    let mut table = HandleTable::new();
    let a = table.find_or_insert("Xiaomi");
    let b = table.find_or_insert("picasso");
    assert_eq!((a, b), (1, 2));
    assert_eq!(table.find_or_insert("Xiaomi"), 1);
    assert_eq!(table.get(a), Some("Xiaomi"));
    assert_eq!(table.get(b), Some("picasso"));
    assert_eq!(table.get(0), None);
    assert_eq!(table.get(-1), None);
    assert_eq!(table.get(3), None);
    for i in 2..MAX_HANDLES {
        table.find_or_insert(&format!("v{i}"));
    }
    assert_eq!(table.find_or_insert("one too many"), 0);
    assert_eq!(table.get(MAX_HANDLES as i64), Some(format!("v{}", MAX_HANDLES - 1).as_str()));
}

#[test]
fn observer_ignores_keys_when_disabled() {
    let mut observer = KeyObserver::new();
    observer.observe_if_enabled(false, "a");
    assert!(observer.keys().is_empty());
    observer.observe_if_enabled(true, "a");
    observer.observe_if_enabled(true, "a");
    assert_eq!(observer.keys(), &vec!["a".to_string()]);
}
