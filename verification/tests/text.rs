use rustjack::settings::{name_or_default, settings_from};
use rustjack::string_map::StringMap;
use rustjack::text::{concat3, decimal, is_item, join, occurs, split_list};

fn owned(items: &[&str]) -> Vec<String> {
    items.iter().map(|item| item.to_string()).collect()
}

#[test]
fn decimal_numbers() {
    assert_eq!(decimal(0), "0");
    assert_eq!(decimal(9), "9");
    assert_eq!(decimal(10), "10");
    assert_eq!(decimal(9075), "9075");
    assert_eq!(decimal(usize::MAX), format!("{}", usize::MAX));
}

#[test]
fn lists_drop_empty_items() {
    assert_eq!(split_list("", ','), owned(&[]));
    assert_eq!(split_list("A", ','), owned(&["A"]));
    assert_eq!(split_list("A,B", ','), owned(&["A", "B"]));
    assert_eq!(split_list(",A,,B,", ','), owned(&["A", "B"]));
    assert_eq!(split_list(" A, B", ','), owned(&[" A", " B"]));
    assert_eq!(split_list("é,ü", ','), owned(&["é", "ü"]));
}

#[test]
fn joined_texts() {
    assert_eq!(join(&owned(&[]), ","), "");
    assert_eq!(join(&owned(&["a"]), ","), "a");
    assert_eq!(join(&owned(&["a", "b", "c"]), ", "), "a, b, c");
    assert_eq!(concat3("a", "", "b"), "ab");
}

#[test]
fn items_found() {
    let items = owned(&["A", "B"]);
    assert!(is_item(&items, &"B".to_string()));
    assert!(!is_item(&items, &"b".to_string()));
    assert!(!is_item(&owned(&[]), &"".to_string()));
}

#[test]
fn occurrences() {
    assert!(occurs("404", "error 404: gone"));
    assert!(occurs("", ""));
    assert!(occurs("aab", "aaab"));
    assert!(!occurs("NotFound", "not found"));
    assert!(!occurs("longer", "long"));
}

#[test]
fn map_keeps_last_value() {
    let mut map: StringMap<u32> = StringMap::new();
    assert_eq!(map.get("a"), None);
    map.insert("a".to_string(), 1);
    map.insert("b".to_string(), 2);
    map.insert("a".to_string(), 3);
    assert_eq!(map.get("a"), Some(&3));
    assert_eq!(map.get("b"), Some(&2));
    assert_eq!(map.get("c"), None);
    assert_eq!(map.into_entries(), vec![("a".to_string(), 3), ("b".to_string(), 2)]);
}

#[test]
fn default_settings() {
    let settings = settings_from(None, None, None, None);
    assert_eq!(settings.svc_name, "rustjack");
    assert_eq!(settings.namespace, "cert-manager");
    assert_eq!(settings.webhook_name, "rustjack-webhook");
    assert_eq!(settings.secret_name, "rustjack-tls");
    assert_eq!(name_or_default(Some("given".to_string()), "default"), "given");
}

#[test]
fn given_settings() {
    let settings = settings_from(
        Some("svc".to_string()),
        Some("ns".to_string()),
        Some("hook".to_string()),
        None,
    );
    assert_eq!(settings.svc_name, "svc");
    assert_eq!(settings.namespace, "ns");
    assert_eq!(settings.webhook_name, "hook");
    assert_eq!(settings.secret_name, "svc-tls");
    let settings = settings_from(None, None, None, Some("other".to_string()));
    assert_eq!(settings.secret_name, "other");
}
