use dzsm::layout::{
    alias_for, file_extension, is_alias, is_key_extension, is_key_file, is_reserved_key,
    is_reserved_name, key_files, push_text, Location,
};

#[test]
fn alias_is_the_name_behind_an_at_sign() {
    assert_eq!(alias_for("CF"), "@CF");
    assert_eq!(alias_for(""), "@");
    assert_eq!(alias_for("@x"), "@@x");
}

#[test]
fn alias_is_known_by_its_first_character() {
    assert!(is_alias("@CF"));
    assert!(is_alias("@"));
    assert!(!is_alias("CF"));
    assert!(!is_alias("keys"));
    assert!(!is_alias(""));
}

#[test]
fn extension_is_what_follows_the_last_dot() {
    assert_eq!(file_extension("cf.bikey"), Some("bikey".to_string()));
    assert_eq!(file_extension("a.b.c"), Some("c".to_string()));
    assert_eq!(file_extension("a."), Some("".to_string()));
    assert_eq!(file_extension("..bikey"), Some("bikey".to_string()));
    assert_eq!(file_extension("bikey"), None);
    assert_eq!(file_extension(".bikey"), None);
    assert_eq!(file_extension(".."), None);
    assert_eq!(file_extension("."), None);
    assert_eq!(file_extension(""), None);
}

#[test]
fn extension_agrees_with_std_paths() {
    for name in ["cf.bikey", "a.b.c", "a.", "..bikey", "bikey", ".bikey", "...", "x.y.", "é.ü"] {
        let expected = std::path::Path::new(name)
            .extension()
            .map(|e| e.to_string_lossy().to_string());
        assert_eq!(file_extension(name), expected, "{:?}", name);
    }
}

#[test]
fn key_files_are_known_by_their_extension_in_any_case() {
    assert!(is_key_file("cf.bikey"));
    assert!(is_key_file("CF.BIKEY"));
    assert!(is_key_file("a.b.BiKey"));
    assert!(!is_key_file("cf.bikey.txt"));
    assert!(!is_key_file("bikey"));
    assert!(!is_key_file(".bikey"));
    assert!(!is_key_file("readme.md"));
}

#[test]
fn key_extension_is_compared_in_lower_case() {
    assert!(is_key_extension("bikey"));
    assert!(!is_key_extension("BIKEY"));
    assert!(!is_key_extension("bike"));
}

#[test]
fn reserved_key_is_known_in_any_case() {
    assert!(is_reserved_key("dayz.bikey"));
    assert!(is_reserved_key("DayZ.bikey"));
    assert!(is_reserved_key("DAYZ.BIKEY"));
    assert!(!is_reserved_key("dayz2.bikey"));
    assert!(!is_reserved_key("dayz"));
}

#[test]
fn reserved_name_is_compared_in_lower_case() {
    assert!(is_reserved_name("dayz.bikey"));
    assert!(!is_reserved_name("DayZ.bikey"));
}

#[test]
fn key_files_keeps_the_keys_in_order() {
    let listing = vec![
        "b.bikey".to_string(),
        "readme.txt".to_string(),
        "A.BIKEY".to_string(),
        "keys".to_string(),
    ];
    assert_eq!(key_files(&listing), vec!["b.bikey", "A.BIKEY"]);
    assert_eq!(key_files(&vec![]), Vec::<String>::new());
}

#[test]
fn location_grows_by_joining() {
    let place = Location::new("C:/steamcmd").join("steamapps").join("workshop");
    assert_eq!(place.base, "C:/steamcmd");
    assert_eq!(place.parts, vec!["steamapps", "workshop"]);
    assert_eq!(Location::new("x").parts, Vec::<String>::new());
}

#[test]
fn push_text_appends_a_copy() {
    let mut list = vec!["a".to_string()];
    push_text(&mut list, "b");
    assert_eq!(list, vec!["a", "b"]);
}
