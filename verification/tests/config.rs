use dzsm::config::mod_entry::{clone_entries, ModEntry, ModEntryError};
use dzsm::config::{Config, ModsConfig, ServerConfig};

fn config(list: Option<Vec<ModEntry>>, url: Option<&str>) -> Config {
    Config {
        server: ServerConfig {
            steamcmd_dir: "C:/steamcmd".to_string(),
            username: "someone".to_string(),
        },
        mods: ModsConfig {
            server_mod_list: list,
            mod_collection_url: url.map(|u| u.to_string()),
        },
    }
}

#[test]
fn mod_entry_is_read_from_a_pair() {
    let entry = ModEntry::try_from(("1559212036".to_string(), "CF".to_string()));
    assert_eq!(entry, Ok(ModEntry { id: 1559212036, name: "CF".to_string() }));
}

#[test]
fn mod_entry_with_a_bad_identifier_is_refused() {
    let entry = ModEntry::try_from(("15x".to_string(), "CF".to_string()));
    assert_eq!(entry, Err(ModEntryError::InvalidWorkshopID("15x".to_string())));
    let entry = ModEntry::try_from(("".to_string(), "CF".to_string()));
    assert_eq!(entry, Err(ModEntryError::InvalidWorkshopID("".to_string())));
    let entry = ModEntry::try_from(("18446744073709551616".to_string(), "CF".to_string()));
    assert_eq!(
        entry,
        Err(ModEntryError::InvalidWorkshopID("18446744073709551616".to_string()))
    );
}

#[test]
fn mod_entry_error_has_a_message() {
    let error = ModEntryError::InvalidWorkshopID("15x".to_string());
    assert_eq!(error.message(), "Invalid format: 15x");
}

#[test]
fn mod_entries_are_copied() {
    let list = vec![
        ModEntry { id: 1, name: "A".to_string() },
        ModEntry { id: 2, name: "B".to_string() },
    ];
    assert_eq!(clone_entries(&list), list);
    assert_eq!(list[0].clone(), list[0]);
}

#[test]
fn summary_lists_the_mods_and_the_collection() {
    let c = config(
        Some(vec![
            ModEntry { id: 1559212036, name: "CF".to_string() },
            ModEntry { id: 7, name: "B".to_string() },
        ]),
        Some("https://steamcommunity.com/sharedfiles/filedetails/?id=1"),
    );
    assert_eq!(
        c.print_summary("C:/server"),
        vec![
            "",
            "=== Configuration Summary ===",
            "Server:",
            "  steamcmd_dir: C:/steamcmd",
            "  username: someone",
            "  install_dir: C:/server",
            "Mods:",
            "  Individual mods:",
            "    1. CF (1559212036)",
            "    2. B (7)",
            "  Collection URL: https://steamcommunity.com/sharedfiles/filedetails/?id=1",
            "",
        ]
    );
}

#[test]
fn summary_of_an_empty_list_says_so() {
    let c = config(Some(vec![]), Some("   "));
    assert_eq!(
        c.print_summary("d"),
        vec![
            "",
            "=== Configuration Summary ===",
            "Server:",
            "  steamcmd_dir: C:/steamcmd",
            "  username: someone",
            "  install_dir: d",
            "Mods:",
            "  Individual mods: (none)",
            "",
        ]
    );
}

#[test]
fn summary_without_mods_has_no_mod_lines() {
    let c = config(None, None);
    assert_eq!(c.print_summary("d").len(), 8);
}
