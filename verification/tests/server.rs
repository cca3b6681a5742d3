use dzsm::cli::CliArgs;
use dzsm::collection_fetcher::FetchError;
use dzsm::config::mod_entry::ModEntry;
use dzsm::config::{Config, ModsConfig, ServerConfig};
use dzsm::mods::Run;
use dzsm::install::Action;
use dzsm::server::{mods_string, ServerError, ServerManager, DAYZ_GAME_APP_ID, DAYZ_SERVER_APP_ID};
use dzsm::steamcmd::{SetupError, SteamCmdManager};

fn args() -> CliArgs {
    CliArgs {
        skip_server_validation: false,
        skip_mod_validation: false,
        skip_validation: false,
        offline: false,
    }
}

fn entry(id: u64, name: &str) -> ModEntry {
    ModEntry { id, name: name.to_string() }
}

fn manager(args: CliArgs, list: Option<Vec<ModEntry>>, url: Option<&str>) -> ServerManager {
    let config = Config {
        server: ServerConfig {
            steamcmd_dir: "C:/steamcmd".to_string(),
            username: "someone".to_string(),
        },
        mods: ModsConfig {
            server_mod_list: list,
            mod_collection_url: url.map(|u| u.to_string()),
        },
    };
    ServerManager::new(args, config, "C:/server")
}

fn names(list: &[&str]) -> Vec<String> {
    list.iter().map(|n| n.to_string()).collect()
}

const URL: &str = "https://steamcommunity.com/sharedfiles/filedetails/?id=1";

#[test]
fn application_identifiers_are_those_of_the_game() {
    assert_eq!(DAYZ_SERVER_APP_ID, 223350);
    assert_eq!(DAYZ_GAME_APP_ID, 221100);
}

#[test]
fn launch_flag_has_one_token_for_each_mod() {
    assert_eq!(mods_string(&vec![]), None);
    assert_eq!(mods_string(&vec![entry(1, "CF")]), Some("@CF".to_string()));
    assert_eq!(
        mods_string(&vec![entry(1, "CF"), entry(2, "Expansion Core"), entry(3, "X")]),
        Some("@CF;@Expansion Core;@X".to_string())
    );
}

#[test]
fn launch_flags_keep_the_order_of_their_lists() {
    let mut m = manager(args(), Some(vec![entry(2, "B"), entry(1, "A")]), Some(URL));
    m.resolve_collection_mods(Some(Ok(vec![entry(9, "Z"), entry(8, "Y"), entry(7, "X")])));
    assert_eq!(m.build_server_mods_string(), Some("@B;@A".to_string()));
    assert_eq!(m.build_mods_string(), Some("@Z;@Y;@X".to_string()));
    let tokens = m.build_mods_string().unwrap();
    assert_eq!(tokens.split(';').count(), 3);
    assert!(tokens.split(';').all(|t| t.starts_with('@')));
}

#[test]
fn empty_lists_give_no_flags() {
    let m = manager(args(), None, None);
    assert_eq!(m.build_server_mods_string(), None);
    assert_eq!(m.build_mods_string(), None);
    assert_eq!(
        m.run_server(true),
        Ok(names(&["-config=serverDZ.cfg", "-profiles=profiles"]))
    );
}

#[test]
fn server_is_started_with_both_flags() {
    let mut m = manager(args(), Some(vec![entry(1, "A")]), Some(URL));
    m.resolve_collection_mods(Some(Ok(vec![entry(9, "Z"), entry(8, "Y")])));
    assert_eq!(
        m.run_server(true),
        Ok(names(&["-config=serverDZ.cfg", "-profiles=profiles", "-mod=@Z;@Y", "-serverMod=@A"]))
    );
}

#[test]
fn server_without_executable_is_not_started() {
    let m = manager(args(), Some(vec![entry(1, "A")]), None);
    assert_eq!(m.run_server(false), Err(ServerError::ExecutableMissing));
}

#[test]
fn clearing_removes_every_alias_and_every_key_but_the_reserved_one() {
    let m = manager(args(), None, None);
    let plan = m.uninstall_prev_mod_installations(
        Some(names(&["@CF", "keys", "DayZServer_x64.exe", "@Old Mod", "profiles", "@"])),
        Some(names(&["cf.bikey", "dayz.bikey", "old.bikey", "notes.txt", "DAYZ.BIKEY"])),
    );
    assert_eq!(plan.aliases, names(&["@CF", "@Old Mod", "@"]));
    assert_eq!(plan.keys, names(&["cf.bikey", "old.bikey", "notes.txt"]));
}

#[test]
fn clearing_does_not_depend_on_the_wanted_mods() {
    let listing = names(&["@CF", "@Other", "x"]);
    let keys = names(&["cf.bikey", "dayz.bikey"]);
    let none = manager(args(), None, None);
    let some = manager(args(), Some(vec![entry(1, "CF")]), Some(URL));
    let a = none.uninstall_prev_mod_installations(Some(listing.clone()), Some(keys.clone()));
    let b = some.uninstall_prev_mod_installations(Some(listing), Some(keys));
    assert_eq!(a, b);
    assert_eq!(a.aliases, names(&["@CF", "@Other"]));
    assert_eq!(a.keys, names(&["cf.bikey"]));
}

#[test]
fn clearing_of_missing_directories_removes_nothing() {
    let m = manager(args(), None, None);
    let plan = m.uninstall_prev_mod_installations(None, None);
    assert!(plan.aliases.is_empty());
    assert!(plan.keys.is_empty());
    assert_eq!(ServerManager::cleanup_mod_directories(&vec![]), Vec::<String>::new());
    assert_eq!(ServerManager::cleanup_keys_directory(&names(&["dayz.bikey"])), Vec::<String>::new());
}

#[test]
fn individual_mods_come_from_the_configuration() {
    let m = manager(args(), Some(vec![entry(2, "B"), entry(1, "A")]), None);
    assert_eq!(m.get_individual_mods(), vec![entry(2, "B"), entry(1, "A")]);
    assert_eq!(manager(args(), None, None).get_individual_mods(), vec![]);
}

#[test]
fn collection_is_asked_for_once() {
    let mut m = manager(args(), None, Some(URL));
    assert_eq!(m.collection_request(), Some(URL.to_string()));
    assert_eq!(m.get_collection_mods(), vec![]);
    assert_eq!(m.resolve_collection_mods(Some(Ok(vec![entry(9, "Z")]))), None);
    assert_eq!(m.get_collection_mods(), vec![entry(9, "Z")]);
    assert_eq!(m.collection_request(), None);
    assert_eq!(m.resolve_collection_mods(Some(Ok(vec![entry(8, "Y")]))), None);
    assert_eq!(m.get_collection_mods(), vec![entry(9, "Z")]);
    assert_eq!(m.resolve_collection_mods(Some(Err(FetchError::Http(500)))), None);
    assert_eq!(m.get_collection_mods(), vec![entry(9, "Z")]);
}

#[test]
fn blank_or_missing_address_gives_an_empty_collection() {
    for url in [None, Some(""), Some("   "), Some("\t\n")] {
        let mut m = manager(args(), None, url);
        assert_eq!(m.collection_request(), None);
        assert_eq!(m.resolve_collection_mods(None), None);
        assert_eq!(m.get_collection_mods(), vec![]);
    }
    let mut m = manager(args(), None, Some("  "));
    assert_eq!(m.resolve_collection_mods(Some(Ok(vec![entry(9, "Z")]))), None);
    assert_eq!(m.get_collection_mods(), vec![]);
}

#[test]
fn failed_fetch_gives_an_empty_collection_and_a_warning() {
    let mut m = manager(args(), Some(vec![entry(1, "A")]), Some(URL));
    let warning = m.resolve_collection_mods(Some(Err(FetchError::Http(404))));
    assert_eq!(warning, Some(FetchError::Http(404)));
    assert_eq!(m.get_collection_mods(), vec![]);
    assert_eq!(m.collection_request(), None);
    assert_eq!(m.get_individual_mods(), vec![entry(1, "A")]);
    let mut m = manager(args(), None, Some(URL));
    let warning = m.resolve_collection_mods(Some(Err(FetchError::NotACollection)));
    assert_eq!(warning, Some(FetchError::NotACollection));
    assert_eq!(m.get_collection_mods(), vec![]);
}

#[test]
fn download_tool_is_taken_where_it_is_ready() {
    let mut m = manager(args(), None, None);
    assert_eq!(m.mod_source_path(7), None);
    assert_eq!(m.setup_steamcmd(Err(SetupError::Declined)), Err(SetupError::Declined));
    assert_eq!(m.mod_source_path(7), None);
    let tool = m.steamcmd();
    assert_eq!(tool, SteamCmdManager::new("C:/steamcmd"));
    assert_eq!(m.setup_steamcmd(Ok(tool)), Ok(()));
    let place = m.mod_source_path(7).unwrap();
    assert_eq!(place.base, "C:/steamcmd");
    assert_eq!(place.parts, names(&["steamapps", "workshop", "content", "221100", "7"]));
    assert_eq!(
        m.mod_download_args(7, true),
        Some(names(&["+login", "someone", "+workshop_download_item", "221100", "7", "validate", "+quit"]))
    );
}

#[test]
fn server_update_needs_the_download_tool() {
    let m = manager(args(), None, None);
    assert_eq!(m.install_or_update_server(true), Err(ServerError::SteamCmdNotSetUp));
}

#[test]
fn server_update_without_network_needs_the_executable() {
    let mut a = args();
    a.offline = true;
    let mut m = manager(a, None, None);
    m.setup_steamcmd(Ok(SteamCmdManager::new("C:/steamcmd"))).unwrap();
    assert_eq!(m.install_or_update_server(true), Ok(None));
    assert_eq!(m.install_or_update_server(false), Err(ServerError::ServerMissingOffline));
}

#[test]
fn server_update_with_network_runs_the_download_tool() {
    let mut m = manager(args(), None, None);
    m.setup_steamcmd(Ok(SteamCmdManager::new("C:/steamcmd"))).unwrap();
    assert_eq!(
        m.install_or_update_server(false),
        Ok(Some(names(&[
            "+force_install_dir",
            "C:/server",
            "+login",
            "someone",
            "+app_update",
            "223350",
            "+quit",
        ])))
    );
    let mut a = args();
    a.skip_server_validation = true;
    let mut m = manager(a, None, None);
    m.setup_steamcmd(Ok(SteamCmdManager::new("C:/steamcmd"))).unwrap();
    let arguments = m.install_or_update_server(true).unwrap().unwrap();
    assert_eq!(arguments[6], "validate");
    assert_eq!(arguments.len(), 8);
}

#[test]
fn nothing_is_installed_where_no_mod_is_wanted() {
    let m = manager(args(), Some(vec![]), None);
    assert!(matches!(m.install_or_update_mods(), Ok(None)));
    let m = manager(args(), None, Some(URL));
    assert!(matches!(m.install_or_update_mods(), Ok(None)));
}

#[test]
fn mods_are_not_installed_without_the_download_tool() {
    let m = manager(args(), Some(vec![entry(1, "A")]), None);
    assert!(matches!(m.install_or_update_mods(), Err(ServerError::SteamCmdNotSetUp)));
}

#[test]
fn mods_of_both_lists_are_handed_to_the_manager() {
    let mut a = args();
    a.offline = true;
    let mut m = manager(a, Some(vec![entry(1, "A")]), Some(URL));
    m.setup_steamcmd(Ok(SteamCmdManager::new("C:/steamcmd"))).unwrap();
    m.resolve_collection_mods(Some(Ok(vec![entry(9, "Z")])));
    let mods = m.install_or_update_mods().unwrap().unwrap();
    assert_eq!(mods.len(), 2);
    match mods.install_mods() {
        Run::Continue(_, action) => assert_eq!(action, Action::ProbePackage { id: 1 }),
        Run::Finished(_) => panic!("the run ended"),
    }
    match mods.install_single_mod(1) {
        Some((_, action)) => assert_eq!(action, Action::ProbePackage { id: 9 }),
        None => panic!("the mod is there"),
    }
}

#[test]
fn server_paths_lie_in_the_server_directory() {
    let m = manager(args(), None, None);
    assert_eq!(m.get_server_keys_path().base, "C:/server");
    assert_eq!(m.get_server_keys_path().parts, names(&["keys"]));
    assert_eq!(m.get_server_exe_path().parts, names(&["DayZServer_x64.exe"]));
    assert_eq!(m.args(), args());
}

#[test]
fn server_error_has_a_message() {
    assert_eq!(ServerError::SteamCmdNotSetUp.message(), "SteamCMD has not been setup yet.");
    assert_eq!(
        ServerError::ServerMissingOffline.message(),
        "DayZServer_x64.exe not found locally. Run without --offline to install it first."
    );
    assert_eq!(
        ServerError::ExecutableMissing.message(),
        "DayZ server executable not found. Make sure the server has been downloaded/updated first."
    );
}

#[test]
fn mods_that_share_a_name_are_refused() {
    let mut m = manager(args(), Some(vec![entry(1, "A"), entry(2, "B")]), Some(URL));
    m.setup_steamcmd(Ok(SteamCmdManager::new("C:/steamcmd"))).unwrap();
    m.resolve_collection_mods(Some(Ok(vec![entry(3, "C"), entry(4, "A")])));
    assert!(matches!(m.install_or_update_mods(), Err(ServerError::DuplicateModName)));
    let mut m = manager(args(), Some(vec![entry(1, "A"), entry(2, "a")]), None);
    m.setup_steamcmd(Ok(SteamCmdManager::new("C:/steamcmd"))).unwrap();
    assert!(matches!(m.install_or_update_mods(), Ok(Some(_))));
    assert_eq!(
        ServerError::DuplicateModName.message(),
        "Two of the configured mods share a name."
    );
}
