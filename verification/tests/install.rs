use dzsm::config::mod_entry::ModEntry;
use dzsm::install::{Action, Event, InstallError, ModInstall, Progress};
use dzsm::mods::{AggregateInstallError, ModOutcome, ModsManager, Run};
use std::collections::{HashMap, HashSet};

/// A disk in memory that answers the actions of an installation.
struct Disk {
    cached: HashSet<u64>,
    remote: HashSet<u64>,
    package_keys: HashMap<u64, Vec<String>>,
    aliases: HashSet<String>,
    keys: HashMap<String, u64>,
    download_fails: bool,
    download_brings_nothing: bool,
    links_fail: bool,
    listing_fails: bool,
    failing_key: Option<String>,
    log: Vec<String>,
}

impl Disk {
    fn new() -> Disk {
        Disk {
            cached: HashSet::new(),
            remote: HashSet::new(),
            package_keys: HashMap::new(),
            aliases: HashSet::new(),
            keys: HashMap::new(),
            download_fails: false,
            download_brings_nothing: false,
            links_fail: false,
            listing_fails: false,
            failing_key: None,
            log: Vec::new(),
        }
    }

    fn with_remote(mut self, id: u64, keys: Option<Vec<&str>>) -> Disk {
        self.remote.insert(id);
        if let Some(names) = keys {
            self.package_keys.insert(id, names.into_iter().map(|n| n.to_string()).collect());
        }
        self
    }

    fn with_cached(mut self, id: u64, keys: Option<Vec<&str>>) -> Disk {
        self.cached.insert(id);
        if let Some(names) = keys {
            self.package_keys.insert(id, names.into_iter().map(|n| n.to_string()).collect());
        }
        self
    }

    fn perform(&mut self, action: &Action) -> Event {
        self.log.push(format!("{:?}", action));
        match action {
            Action::ProbePackage { id } => Event::Present(self.cached.contains(id)),
            Action::Download { id, .. } => {
                if self.download_fails || !self.remote.contains(id) && !self.cached.contains(id) {
                    Event::Failed("download failed".to_string())
                } else {
                    if !self.download_brings_nothing {
                        self.cached.insert(*id);
                    }
                    Event::Completed
                }
            }
            Action::ProbeAlias { alias } => Event::Present(self.aliases.contains(alias)),
            Action::LinkAlias { alias, .. } => {
                if self.links_fail || self.aliases.contains(alias) {
                    Event::Failed("link failed".to_string())
                } else {
                    self.aliases.insert(alias.clone());
                    Event::Completed
                }
            }
            Action::ListKeys { id } => {
                if self.listing_fails {
                    Event::Failed("listing failed".to_string())
                } else {
                    Event::Listing(self.package_keys.get(id).cloned())
                }
            }
            Action::ProbeKey { file } => Event::Present(self.keys.contains_key(file)),
            Action::LinkKey { file, id } => {
                if self.failing_key.as_ref() == Some(file) || self.keys.contains_key(file) {
                    Event::Failed("key failed".to_string())
                } else {
                    self.keys.insert(file.clone(), *id);
                    Event::Completed
                }
            }
        }
    }

    fn count(&self, prefix: &str) -> usize {
        self.log.iter().filter(|l| l.starts_with(prefix)).count()
    }
}

fn install(disk: &mut Disk, id: u64, name: &str, offline: bool) -> Result<(), InstallError> {
    let (mut state, mut action) = ModInstall::begin(id, name.to_string(), offline, false);
    loop {
        let event = disk.perform(&action);
        match state.step(event) {
            Progress::Continue(s, a) => {
                state = s;
                action = a;
            }
            Progress::Finished(result) => return result,
        }
    }
}

fn run_with_outcomes(
    disk: &mut Disk,
    manager: &ModsManager,
) -> (Vec<ModOutcome>, Result<(), AggregateInstallError>) {
    let mut outcomes = Vec::new();
    let mut run = manager.install_mods();
    loop {
        match run {
            Run::Continue(state, action) => {
                let event = disk.perform(&action);
                let (outcome, next) = manager.step(state, event);
                outcomes.extend(outcome);
                run = next;
            }
            Run::Finished(result) => return (outcomes, result),
        }
    }
}

fn run(disk: &mut Disk, manager: &ModsManager) -> Result<(), AggregateInstallError> {
    run_with_outcomes(disk, manager).1
}

fn entry(id: u64, name: &str) -> ModEntry {
    ModEntry { id, name: name.to_string() }
}

#[test]
fn installation_with_network_downloads_links_and_mirrors() {
    let mut disk = Disk::new().with_remote(7, Some(vec!["cf.bikey", "readme.txt", "X.BIKEY"]));
    assert_eq!(install(&mut disk, 7, "CF", false), Ok(()));
    assert!(disk.cached.contains(&7));
    assert!(disk.aliases.contains("@CF"));
    assert_eq!(disk.keys.get("cf.bikey"), Some(&7));
    assert_eq!(disk.keys.get("X.BIKEY"), Some(&7));
    assert_eq!(disk.keys.len(), 2);
    assert_eq!(
        disk.log,
        vec![
            "Download { id: 7, validate: false }",
            "ProbePackage { id: 7 }",
            "ProbeAlias { alias: \"@CF\" }",
            "LinkAlias { alias: \"@CF\", id: 7 }",
            "ListKeys { id: 7 }",
            "ProbeKey { file: \"cf.bikey\" }",
            "LinkKey { file: \"cf.bikey\", id: 7 }",
            "ProbeKey { file: \"X.BIKEY\" }",
            "LinkKey { file: \"X.BIKEY\", id: 7 }",
        ]
    );
}

#[test]
fn installation_starts_with_the_download_and_hands_on_the_validate_switch() {
    let (_, action) = ModInstall::begin(7, "CF".to_string(), false, true);
    assert_eq!(action, Action::Download { id: 7, validate: true });
    let (state, action) = ModInstall::begin(7, "CF".to_string(), true, true);
    assert_eq!(action, Action::ProbePackage { id: 7 });
    assert_eq!(state.name(), "CF");
}

#[test]
fn installation_without_keys_directory_succeeds() {
    let mut disk = Disk::new().with_remote(7, None);
    assert_eq!(install(&mut disk, 7, "CF", false), Ok(()));
    assert!(disk.aliases.contains("@CF"));
    assert!(disk.keys.is_empty());
    assert_eq!(disk.count("ProbeKey"), 0);
}

#[test]
fn offline_installation_of_a_cached_package_makes_no_download() {
    let mut disk = Disk::new().with_cached(7, Some(vec!["cf.bikey"]));
    assert_eq!(install(&mut disk, 7, "CF", true), Ok(()));
    assert_eq!(disk.count("Download"), 0);
    assert!(disk.aliases.contains("@CF"));
    assert_eq!(disk.keys.get("cf.bikey"), Some(&7));
}

#[test]
fn offline_installation_of_a_missing_package_fails_at_once() {
    let mut disk = Disk::new().with_remote(7, Some(vec!["cf.bikey"]));
    assert_eq!(install(&mut disk, 7, "CF", true), Err(InstallError::NotAvailableOffline(7)));
    assert_eq!(disk.log, vec!["ProbePackage { id: 7 }"]);
    assert!(disk.aliases.is_empty());
    assert!(disk.keys.is_empty());
}

#[test]
fn failed_download_is_a_download_error() {
    let mut disk = Disk::new().with_remote(7, None);
    disk.download_fails = true;
    assert_eq!(
        install(&mut disk, 7, "CF", false),
        Err(InstallError::Download("download failed".to_string()))
    );
    assert_eq!(disk.log.len(), 1);
}

#[test]
fn package_missing_after_the_download_is_an_integrity_error() {
    let mut disk = Disk::new().with_remote(7, None);
    disk.download_brings_nothing = true;
    assert_eq!(install(&mut disk, 7, "CF", false), Err(InstallError::Integrity(7)));
    assert!(disk.aliases.is_empty());
}

#[test]
fn failed_alias_is_a_link_error() {
    let mut disk = Disk::new().with_remote(7, Some(vec!["cf.bikey"]));
    disk.links_fail = true;
    assert_eq!(
        install(&mut disk, 7, "CF", false),
        Err(InstallError::Link("link failed".to_string()))
    );
    assert_eq!(disk.count("ListKeys"), 0);
}

#[test]
fn failed_listing_is_a_key_error() {
    let mut disk = Disk::new().with_remote(7, Some(vec!["cf.bikey"]));
    disk.listing_fails = true;
    assert_eq!(
        install(&mut disk, 7, "CF", false),
        Err(InstallError::Key("listing failed".to_string()))
    );
}

#[test]
fn failed_key_is_a_key_error_and_ends_the_installation() {
    let mut disk = Disk::new().with_remote(7, Some(vec!["a.bikey", "b.bikey", "c.bikey"]));
    disk.failing_key = Some("b.bikey".to_string());
    assert_eq!(
        install(&mut disk, 7, "CF", false),
        Err(InstallError::Key("key failed".to_string()))
    );
    assert!(disk.keys.contains_key("a.bikey"));
    assert!(!disk.keys.contains_key("c.bikey"));
    assert!(disk.aliases.contains("@CF"));
}

#[test]
fn unexpected_reply_counts_as_a_failure() {
    let (state, _) = ModInstall::begin(7, "CF".to_string(), false, false);
    match state.step(Event::Present(true)) {
        Progress::Finished(result) => {
            assert_eq!(result, Err(InstallError::Download("unexpected reply".to_string())))
        }
        Progress::Continue(_, _) => panic!("the installation went on"),
    }
}

#[test]
fn installing_twice_succeeds_and_links_nothing_again() {
    let mut disk = Disk::new().with_remote(7, Some(vec!["cf.bikey", "x.bikey"]));
    assert_eq!(install(&mut disk, 7, "CF", false), Ok(()));
    let aliases = disk.aliases.clone();
    let keys = disk.keys.clone();
    disk.log.clear();
    assert_eq!(install(&mut disk, 7, "CF", false), Ok(()));
    assert_eq!(disk.count("LinkAlias"), 0);
    assert_eq!(disk.count("LinkKey"), 0);
    assert_eq!(disk.aliases, aliases);
    assert_eq!(disk.keys, keys);
}

#[test]
fn existing_alias_is_left_as_it_is() {
    let mut disk = Disk::new().with_cached(7, None);
    disk.aliases.insert("@CF".to_string());
    disk.links_fail = true;
    assert_eq!(install(&mut disk, 7, "CF", true), Ok(()));
    assert_eq!(disk.count("LinkAlias"), 0);
}

#[test]
fn first_writer_of_a_key_wins() {
    let mut disk = Disk::new()
        .with_remote(1, Some(vec!["shared.bikey", "one.bikey"]))
        .with_remote(2, Some(vec!["two.bikey", "shared.bikey"]));
    assert_eq!(install(&mut disk, 1, "One", false), Ok(()));
    assert_eq!(install(&mut disk, 2, "Two", false), Ok(()));
    assert_eq!(disk.keys.get("shared.bikey"), Some(&1));
    assert_eq!(disk.keys.get("one.bikey"), Some(&1));
    assert_eq!(disk.keys.get("two.bikey"), Some(&2));
    assert_eq!(disk.keys.len(), 3);
    assert_eq!(disk.count("LinkKey { file: \"shared.bikey\""), 1);
}

#[test]
fn existing_key_is_not_replaced() {
    let mut disk = Disk::new().with_remote(2, Some(vec!["old.bikey"]));
    disk.keys.insert("old.bikey".to_string(), 99);
    assert_eq!(install(&mut disk, 2, "Two", false), Ok(()));
    assert_eq!(disk.keys.get("old.bikey"), Some(&99));
}

#[test]
fn install_error_has_a_message() {
    assert_eq!(
        InstallError::NotAvailableOffline(7).message(),
        "Mod 7 not found locally. Run without --offline to download it first."
    );
    assert_eq!(InstallError::Integrity(12).message(), "Mod 12 not found in workshop directory");
    assert_eq!(InstallError::Download("a".to_string()).message(), "a");
    assert_eq!(InstallError::Link("b".to_string()).message(), "b");
    assert_eq!(InstallError::Key("c".to_string()).message(), "c");
}

#[test]
fn run_without_mods_succeeds_at_once() {
    let manager = ModsManager::new(&vec![], &vec![], false, false);
    assert_eq!(manager.len(), 0);
    match manager.install_mods() {
        Run::Finished(result) => assert_eq!(result, Ok(())),
        Run::Continue(_, _) => panic!("the run asked for an action"),
    }
}

#[test]
fn run_goes_on_after_a_failure_and_names_what_failed() {
    let mut disk = Disk::new().with_cached(1, None).with_cached(3, Some(vec!["c.bikey"]));
    let manager = ModsManager::new(
        &vec![entry(1, "One"), entry(2, "Two"), entry(3, "Three")],
        &vec![],
        true,
        false,
    );
    let (outcomes, result) = run_with_outcomes(&mut disk, &manager);
    assert_eq!(result, Err(AggregateInstallError { failed: vec!["Two".to_string()] }));
    assert_eq!(
        outcomes,
        vec![
            ModOutcome { name: "One".to_string(), result: Ok(()) },
            ModOutcome { name: "Two".to_string(), result: Err(InstallError::NotAvailableOffline(2)) },
            ModOutcome { name: "Three".to_string(), result: Ok(()) },
        ]
    );
    assert!(disk.aliases.contains("@One"));
    assert!(!disk.aliases.contains("@Two"));
    assert!(disk.aliases.contains("@Three"));
    assert_eq!(disk.keys.get("c.bikey"), Some(&3));
    assert_eq!(disk.count("ProbePackage"), 3);
}

#[test]
fn run_installs_individual_mods_before_those_of_the_collection() {
    let mut disk = Disk::new().with_remote(1, None).with_remote(2, None).with_remote(3, None);
    let manager = ModsManager::new(
        &vec![entry(1, "One"), entry(2, "Two")],
        &vec![entry(3, "Three")],
        false,
        true,
    );
    assert_eq!(manager.len(), 3);
    assert_eq!(run(&mut disk, &manager), Ok(()));
    let downloads: Vec<&String> = disk.log.iter().filter(|l| l.starts_with("Download")).collect();
    assert_eq!(
        downloads,
        vec![
            "Download { id: 1, validate: true }",
            "Download { id: 2, validate: true }",
            "Download { id: 3, validate: true }",
        ]
    );
}

#[test]
fn run_names_every_failure_in_order() {
    let mut disk = Disk::new().with_remote(2, None);
    let manager = ModsManager::new(
        &vec![entry(1, "One")],
        &vec![entry(2, "Two"), entry(3, "Three")],
        false,
        false,
    );
    let result = run(&mut disk, &manager);
    assert_eq!(
        result,
        Err(AggregateInstallError { failed: vec!["One".to_string(), "Three".to_string()] })
    );
    assert!(disk.aliases.contains("@Two"));
}

#[test]
fn single_mod_of_a_manager_is_started_by_index() {
    let manager = ModsManager::new(&vec![entry(1, "One")], &vec![entry(2, "Two")], true, false);
    match manager.install_single_mod(1) {
        Some((state, action)) => {
            assert_eq!(state.name(), "Two");
            assert_eq!(action, Action::ProbePackage { id: 2 });
        }
        None => panic!("the mod is there"),
    }
    assert!(manager.install_single_mod(2).is_none());
}

#[test]
fn aggregate_error_sums_up_the_failures() {
    let error = AggregateInstallError { failed: vec!["One".to_string(), "Three".to_string()] };
    assert_eq!(error.summary(), "Failed to install 2 mod(s): One, Three");
    assert_eq!(
        error.message(),
        "Some mods failed to install. Check SteamCMD output above for details."
    );
}

#[test]
fn shared_names_are_found() {
    let unique = ModsManager::new(&vec![entry(1, "A"), entry(2, "B")], &vec![entry(3, "C")], false, false);
    assert!(unique.has_unique_names());
    let shared = ModsManager::new(&vec![entry(1, "A"), entry(2, "B")], &vec![entry(3, "B")], false, false);
    assert!(!shared.has_unique_names());
    let twice = ModsManager::new(&vec![entry(1, "A"), entry(1, "A")], &vec![], false, false);
    assert!(!twice.has_unique_names());
    assert!(ModsManager::new(&vec![], &vec![], false, false).has_unique_names());
}

#[test]
fn outcome_of_a_mod_is_reported_in_one_line() {
    let good = ModOutcome { name: "One".to_string(), result: Ok(()) };
    assert_eq!(good.message(), "Successfully installed One");
    let bad = ModOutcome { name: "Two".to_string(), result: Err(InstallError::Integrity(2)) };
    assert_eq!(bad.message(), "Failed to install mod Two: Mod 2 not found in workshop directory");
}

#[test]
fn state_of_a_run_names_the_mod_that_is_installed() {
    let manager = ModsManager::new(&vec![entry(15, "One")], &vec![entry(2, "Two")], true, false);
    let mut disk = Disk::new().with_cached(15, None).with_cached(2, None);
    let mut names = Vec::new();
    let mut run = manager.install_mods();
    while let Run::Continue(state, action) = run {
        if names.last() != Some(state.name()) {
            names.push(state.name().clone());
            assert_eq!(
                state.attempt_line(),
                format!("Attempting to install {} ({})...", state.name(), state.id())
            );
        }
        let event = disk.perform(&action);
        run = manager.step(state, event).1;
    }
    assert_eq!(names, vec!["One", "Two"]);
}
