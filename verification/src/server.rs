//! The run as a whole: which mods are wanted, what is cleared before they
//! are installed, and which arguments start the server with them.

use crate::cli::CliArgs;
use crate::collection_fetcher::FetchError;
use crate::config::mod_entry::{clone_entries, ModEntry, ModEntryView};
use crate::config::Config;
use crate::layout::{
    alias_for, alias_name, is_alias, is_alias_name, is_reserved_key, is_reserved_key_name,
    push_text, Location, LocationView,
};
use crate::mods::{mod_names, ModsManager, ModsManagerView};
use crate::steamcmd::{
    app_update_args, workshop_content_parts, workshop_download_args, SetupError, SteamCmdManager,
};
use crate::text::{
    blank, decimal_digits, is_blank, join, joined, lemma_split_joined, split_on,
};
use vstd::prelude::*;
use vstd::string::StringExecFns;

verus! {

/// The application identifier of the server.
pub const DAYZ_SERVER_APP_ID: u32 = 223350;

/// The application identifier of the game, under which its mods are cached.
pub const DAYZ_GAME_APP_ID: u32 = 221100;

/// Why a step of the run cannot be taken.
#[derive(Debug, Clone, Copy, PartialEq, Eq, Structural)]
pub enum ServerError {
    /// The download tool has not been set up.
    SteamCmdNotSetUp,
    /// No network call may be made and the server is not installed.
    ServerMissingOffline,
    /// The server's executable does not exist.
    ExecutableMissing,
    /// Two of the wanted mods share a name, and so an alias.
    DuplicateModName,
}

/// The text shown for an error of the run.
pub open spec fn server_error_text(e: ServerError) -> Seq<char> {
    match e {
        ServerError::SteamCmdNotSetUp => "SteamCMD has not been setup yet."@,
        ServerError::ServerMissingOffline =>
            "DayZServer_x64.exe not found locally. Run without --offline to install it first."@,
        ServerError::ExecutableMissing =>
            "DayZ server executable not found. Make sure the server has been downloaded/updated first."@,
        ServerError::DuplicateModName => "Two of the configured mods share a name."@,
    }
}

impl ServerError {
    /// The text shown for this error.
    pub fn message(&self) -> (r: String)
        ensures
            r@ == server_error_text(*self),
    {
        match self {
            ServerError::SteamCmdNotSetUp => String::from_str("SteamCMD has not been setup yet."),
            ServerError::ServerMissingOffline => String::from_str(
                "DayZServer_x64.exe not found locally. Run without --offline to install it first.",
            ),
            ServerError::ExecutableMissing => String::from_str(
                "DayZ server executable not found. Make sure the server has been downloaded/updated first.",
            ),
            ServerError::DuplicateModName => String::from_str(
                "Two of the configured mods share a name.",
            ),
        }
    }
}

/// What is to be removed before the mods are installed.
#[derive(Debug, PartialEq, Eq)]
pub struct ClearPlan {
    /// The entries of the server directory to remove.
    pub aliases: Vec<String>,
    /// The files of the keys directory to remove.
    pub keys: Vec<String>,
}

/// The run: its switches, its configuration, the server directory, the
/// download tool once it is set up, and the mods of the collection once they
/// are resolved.
pub struct ServerManager {
    args: CliArgs,
    config: Config,
    server_install_dir: String,
    steamcmd_manager: Option<SteamCmdManager>,
    collection_mod_list: Option<Vec<ModEntry>>,
}

/// A `ServerManager` as a plain value.
pub struct ServerManagerView {
    pub args: CliArgs,
    pub steamcmd_dir: Seq<char>,
    pub username: Seq<char>,
    /// The mods configured one by one, where the configuration lists any.
    pub individual: Option<Seq<ModEntryView>>,
    /// The address of the collection, where the configuration gives one.
    pub collection_url: Option<Seq<char>>,
    pub install_dir: Seq<char>,
    /// The directory of the download tool, once it is set up.
    pub steamcmd: Option<Seq<char>>,
    /// The mods of the collection, once they are resolved.
    pub collection: Option<Seq<ModEntryView>>,
}

impl ServerManagerView {
    /// The mods configured one by one; none where the configuration lists
    /// none.
    pub open spec fn individual_mods(self) -> Seq<ModEntryView> {
        match self.individual {
            Some(list) => list,
            None => Seq::empty(),
        }
    }

    /// The mods of the collection; none until they are resolved.
    pub open spec fn collection_mods(self) -> Seq<ModEntryView> {
        match self.collection {
            Some(list) => list,
            None => Seq::empty(),
        }
    }

    /// The wanted mods: those configured one by one, followed by those of
    /// the collection.
    pub open spec fn wanted_mods(self) -> Seq<ModEntryView> {
        self.individual_mods() + self.collection_mods()
    }

    /// Whether the configuration gives the address of a collection: one that
    /// is not blank.
    pub open spec fn has_collection_url(self) -> bool {
        self.collection_url matches Some(url) && !is_blank(url)
    }

    /// Whether the collection has to be fetched: it is not resolved yet and
    /// the configuration gives its address.
    pub open spec fn wants_fetch(self) -> bool {
        self.collection is None && self.has_collection_url()
    }

    /// The switch handed to the download tool for the files of the server:
    /// set where `skip_validation` or `skip_server_validation` is.
    pub open spec fn validate_server(self) -> bool {
        self.args.skip_validation || self.args.skip_server_validation
    }

    /// The switch handed to the download tool for the files of the mods: set
    /// where `skip_validation` or `skip_mod_validation` is.
    pub open spec fn validate_mods(self) -> bool {
        self.args.skip_validation || self.args.skip_mod_validation
    }
}

impl View for ServerManager {
    type V = ServerManagerView;

    closed spec fn view(&self) -> ServerManagerView {
        ServerManagerView {
            args: self.args,
            steamcmd_dir: self.config.server.steamcmd_dir@,
            username: self.config.server.username@,
            individual: self.config.mod_list(),
            collection_url: self.config.collection_url(),
            install_dir: self.server_install_dir@,
            steamcmd: match self.steamcmd_manager {
                Some(manager) => Some(manager@),
                None => None,
            },
            collection: match self.collection_mod_list {
                Some(list) => Some(list.deep_view()),
                None => None,
            },
        }
    }
}

/// The mods that a fetch brought; nothing where it failed or was not made.
pub open spec fn fetched_list(fetched: Option<Result<Vec<ModEntry>, FetchError>>) -> Option<
    Seq<ModEntryView>,
> {
    match fetched {
        Some(Ok(list)) => Some(list.deep_view()),
        _ => None,
    }
}

/// The mods of the collection after a fetch. What was resolved before
/// stays. Else, where the configuration gives an address and the fetch
/// brought mods, they are the collection's; in every other case it is empty.
pub open spec fn resolved(v: ServerManagerView, fetched: Option<Seq<ModEntryView>>) -> Seq<
    ModEntryView,
> {
    match v.collection {
        Some(list) => list,
        None => match fetched {
            Some(list) => if v.has_collection_url() {
                list
            } else {
                Seq::empty()
            },
            None => Seq::empty(),
        },
    }
}

/// What has to be done for the server itself. Without the download tool
/// nothing can be done. Without network the server must be installed, and
/// nothing is run. With network the download tool is run with the arguments
/// given.
pub open spec fn server_update(v: ServerManagerView, server_exe_exists: bool) -> Result<
    Option<Seq<Seq<char>>>,
    ServerError,
> {
    if v.steamcmd is None {
        Err(ServerError::SteamCmdNotSetUp)
    } else if v.args.offline {
        if server_exe_exists {
            Ok(None)
        } else {
            Err(ServerError::ServerMissingOffline)
        }
    } else {
        Ok(
            Some(
                app_update_args(v.install_dir, v.username, DAYZ_SERVER_APP_ID, v.validate_server()),
            ),
        )
    }
}

/// What has to be installed. Where no mod is wanted there is nothing to
/// install, and that is success. Else the download tool must be set up and
/// no two mods may share a name; then the wanted mods are installed, in
/// the mode of the run.
pub open spec fn mods_to_install(v: ServerManagerView) -> Result<
    Option<ModsManagerView>,
    ServerError,
> {
    if v.wanted_mods().len() == 0 {
        Ok(None)
    } else if v.steamcmd is None {
        Err(ServerError::SteamCmdNotSetUp)
    } else if !mod_names(v.wanted_mods()).no_duplicates() {
        Err(ServerError::DuplicateModName)
    } else {
        Ok(
            Some(
                ModsManagerView {
                    mods: v.wanted_mods(),
                    offline: v.args.offline,
                    validate: v.validate_mods(),
                },
            ),
        )
    }
}

/// The alias of each mod, in the order of the mods.
pub open spec fn alias_names(mods: Seq<ModEntryView>) -> Seq<Seq<char>> {
    mods.map_values(|m: ModEntryView| alias_name(m.name))
}

/// The value of a launch flag for these mods: their aliases with `;`
/// between them, or no flag at all where there is no mod.
pub open spec fn mods_flag(mods: Seq<ModEntryView>) -> Option<Seq<char>> {
    if mods.len() == 0 {
        None
    } else {
        Some(joined(alias_names(mods), seq![';']))
    }
}

/// The argument that a launch flag adds: its name and its value, or nothing
/// where it has no value.
pub open spec fn flag_argument(name: Seq<char>, value: Option<Seq<char>>) -> Seq<Seq<char>> {
    match value {
        Some(v) => seq![name + v],
        None => Seq::empty(),
    }
}

/// The arguments that start the server: its configuration, its profiles,
/// the mods of the collection, and the mods configured one by one.
pub open spec fn launch_arguments(v: ServerManagerView) -> Seq<Seq<char>> {
    seq!["-config=serverDZ.cfg"@, "-profiles=profiles"@] + flag_argument(
        "-mod="@,
        mods_flag(v.collection_mods()),
    ) + flag_argument("-serverMod="@, mods_flag(v.individual_mods()))
}

/// The entries of the server directory that are aliases, in their order.
pub open spec fn stale_aliases(listing: Seq<Seq<char>>) -> Seq<Seq<char>> {
    listing.filter(|n: Seq<char>| is_alias_name(n))
}

/// The files of the keys directory that are not the reserved key, in their
/// order.
pub open spec fn stale_keys(listing: Seq<Seq<char>>) -> Seq<Seq<char>> {
    listing.filter(|n: Seq<char>| !is_reserved_key_name(n))
}

/// The names of a listing, or none where there is no listing.
pub open spec fn listed(listing: Option<Vec<String>>) -> Seq<Seq<char>> {
    match listing {
        Some(names) => names.deep_view(),
        None => Seq::empty(),
    }
}

/// The value of a launch flag for these mods.
pub fn mods_string(mods: &Vec<ModEntry>) -> (r: Option<String>)
    ensures
        match r {
            Some(flag) => mods_flag(mods.deep_view()) == Some(flag@),
            None => mods_flag(mods.deep_view()) is None,
        },
{
    if mods.len() == 0 {
        return None;
    }
    let ghost all = alias_names(mods.deep_view());
    let mut aliases: Vec<String> = Vec::new();
    let mut i: usize = 0;
    while i < mods.len()
        invariant
            i <= mods.len(),
            all == alias_names(mods.deep_view()),
            aliases.deep_view() == all.take(i as int),
        decreases mods.len() - i,
    {
        let ghost before = aliases.deep_view();
        let alias = alias_for(mods[i].name.as_str());
        aliases.push(alias);
        assert(aliases.deep_view() =~= before.push(all[i as int]));
        assert(all.take(i + 1) =~= before.push(all[i as int]));
        i += 1;
    }
    assert(all.take(mods.len() as int) =~= all);
    proof {
        reveal_strlit(";");
        assert(";"@ =~= seq![';']);
    }
    Some(join(&aliases, ";"))
}

impl ServerManager {
    /// A run with these switches and this configuration, for the server in
    /// `server_install_dir`. The download tool is not set up and the
    /// collection is not resolved.
    pub fn new(args: CliArgs, config: Config, server_install_dir: &str) -> (r: ServerManager)
        ensures
            r@ == (ServerManagerView {
                args,
                steamcmd_dir: config.server.steamcmd_dir@,
                username: config.server.username@,
                individual: config.mod_list(),
                collection_url: config.collection_url(),
                install_dir: server_install_dir@,
                steamcmd: None,
                collection: None,
            }),
    {
        ServerManager {
            args,
            config,
            server_install_dir: server_install_dir.to_owned(),
            steamcmd_manager: None,
            collection_mod_list: None,
        }
    }

    /// The switches of the run.
    pub fn args(&self) -> (r: CliArgs)
        ensures
            r == self@.args,
    {
        self.args
    }

    /// The download tool for the directory that the configuration names.
    pub fn steamcmd(&self) -> (r: SteamCmdManager)
        ensures
            r@ == self@.steamcmd_dir,
    {
        SteamCmdManager::new(self.config.server.steamcmd_dir.as_str())
    }

    /// Takes the download tool where it is ready, and hands on the error
    /// where it is not.
    pub fn setup_steamcmd(&mut self, ready: Result<SteamCmdManager, SetupError>) -> (r: Result<
        (),
        SetupError,
    >)
        ensures
            match ready {
                Ok(manager) => r is Ok && final(self)@ == (ServerManagerView {
                    steamcmd: Some(manager@),
                    ..old(self)@
                }),
                Err(e) => r == Err::<(), SetupError>(e) && final(self)@ == old(self)@,
            },
    {
        match ready {
            Ok(manager) => {
                self.steamcmd_manager = Some(manager);
                Ok(())
            },
            Err(e) => Err(e),
        }
    }

    /// Where the server's keys lie.
    pub fn get_server_keys_path(&self) -> (r: Location)
        ensures
            r@ == (LocationView { base: self@.install_dir, parts: seq!["keys"@] }),
    {
        let r = Location::new(self.server_install_dir.as_str()).join("keys");
        assert(r@.parts =~= seq!["keys"@]);
        r
    }

    /// Where the server's executable lies.
    pub fn get_server_exe_path(&self) -> (r: Location)
        ensures
            r@ == (LocationView { base: self@.install_dir, parts: seq!["DayZServer_x64.exe"@] }),
    {
        let r = Location::new(self.server_install_dir.as_str()).join("DayZServer_x64.exe");
        assert(r@.parts =~= seq!["DayZServer_x64.exe"@]);
        r
    }

    /// Where the package of a mod is cached, once the download tool is set
    /// up.
    pub fn mod_source_path(&self, workshop_id: u64) -> (r: Option<Location>)
        ensures
            match r {
                Some(place) => self@.steamcmd matches Some(dir) && place@ == (LocationView {
                    base: dir,
                    parts: workshop_content_parts(DAYZ_GAME_APP_ID).push(
                        decimal_digits(workshop_id as nat),
                    ),
                }),
                None => self@.steamcmd is None,
            },
    {
        match &self.steamcmd_manager {
            Some(manager) => Some(manager.get_workshop_mod_dir(DAYZ_GAME_APP_ID, workshop_id)),
            None => None,
        }
    }

    /// The arguments with which the download tool fetches the package of a
    /// mod, once the tool is set up.
    pub fn mod_download_args(&self, workshop_id: u64, validate: bool) -> (r: Option<Vec<String>>)
        ensures
            match r {
                Some(arguments) => self@.steamcmd is Some && arguments.deep_view()
                    == workshop_download_args(
                    self@.username,
                    DAYZ_GAME_APP_ID,
                    workshop_id,
                    validate,
                ),
                None => self@.steamcmd is None,
            },
    {
        match &self.steamcmd_manager {
            Some(manager) => Some(
                manager.download_or_update_mod(
                    self.config.server.username.as_str(),
                    DAYZ_GAME_APP_ID,
                    workshop_id,
                    validate,
                ),
            ),
            None => None,
        }
    }

    /// What has to be done for the server itself: nothing, or a run of the
    /// download tool with the arguments given.
    pub fn install_or_update_server(&self, server_exe_exists: bool) -> (r: Result<
        Option<Vec<String>>,
        ServerError,
    >)
        ensures
            match r {
                Ok(None) => server_update(self@, server_exe_exists) == Ok::<
                    Option<Seq<Seq<char>>>,
                    ServerError,
                >(None),
                Ok(Some(arguments)) => server_update(self@, server_exe_exists) == Ok::<
                    Option<Seq<Seq<char>>>,
                    ServerError,
                >(Some(arguments.deep_view())),
                Err(e) => server_update(self@, server_exe_exists) == Err::<
                    Option<Seq<Seq<char>>>,
                    ServerError,
                >(e),
            },
    {
        match &self.steamcmd_manager {
            None => Err(ServerError::SteamCmdNotSetUp),
            Some(manager) => {
                if self.args.offline {
                    if server_exe_exists {
                        Ok(None)
                    } else {
                        Err(ServerError::ServerMissingOffline)
                    }
                } else {
                    Ok(
                        Some(
                            manager.install_or_update_app(
                                self.server_install_dir.as_str(),
                                self.config.server.username.as_str(),
                                DAYZ_SERVER_APP_ID,
                                self.args.skip_validation || self.args.skip_server_validation,
                            ),
                        ),
                    )
                }
            },
        }
    }

    /// The entries of the server directory to remove: every alias.
    pub fn cleanup_mod_directories(listing: &Vec<String>) -> (r: Vec<String>)
        ensures
            r.deep_view() == stale_aliases(listing.deep_view()),
    {
        let ghost pred = |n: Seq<char>| is_alias_name(n);
        let mut out: Vec<String> = Vec::new();
        let mut i: usize = 0;
        assert(out.deep_view() =~= listing.deep_view().take(0).filter(pred));
        while i < listing.len()
            invariant
                i <= listing.len(),
                pred == |n: Seq<char>| is_alias_name(n),
                out.deep_view() == listing.deep_view().take(i as int).filter(pred),
            decreases listing.len() - i,
        {
            let ghost before = listing.deep_view().take(i as int);
            let ghost item = listing@[i as int]@;
            proof {
                assert(listing.deep_view().take(i + 1) =~= before.push(item));
                before.lemma_filter_push(item, pred);
            }
            if is_alias(listing[i].as_str()) {
                push_text(&mut out, listing[i].as_str());
            }
            i += 1;
        }
        assert(listing.deep_view().take(listing.len() as int) =~= listing.deep_view());
        out
    }

    /// The files of the keys directory to remove: every one but the
    /// reserved key.
    pub fn cleanup_keys_directory(listing: &Vec<String>) -> (r: Vec<String>)
        ensures
            r.deep_view() == stale_keys(listing.deep_view()),
    {
        let ghost pred = |n: Seq<char>| !is_reserved_key_name(n);
        let mut out: Vec<String> = Vec::new();
        let mut i: usize = 0;
        assert(out.deep_view() =~= listing.deep_view().take(0).filter(pred));
        while i < listing.len()
            invariant
                i <= listing.len(),
                pred == |n: Seq<char>| !is_reserved_key_name(n),
                out.deep_view() == listing.deep_view().take(i as int).filter(pred),
            decreases listing.len() - i,
        {
            let ghost before = listing.deep_view().take(i as int);
            let ghost item = listing@[i as int]@;
            proof {
                assert(listing.deep_view().take(i + 1) =~= before.push(item));
                before.lemma_filter_push(item, pred);
            }
            if !is_reserved_key(listing[i].as_str()) {
                push_text(&mut out, listing[i].as_str());
            }
            i += 1;
        }
        assert(listing.deep_view().take(listing.len() as int) =~= listing.deep_view());
        out
    }

    /// What is removed before the mods are installed, from the names found
    /// in the server directory and in its keys directory: every alias and
    /// every key but the reserved one. A directory that could not be listed
    /// gives nothing to remove. The wanted mods play no part.
    pub fn uninstall_prev_mod_installations(
        &self,
        install_listing: Option<Vec<String>>,
        keys_listing: Option<Vec<String>>,
    ) -> (r: ClearPlan)
        ensures
            r.aliases.deep_view() == stale_aliases(listed(install_listing)),
            r.keys.deep_view() == stale_keys(listed(keys_listing)),
    {
        let aliases = match &install_listing {
            Some(names) => Self::cleanup_mod_directories(names),
            None => {
                let none: Vec<String> = Vec::new();
                assert(none.deep_view() =~= stale_aliases(Seq::empty()));
                none
            },
        };
        let keys = match &keys_listing {
            Some(names) => Self::cleanup_keys_directory(names),
            None => {
                let none: Vec<String> = Vec::new();
                assert(none.deep_view() =~= stale_keys(Seq::empty()));
                none
            },
        };
        ClearPlan { aliases, keys }
    }

    /// The mods configured one by one, in the order of the configuration.
    pub fn get_individual_mods(&self) -> (r: Vec<ModEntry>)
        ensures
            r.deep_view() == self@.individual_mods(),
    {
        match &self.config.mods.server_mod_list {
            Some(list) => {
                let r = clone_entries(list);
                assert(r.deep_view() =~= list.deep_view());
                r
            },
            None => {
                let r: Vec<ModEntry> = Vec::new();
                assert(r.deep_view() =~= Seq::empty());
                r
            },
        }
    }

    /// The mods of the collection, in the order of its page; none until the
    /// collection is resolved.
    pub fn get_collection_mods(&self) -> (r: Vec<ModEntry>)
        ensures
            r.deep_view() == self@.collection_mods(),
    {
        match &self.collection_mod_list {
            Some(list) => {
                let r = clone_entries(list);
                assert(r.deep_view() =~= list.deep_view());
                r
            },
            None => {
                let r: Vec<ModEntry> = Vec::new();
                assert(r.deep_view() =~= Seq::empty());
                r
            },
        }
    }

    /// The address to fetch the collection from, where it has to be
    /// fetched: it is not resolved yet, and the configuration gives an
    /// address that is not blank.
    pub fn collection_request(&self) -> (r: Option<String>)
        ensures
            match r {
                Some(url) => self@.wants_fetch() && self@.collection_url == Some(url@),
                None => !self@.wants_fetch(),
            },
    {
        if self.collection_mod_list.is_some() {
            return None;
        }
        match &self.config.mods.mod_collection_url {
            Some(url) => {
                if blank(url.as_str()) {
                    None
                } else {
                    Some(url.clone())
                }
            },
            None => None,
        }
    }

    /// Resolves the mods of the collection from what a fetch brought, once:
    /// what was resolved before stays, whatever is handed in. A fetch that
    /// failed resolves to no mods and is no error of the run; its error is
    /// handed back to be reported.
    pub fn resolve_collection_mods(
        &mut self,
        fetched: Option<Result<Vec<ModEntry>, FetchError>>,
    ) -> (warning: Option<FetchError>)
        ensures
            final(self)@ == (ServerManagerView {
                collection: Some(resolved(old(self)@, fetched_list(fetched))),
                ..old(self)@
            }),
            match warning {
                Some(e) => old(self)@.wants_fetch() && fetched == Some(
                    Err::<Vec<ModEntry>, FetchError>(e),
                ),
                None => !(old(self)@.wants_fetch() && fetched matches Some(Err(_))),
            },
    {
        if self.collection_mod_list.is_some() {
            return None;
        }
        let usable = match &self.config.mods.mod_collection_url {
            Some(url) => !blank(url.as_str()),
            None => false,
        };
        match fetched {
            Some(Ok(list)) => {
                if usable {
                    self.collection_mod_list = Some(list);
                } else {
                    let none: Vec<ModEntry> = Vec::new();
                    assert(none.deep_view() =~= Seq::empty());
                    self.collection_mod_list = Some(none);
                }
                None
            },
            Some(Err(e)) => {
                let none: Vec<ModEntry> = Vec::new();
                assert(none.deep_view() =~= Seq::empty());
                self.collection_mod_list = Some(none);
                if usable {
                    Some(e)
                } else {
                    None
                }
            },
            None => {
                let none: Vec<ModEntry> = Vec::new();
                assert(none.deep_view() =~= Seq::empty());
                self.collection_mod_list = Some(none);
                None
            },
        }
    }

    /// Prepares the installation of the wanted mods: nothing where no mod is
    /// wanted, else the manager of the run, for the mods configured one by
    /// one followed by those of the collection.
    pub fn install_or_update_mods(&self) -> (r: Result<Option<ModsManager>, ServerError>)
        ensures
            match r {
                Ok(None) => mods_to_install(self@) == Ok::<Option<ModsManagerView>, ServerError>(
                    None,
                ),
                Ok(Some(manager)) => mods_to_install(self@) == Ok::<
                    Option<ModsManagerView>,
                    ServerError,
                >(Some(manager@)),
                Err(e) => mods_to_install(self@) == Err::<Option<ModsManagerView>, ServerError>(e),
            },
    {
        let individual = self.get_individual_mods();
        let collection = self.get_collection_mods();
        if individual.len() == 0 && collection.len() == 0 {
            return Ok(None);
        }
        if self.steamcmd_manager.is_none() {
            return Err(ServerError::SteamCmdNotSetUp);
        }
        let manager = ModsManager::new(
            &individual,
            &collection,
            self.args.offline,
            self.args.skip_validation || self.args.skip_mod_validation,
        );
        if !manager.has_unique_names() {
            return Err(ServerError::DuplicateModName);
        }
        Ok(Some(manager))
    }

    /// The value of the launch flag for the mods of the collection.
    pub fn build_mods_string(&self) -> (r: Option<String>)
        ensures
            match r {
                Some(flag) => mods_flag(self@.collection_mods()) == Some(flag@),
                None => mods_flag(self@.collection_mods()) is None,
            },
    {
        let mods = self.get_collection_mods();
        mods_string(&mods)
    }

    /// The value of the launch flag for the mods configured one by one.
    pub fn build_server_mods_string(&self) -> (r: Option<String>)
        ensures
            match r {
                Some(flag) => mods_flag(self@.individual_mods()) == Some(flag@),
                None => mods_flag(self@.individual_mods()) is None,
            },
    {
        let mods = self.get_individual_mods();
        mods_string(&mods)
    }

    /// The arguments that start the server, which must be installed.
    pub fn run_server(&self, server_exe_exists: bool) -> (r: Result<Vec<String>, ServerError>)
        ensures
            match r {
                Ok(arguments) => server_exe_exists && arguments.deep_view() == launch_arguments(
                    self@,
                ),
                Err(e) => !server_exe_exists && e == ServerError::ExecutableMissing,
            },
    {
        if !server_exe_exists {
            return Err(ServerError::ExecutableMissing);
        }
        let mut arguments: Vec<String> = Vec::new();
        assert(arguments.deep_view() =~= Seq::empty());
        push_text(&mut arguments, "-config=serverDZ.cfg");
        push_text(&mut arguments, "-profiles=profiles");
        if let Some(mods) = self.build_mods_string() {
            let mut flag = String::from_str("-mod=");
            flag.append(mods.as_str());
            push_text(&mut arguments, flag.as_str());
        }
        if let Some(mods) = self.build_server_mods_string() {
            let mut flag = String::from_str("-serverMod=");
            flag.append(mods.as_str());
            push_text(&mut arguments, flag.as_str());
        }
        assert(arguments.deep_view() =~= launch_arguments(self@));
        Ok(arguments)
    }
}

/// The value of a launch flag holds one token for each mod, in the order of
/// the mods, each the mod's name behind `@`; and there is no flag where
/// there is no mod. The tokens are what `;` divides the value into, for
/// mods whose names hold no `;`.
pub proof fn lemma_flag_tokens(mods: Seq<ModEntryView>)
    requires
        forall|i: int| 0 <= i < mods.len() ==> !(#[trigger] mods[i]).name.contains(';'),
    ensures
        mods.len() == 0 <==> mods_flag(mods) is None,
        mods.len() > 0 ==> split_on(mods_flag(mods)->0, ';') == alias_names(mods),
        alias_names(mods).len() == mods.len(),
        forall|i: int|
            0 <= i < mods.len() ==> #[trigger] alias_names(mods)[i] == seq!['@'] + mods[i].name,
{
    let tokens = alias_names(mods);
    if mods.len() > 0 {
        assert forall|i: int| 0 <= i < tokens.len() implies !(#[trigger] tokens[i]).contains(
            ';',
        ) by {
            let token = tokens[i];
            if token.contains(';') {
                let k = choose|k: int| 0 <= k < token.len() && token[k] == ';';
                assert(token == seq!['@'] + mods[i].name);
                assert(k > 0);
                assert(mods[i].name[k - 1] == ';');
            }
        }
        lemma_split_joined(tokens, ';');
    }
}

/// A fetch that failed leaves the collection empty, whatever the cause,
/// unless it was resolved before; and so does a fetch that was not made.
pub proof fn lemma_failed_fetch_resolves_to_nothing(v: ServerManagerView, e: FetchError)
    requires
        v.collection is None,
    ensures
        resolved(v, fetched_list(Some(Err(e)))) == Seq::<ModEntryView>::empty(),
        resolved(v, fetched_list(None)) == Seq::<ModEntryView>::empty(),
{
}

/// Clearing removes every alias and every key but the reserved one, and
/// nothing else: an entry of the server directory is removed exactly when
/// it is an alias, a file of the keys directory exactly when it is not the
/// reserved key.
pub proof fn lemma_clear_is_exact(install: Seq<Seq<char>>, keys: Seq<Seq<char>>, name: Seq<char>)
    ensures
        stale_aliases(install).contains(name) <==> install.contains(name) && is_alias_name(name),
        stale_keys(keys).contains(name) <==> keys.contains(name) && !is_reserved_key_name(name),
{
    let alias = |n: Seq<char>| is_alias_name(n);
    let stale = |n: Seq<char>| !is_reserved_key_name(n);
    if stale_aliases(install).contains(name) {
        install.lemma_filter_contains_rev(alias, name);
        let i = choose|i: int| 0 <= i < install.filter(alias).len() && install.filter(alias)[i] == name;
        install.lemma_filter_pred(alias, i);
    }
    if install.contains(name) && is_alias_name(name) {
        let i = choose|i: int| 0 <= i < install.len() && install[i] == name;
        install.lemma_filter_contains(alias, i);
    }
    if stale_keys(keys).contains(name) {
        keys.lemma_filter_contains_rev(stale, name);
        let i = choose|i: int| 0 <= i < keys.filter(stale).len() && keys.filter(stale)[i] == name;
        keys.lemma_filter_pred(stale, i);
    }
    if keys.contains(name) && !is_reserved_key_name(name) {
        let i = choose|i: int| 0 <= i < keys.len() && keys[i] == name;
        keys.lemma_filter_contains(stale, i);
    }
}

} // verus!
