//! Installing one mod.
//!
//! Nothing here touches the disk or the network. An installation is a state
//! machine: it names the next `Action`, the caller carries it out and hands
//! back what happened as an `Event`, and the machine decides what follows.

use crate::layout::{alias_for, alias_name, key_file_names, key_files};
use crate::text::{decimal_digits, decimal_string};
use vstd::prelude::*;
use vstd::string::StringExecFns;

verus! {

/// Why the installation of one mod failed.
#[derive(Debug, PartialEq, Eq)]
pub enum InstallError {
    /// No network call may be made and the package is not in the cache.
    NotAvailableOffline(u64),
    /// The download tool failed; its message.
    Download(String),
    /// The download tool reported success, yet the package is not in the cache.
    Integrity(u64),
    /// The activation alias could not be created; the message.
    Link(String),
    /// The keys of the package could not be listed or mirrored; the message.
    Key(String),
}

/// An `InstallError` as a plain value.
pub enum InstallErrorView {
    NotAvailableOffline(u64),
    Download(Seq<char>),
    Integrity(u64),
    Link(Seq<char>),
    Key(Seq<char>),
}

impl View for InstallError {
    type V = InstallErrorView;

    open spec fn view(&self) -> InstallErrorView {
        match self {
            InstallError::NotAvailableOffline(id) => InstallErrorView::NotAvailableOffline(*id),
            InstallError::Download(m) => InstallErrorView::Download(m@),
            InstallError::Integrity(id) => InstallErrorView::Integrity(*id),
            InstallError::Link(m) => InstallErrorView::Link(m@),
            InstallError::Key(m) => InstallErrorView::Key(m@),
        }
    }
}

/// The text shown for an error of an installation.
pub open spec fn install_error_text(e: InstallErrorView) -> Seq<char> {
    match e {
        InstallErrorView::NotAvailableOffline(id) => "Mod "@ + decimal_digits(id as nat)
            + " not found locally. Run without --offline to download it first."@,
        InstallErrorView::Download(m) => m,
        InstallErrorView::Integrity(id) => "Mod "@ + decimal_digits(id as nat)
            + " not found in workshop directory"@,
        InstallErrorView::Link(m) => m,
        InstallErrorView::Key(m) => m,
    }
}

impl InstallError {
    /// The text shown for this error.
    pub fn message(&self) -> (r: String)
        ensures
            r@ == install_error_text(self@),
    {
        match self {
            InstallError::NotAvailableOffline(id) => {
                let mut out = String::from_str("Mod ");
                let number = decimal_string(*id);
                out.append(number.as_str());
                out.append(" not found locally. Run without --offline to download it first.");
                out
            },
            InstallError::Download(m) => m.clone(),
            InstallError::Integrity(id) => {
                let mut out = String::from_str("Mod ");
                let number = decimal_string(*id);
                out.append(number.as_str());
                out.append(" not found in workshop directory");
                out
            },
            InstallError::Link(m) => m.clone(),
            InstallError::Key(m) => m.clone(),
        }
    }
}

/// What the caller is asked to do next.
#[derive(Debug, PartialEq, Eq)]
pub enum Action {
    /// Find out whether the package is in the cache. Answer: `Present`.
    ProbePackage { id: u64 },
    /// Have the download tool fetch or update the package. Answer:
    /// `Completed` or `Failed`.
    Download { id: u64, validate: bool },
    /// Find out whether the alias exists in the server directory. Answer:
    /// `Present`.
    ProbeAlias { alias: String },
    /// Create the alias, pointing at the cached package. Answer: `Completed`
    /// or `Failed`.
    LinkAlias { alias: String, id: u64 },
    /// List the files of the package's keys directory. Answer: `Listing`, with
    /// nothing where the package has no such directory, or `Failed`.
    ListKeys { id: u64 },
    /// Find out whether the server's keys directory holds a file of this
    /// name. Answer: `Present`.
    ProbeKey { file: String },
    /// Mirror this key file of the package into the server's keys directory.
    /// Answer: `Completed` or `Failed`.
    LinkKey { file: String, id: u64 },
}

/// An `Action` as a plain value.
pub enum ActionView {
    ProbePackage { id: u64 },
    Download { id: u64, validate: bool },
    ProbeAlias { alias: Seq<char> },
    LinkAlias { alias: Seq<char>, id: u64 },
    ListKeys { id: u64 },
    ProbeKey { file: Seq<char> },
    LinkKey { file: Seq<char>, id: u64 },
}

impl View for Action {
    type V = ActionView;

    open spec fn view(&self) -> ActionView {
        match self {
            Action::ProbePackage { id } => ActionView::ProbePackage { id: *id },
            Action::Download { id, validate } => ActionView::Download {
                id: *id,
                validate: *validate,
            },
            Action::ProbeAlias { alias } => ActionView::ProbeAlias { alias: alias@ },
            Action::LinkAlias { alias, id } => ActionView::LinkAlias { alias: alias@, id: *id },
            Action::ListKeys { id } => ActionView::ListKeys { id: *id },
            Action::ProbeKey { file } => ActionView::ProbeKey { file: file@ },
            Action::LinkKey { file, id } => ActionView::LinkKey { file: file@, id: *id },
        }
    }
}

/// What happened when the caller carried out an action.
#[derive(Debug, PartialEq, Eq)]
pub enum Event {
    /// The answer to a probe.
    Present(bool),
    /// The action was carried out.
    Completed,
    /// The action failed; the message.
    Failed(String),
    /// The names found in a directory, or nothing where it does not exist.
    Listing(Option<Vec<String>>),
}

/// An `Event` as a plain value.
pub enum EventView {
    Present(bool),
    Completed,
    Failed(Seq<char>),
    Listing(Option<Seq<Seq<char>>>),
}

impl View for Event {
    type V = EventView;

    open spec fn view(&self) -> EventView {
        match self {
            Event::Present(b) => EventView::Present(*b),
            Event::Completed => EventView::Completed,
            Event::Failed(m) => EventView::Failed(m@),
            Event::Listing(l) => EventView::Listing(
                match l {
                    Some(names) => Some(names.deep_view()),
                    None => None,
                },
            ),
        }
    }
}

/// The message of an event that is no success: that of a failure, or a fixed
/// text for an event that does not answer the action.
pub open spec fn failure_text(e: EventView) -> Seq<char> {
    match e {
        EventView::Failed(m) => m,
        _ => "unexpected reply"@,
    }
}

fn failure_message(event: Event) -> (r: String)
    ensures
        r@ == failure_text(event@),
{
    match event {
        Event::Failed(m) => m,
        _ => String::from_str("unexpected reply"),
    }
}

fn affirmed(event: &Event) -> (r: bool)
    ensures
        r == (event@ == EventView::Present(true)),
{
    match event {
        Event::Present(b) => *b,
        _ => false,
    }
}

fn completed(event: &Event) -> (r: bool)
    ensures
        r == (event@ is Completed),
{
    match event {
        Event::Completed => true,
        _ => false,
    }
}

/// What an installation waits for.
#[derive(Debug, Clone, Copy, PartialEq, Eq, Structural)]
pub enum Phase {
    /// Whether the package is cached, no network call being allowed.
    Locating,
    /// The download tool.
    Downloading,
    /// Whether the package is cached after the download.
    Verifying,
    /// Whether the alias exists.
    ProbingAlias,
    /// The creation of the alias.
    LinkingAlias,
    /// The listing of the package's keys.
    ListingKeys,
    /// Whether the key under the cursor exists in the server's keys.
    ProbingKey,
    /// The mirroring of the key under the cursor.
    LinkingKey,
}

/// The installation of one mod, under way.
pub struct ModInstall {
    id: u64,
    name: String,
    offline: bool,
    validate: bool,
    phase: Phase,
    keys: Vec<String>,
    cursor: usize,
}

/// A `ModInstall` as a plain value: the mod, the mode of the run, what is
/// awaited, the key files of the package and how many of them are dealt with.
pub struct ModInstallView {
    pub id: u64,
    pub name: Seq<char>,
    pub offline: bool,
    pub validate: bool,
    pub phase: Phase,
    pub keys: Seq<Seq<char>>,
    pub cursor: nat,
}

impl View for ModInstall {
    type V = ModInstallView;

    closed spec fn view(&self) -> ModInstallView {
        ModInstallView {
            id: self.id,
            name: self.name@,
            offline: self.offline,
            validate: self.validate,
            phase: self.phase,
            keys: self.keys.deep_view(),
            cursor: self.cursor as nat,
        }
    }
}

/// How an installation goes on after an event.
pub enum Progress {
    /// It goes on: the new state and the next action.
    Continue(ModInstall, Action),
    /// It is over, with this result.
    Finished(Result<(), InstallError>),
}

/// A `Progress` as a plain value.
pub enum ProgressView {
    Continue(ModInstallView, ActionView),
    Finished(Result<(), InstallErrorView>),
}

impl View for Progress {
    type V = ProgressView;

    open spec fn view(&self) -> ProgressView {
        match self {
            Progress::Continue(m, a) => ProgressView::Continue(m@, a@),
            Progress::Finished(Ok(())) => ProgressView::Finished(Ok(())),
            Progress::Finished(Err(e)) => ProgressView::Finished(Err(e@)),
        }
    }
}

/// The state and the action an installation starts with. Without network
/// the cache is probed; with it the download tool runs first.
pub open spec fn first_step(id: u64, name: Seq<char>, offline: bool, validate: bool) -> (
    ModInstallView,
    ActionView,
) {
    let state = ModInstallView {
        id,
        name,
        offline,
        validate,
        phase: if offline {
            Phase::Locating
        } else {
            Phase::Downloading
        },
        keys: Seq::empty(),
        cursor: 0,
    };
    if offline {
        (state, ActionView::ProbePackage { id })
    } else {
        (state, ActionView::Download { id, validate })
    }
}

/// The package is there: ask whether the alias is.
pub open spec fn to_alias(s: ModInstallView) -> ProgressView {
    ProgressView::Continue(
        ModInstallView { phase: Phase::ProbingAlias, ..s },
        ActionView::ProbeAlias { alias: alias_name(s.name) },
    )
}

/// The alias is there: ask for the package's keys.
pub open spec fn to_keys(s: ModInstallView) -> ProgressView {
    ProgressView::Continue(
        ModInstallView { phase: Phase::ListingKeys, ..s },
        ActionView::ListKeys { id: s.id },
    )
}

/// Turn to the key at `cursor`, or finish where no key is left.
pub open spec fn to_key(s: ModInstallView, cursor: nat) -> ProgressView {
    if cursor < s.keys.len() {
        ProgressView::Continue(
            ModInstallView { phase: Phase::ProbingKey, cursor, ..s },
            ActionView::ProbeKey { file: s.keys[cursor as int] },
        )
    } else {
        ProgressView::Finished(Ok(()))
    }
}

/// The transition of one installation: from a state and the event that
/// answers its action to what follows.
///
/// A probe counts as answered with yes only by `Present(true)`, an action
/// as carried out only by `Completed`. A missing package ends the
/// installation, as does a failed download, alias or key. An alias or a key
/// that is already there is left as it is, and the installation goes on.
pub open spec fn next(s: ModInstallView, e: EventView) -> ProgressView {
    match s.phase {
        Phase::Locating => if e == EventView::Present(true) {
            to_alias(s)
        } else {
            ProgressView::Finished(Err(InstallErrorView::NotAvailableOffline(s.id)))
        },
        Phase::Downloading => if e is Completed {
            ProgressView::Continue(
                ModInstallView { phase: Phase::Verifying, ..s },
                ActionView::ProbePackage { id: s.id },
            )
        } else {
            ProgressView::Finished(Err(InstallErrorView::Download(failure_text(e))))
        },
        Phase::Verifying => if e == EventView::Present(true) {
            to_alias(s)
        } else {
            ProgressView::Finished(Err(InstallErrorView::Integrity(s.id)))
        },
        Phase::ProbingAlias => if e == EventView::Present(true) {
            to_keys(s)
        } else {
            ProgressView::Continue(
                ModInstallView { phase: Phase::LinkingAlias, ..s },
                ActionView::LinkAlias { alias: alias_name(s.name), id: s.id },
            )
        },
        Phase::LinkingAlias => if e is Completed {
            to_keys(s)
        } else {
            ProgressView::Finished(Err(InstallErrorView::Link(failure_text(e))))
        },
        Phase::ListingKeys => match e {
            EventView::Listing(None) => ProgressView::Finished(Ok(())),
            EventView::Listing(Some(names)) => to_key(
                ModInstallView { keys: key_file_names(names), ..s },
                0,
            ),
            _ => ProgressView::Finished(Err(InstallErrorView::Key(failure_text(e)))),
        },
        Phase::ProbingKey => if e == EventView::Present(true) {
            to_key(s, s.cursor + 1)
        } else if s.cursor < s.keys.len() {
            ProgressView::Continue(
                ModInstallView { phase: Phase::LinkingKey, ..s },
                ActionView::LinkKey { file: s.keys[s.cursor as int], id: s.id },
            )
        } else {
            ProgressView::Finished(Ok(()))
        },
        Phase::LinkingKey => if e is Completed {
            to_key(s, s.cursor + 1)
        } else {
            ProgressView::Finished(Err(InstallErrorView::Key(failure_text(e))))
        },
    }
}

impl ModInstall {
    /// Starts the installation of the mod `name` with the package `id`.
    pub fn begin(id: u64, name: String, offline: bool, validate: bool) -> (r: (ModInstall, Action))
        ensures
            (r.0@, r.1@) == first_step(id, name@, offline, validate),
    {
        let phase = if offline {
            Phase::Locating
        } else {
            Phase::Downloading
        };
        let state = ModInstall {
            id,
            name,
            offline,
            validate,
            phase,
            keys: Vec::new(),
            cursor: 0,
        };
        assert(state.keys.deep_view() =~= Seq::empty());
        if offline {
            (state, Action::ProbePackage { id })
        } else {
            (state, Action::Download { id, validate })
        }
    }

    /// The name of the mod that is being installed.
    pub fn name(&self) -> (r: &String)
        ensures
            r@ == self@.name,
    {
        &self.name
    }

    /// The package of the mod that is being installed.
    pub fn id(&self) -> (r: u64)
        ensures
            r == self@.id,
    {
        self.id
    }

    fn to_alias(self) -> (r: Progress)
        ensures
            r@ == to_alias(self@),
    {
        let alias = alias_for(self.name.as_str());
        let mut state = self;
        state.phase = Phase::ProbingAlias;
        Progress::Continue(state, Action::ProbeAlias { alias })
    }

    fn to_keys(self) -> (r: Progress)
        ensures
            r@ == to_keys(self@),
    {
        let id = self.id;
        let mut state = self;
        state.phase = Phase::ListingKeys;
        Progress::Continue(state, Action::ListKeys { id })
    }

    fn to_key(self, cursor: usize) -> (r: Progress)
        ensures
            r@ == to_key(self@, cursor as nat),
    {
        if cursor < self.keys.len() {
            let file = self.keys[cursor].clone();
            let mut state = self;
            state.phase = Phase::ProbingKey;
            state.cursor = cursor;
            Progress::Continue(state, Action::ProbeKey { file })
        } else {
            Progress::Finished(Ok(()))
        }
    }

    /// Takes the event that answers the pending action and says what follows.
    pub fn step(self, event: Event) -> (r: Progress)
        ensures
            r@ == next(self@, event@),
    {
        match self.phase {
            Phase::Locating => {
                if affirmed(&event) {
                    self.to_alias()
                } else {
                    Progress::Finished(Err(InstallError::NotAvailableOffline(self.id)))
                }
            },
            Phase::Downloading => {
                if completed(&event) {
                    let id = self.id;
                    let mut state = self;
                    state.phase = Phase::Verifying;
                    Progress::Continue(state, Action::ProbePackage { id })
                } else {
                    Progress::Finished(Err(InstallError::Download(failure_message(event))))
                }
            },
            Phase::Verifying => {
                if affirmed(&event) {
                    self.to_alias()
                } else {
                    Progress::Finished(Err(InstallError::Integrity(self.id)))
                }
            },
            Phase::ProbingAlias => {
                if affirmed(&event) {
                    self.to_keys()
                } else {
                    let alias = alias_for(self.name.as_str());
                    let id = self.id;
                    let mut state = self;
                    state.phase = Phase::LinkingAlias;
                    Progress::Continue(state, Action::LinkAlias { alias, id })
                }
            },
            Phase::LinkingAlias => {
                if completed(&event) {
                    self.to_keys()
                } else {
                    Progress::Finished(Err(InstallError::Link(failure_message(event))))
                }
            },
            Phase::ListingKeys => {
                match event {
                    Event::Listing(None) => Progress::Finished(Ok(())),
                    Event::Listing(Some(names)) => {
                        let keys = key_files(&names);
                        let mut state = self;
                        state.keys = keys;
                        state.to_key(0)
                    },
                    other => Progress::Finished(Err(InstallError::Key(failure_message(other)))),
                }
            },
            Phase::ProbingKey => {
                if affirmed(&event) {
                    if self.cursor < self.keys.len() {
                        let following = self.cursor + 1;
                        self.to_key(following)
                    } else {
                        Progress::Finished(Ok(()))
                    }
                } else if self.cursor < self.keys.len() {
                    let file = self.keys[self.cursor].clone();
                    let id = self.id;
                    let mut state = self;
                    state.phase = Phase::LinkingKey;
                    Progress::Continue(state, Action::LinkKey { file, id })
                } else {
                    Progress::Finished(Ok(()))
                }
            },
            Phase::LinkingKey => {
                if completed(&event) {
                    if self.cursor < self.keys.len() {
                        let following = self.cursor + 1;
                        self.to_key(following)
                    } else {
                        Progress::Finished(Ok(()))
                    }
                } else {
                    Progress::Finished(Err(InstallError::Key(failure_message(event))))
                }
            },
        }
    }
}

} // verus!
