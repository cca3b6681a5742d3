//! Installing all the wanted mods, one after the other.
//!
//! `ModsManager` holds the wanted mods, first those configured one by one,
//! then those of the collection. A run installs each of them in that order,
//! whatever became of the ones before, and ends with the names of those that
//! failed.

use crate::config::mod_entry::{ModEntry, ModEntryView};
use crate::install::{
    first_step, install_error_text, next, Action, ActionView, Event, EventView, InstallError,
    InstallErrorView, ModInstall, ModInstallView, Progress, ProgressView,
};
use crate::text::{decimal_digits, decimal_string, join, joined};
use vstd::prelude::*;
use vstd::string::StringExecFns;

verus! {

/// The mods that could not be installed, in the order in which they were
/// tried. As the result of a run it is never empty.
#[derive(Debug, PartialEq, Eq)]
pub struct AggregateInstallError {
    pub failed: Vec<String>,
}

/// The line that sums up the failures of a run: how many mods failed, and
/// their names.
pub open spec fn failure_summary(failed: Seq<Seq<char>>) -> Seq<char> {
    "Failed to install "@ + decimal_digits(failed.len()) + " mod(s): "@ + joined(failed, ", "@)
}

impl AggregateInstallError {
    /// The text shown for this error.
    pub fn message(&self) -> (r: String)
        ensures
            r@ == "Some mods failed to install. Check SteamCMD output above for details."@,
    {
        String::from_str("Some mods failed to install. Check SteamCMD output above for details.")
    }

    /// The line that sums up the failures.
    pub fn summary(&self) -> (r: String)
        ensures
            r@ == failure_summary(self.failed.deep_view()),
    {
        let mut out = String::from_str("Failed to install ");
        let count = decimal_string(self.failed.len() as u64);
        out.append(count.as_str());
        out.append(" mod(s): ");
        let names = join(&self.failed, ", ");
        out.append(names.as_str());
        out
    }
}

/// What became of one mod: its name and the result of its installation.
#[derive(Debug, PartialEq, Eq)]
pub struct ModOutcome {
    pub name: String,
    pub result: Result<(), InstallError>,
}

/// A `ModOutcome` as a plain value.
pub type ModOutcomeView = (Seq<char>, Result<(), InstallErrorView>);

impl View for ModOutcome {
    type V = ModOutcomeView;

    open spec fn view(&self) -> ModOutcomeView {
        (
            self.name@,
            match self.result {
                Ok(()) => Ok(()),
                Err(e) => Err(e@),
            },
        )
    }
}

/// The line that reports what became of one mod.
pub open spec fn outcome_text(outcome: ModOutcomeView) -> Seq<char> {
    match outcome.1 {
        Ok(()) => "Successfully installed "@ + outcome.0,
        Err(e) => "Failed to install mod "@ + outcome.0 + ": "@ + install_error_text(e),
    }
}

/// The line that announces the installation of a mod.
pub open spec fn attempt_text(name: Seq<char>, id: u64) -> Seq<char> {
    "Attempting to install "@ + name + " ("@ + decimal_digits(id as nat) + ")..."@
}

impl ModOutcome {
    /// The line that reports this outcome.
    pub fn message(&self) -> (r: String)
        ensures
            r@ == outcome_text(self@),
    {
        match &self.result {
            Ok(()) => {
                let mut out = String::from_str("Successfully installed ");
                out.append(self.name.as_str());
                out
            },
            Err(e) => {
                let mut out = String::from_str("Failed to install mod ");
                out.append(self.name.as_str());
                out.append(": ");
                let text = e.message();
                out.append(text.as_str());
                out
            },
        }
    }
}

/// The wanted mods and the mode of the run.
pub struct ModsManager {
    mods: Vec<ModEntry>,
    offline: bool,
    validate: bool,
}

/// A `ModsManager` as a plain value.
pub struct ModsManagerView {
    pub mods: Seq<ModEntryView>,
    pub offline: bool,
    pub validate: bool,
}

impl View for ModsManager {
    type V = ModsManagerView;

    closed spec fn view(&self) -> ModsManagerView {
        ModsManagerView {
            mods: self.mods.deep_view(),
            offline: self.offline,
            validate: self.validate,
        }
    }
}

/// A run under way: which mod is being installed, how far its installation
/// is, and which mods have failed so far.
pub struct InstallState {
    position: usize,
    current: ModInstall,
    failed: Vec<String>,
    outcomes: Ghost<Seq<bool>>,
}

/// An `InstallState` as a plain value. `outcomes` holds, for each mod that
/// has been dealt with, whether its installation succeeded.
pub struct InstallStateView {
    pub position: nat,
    pub current: ModInstallView,
    pub failed: Seq<Seq<char>>,
    pub outcomes: Seq<bool>,
}

impl View for InstallState {
    type V = InstallStateView;

    closed spec fn view(&self) -> InstallStateView {
        InstallStateView {
            position: self.position as nat,
            current: self.current@,
            failed: self.failed.deep_view(),
            outcomes: self.outcomes@,
        }
    }
}

/// How a run goes on after an event.
pub enum Run {
    /// It goes on: the new state and the next action.
    Continue(InstallState, Action),
    /// Every mod has been tried: success, or the mods that failed.
    Finished(Result<(), AggregateInstallError>),
}

/// A `Run` as a plain value; the error is the list of the failed mods.
pub enum RunView {
    Continue(InstallStateView, ActionView),
    Finished(Result<(), Seq<Seq<char>>>),
}

impl View for Run {
    type V = RunView;

    open spec fn view(&self) -> RunView {
        match self {
            Run::Continue(s, a) => RunView::Continue(s@, a@),
            Run::Finished(Ok(())) => RunView::Finished(Ok(())),
            Run::Finished(Err(e)) => RunView::Finished(Err(e.failed.deep_view())),
        }
    }
}

/// The names of the mods whose installation did not succeed, in the order of
/// the mods. `outcomes[i]` says whether that of `mods[i]` did.
pub open spec fn failures(mods: Seq<ModEntryView>, outcomes: Seq<bool>) -> Seq<Seq<char>>
    decreases outcomes.len(),
{
    if outcomes.len() == 0 {
        Seq::empty()
    } else {
        let before = failures(mods, outcomes.drop_last());
        let i = outcomes.len() - 1;
        if outcomes.last() || i >= mods.len() {
            before
        } else {
            before.push(mods[i].name)
        }
    }
}

/// The result of a run: success where nothing failed, else the failed mods.
pub open spec fn report(failed: Seq<Seq<char>>) -> Result<(), Seq<Seq<char>>> {
    if failed.len() == 0 {
        Ok(())
    } else {
        Err(failed)
    }
}

/// Turns to the mod at `position`, or ends the run where none is left.
pub open spec fn start_at(
    m: ModsManagerView,
    position: nat,
    failed: Seq<Seq<char>>,
    outcomes: Seq<bool>,
) -> RunView {
    if position < m.mods.len() {
        let entry = m.mods[position as int];
        let (current, action) = first_step(entry.id, entry.name, m.offline, m.validate);
        RunView::Continue(InstallStateView { position, current, failed, outcomes }, action)
    } else {
        RunView::Finished(report(failed))
    }
}

/// The transition of a run. While the installation of the current mod goes
/// on, the run waits with it. When it ends, its outcome is recorded, a
/// failure under the mod's name, and the run turns to the next mod: a
/// failure never ends the run.
pub open spec fn run_next(m: ModsManagerView, s: InstallStateView, e: EventView) -> RunView {
    match next(s.current, e) {
        ProgressView::Continue(current, action) => RunView::Continue(
            InstallStateView { current, ..s },
            action,
        ),
        ProgressView::Finished(result) => start_at(
            m,
            s.position + 1,
            if result is Ok {
                s.failed
            } else {
                s.failed.push(s.current.name)
            },
            s.outcomes.push(result is Ok),
        ),
    }
}

/// The mod whose installation an event ends, with its result; none where
/// the installation goes on.
pub open spec fn finished_mod(s: InstallStateView, e: EventView) -> Option<ModOutcomeView> {
    match next(s.current, e) {
        ProgressView::Finished(result) => Some((s.current.name, result)),
        ProgressView::Continue(_, _) => None,
    }
}

/// An outcome, if there is one, as a plain value.
pub open spec fn outcome_view(outcome: Option<ModOutcome>) -> Option<ModOutcomeView> {
    match outcome {
        Some(o) => Some(o@),
        None => None,
    }
}

impl InstallState {
    /// The name of the mod that is being installed.
    pub fn name(&self) -> (r: &String)
        ensures
            r@ == self@.current.name,
    {
        self.current.name()
    }

    /// The package of the mod that is being installed.
    pub fn id(&self) -> (r: u64)
        ensures
            r == self@.current.id,
    {
        self.current.id()
    }

    /// The line that announces the installation of the mod.
    pub fn attempt_line(&self) -> (r: String)
        ensures
            r@ == attempt_text(self@.current.name, self@.current.id),
    {
        let mut out = String::from_str("Attempting to install ");
        out.append(self.current.name().as_str());
        out.append(" (");
        let id = decimal_string(self.current.id());
        out.append(id.as_str());
        out.append(")...");
        out
    }
}

/// The names of the mods, in their order.
pub open spec fn mod_names(mods: Seq<ModEntryView>) -> Seq<Seq<char>> {
    mods.map_values(|m: ModEntryView| m.name)
}

/// A state of a run that keeps true account: it stands at a wanted mod, it
/// installs that mod in the mode of the run, every mod before it has an
/// outcome, and the failed mods are those whose outcome is a failure.
pub open spec fn accounted(m: ModsManagerView, s: InstallStateView) -> bool {
    &&& s.position < m.mods.len()
    &&& s.outcomes.len() == s.position
    &&& s.failed == failures(m.mods, s.outcomes)
    &&& s.current.id == m.mods[s.position as int].id
    &&& s.current.name == m.mods[s.position as int].name
    &&& s.current.offline == m.offline
    &&& s.current.validate == m.validate
}

impl ModsManager {
    /// A manager for the mods configured one by one, followed by those of the
    /// collection, to be installed in that order.
    pub fn new(
        individual: &Vec<ModEntry>,
        collection: &Vec<ModEntry>,
        offline: bool,
        validate: bool,
    ) -> (r: ModsManager)
        ensures
            r@ == (ModsManagerView {
                mods: individual.deep_view() + collection.deep_view(),
                offline,
                validate,
            }),
    {
        let mut mods: Vec<ModEntry> = Vec::new();
        let mut i: usize = 0;
        while i < individual.len()
            invariant
                i <= individual.len(),
                mods.deep_view() == individual.deep_view().take(i as int),
            decreases individual.len() - i,
        {
            let ghost before = mods.deep_view();
            mods.push(individual[i].clone());
            assert(mods.deep_view() =~= before.push(individual@[i as int]@));
            assert(individual.deep_view().take(i + 1) =~= before.push(individual@[i as int]@));
            i += 1;
        }
        assert(individual.deep_view().take(individual.len() as int) =~= individual.deep_view());
        let mut j: usize = 0;
        while j < collection.len()
            invariant
                j <= collection.len(),
                mods.deep_view() == individual.deep_view() + collection.deep_view().take(j as int),
            decreases collection.len() - j,
        {
            let ghost before = mods.deep_view();
            mods.push(collection[j].clone());
            assert(mods.deep_view() =~= before.push(collection@[j as int]@));
            assert(individual.deep_view() + collection.deep_view().take(j + 1) =~= before.push(
                collection@[j as int]@,
            ));
            j += 1;
        }
        assert(collection.deep_view().take(collection.len() as int) =~= collection.deep_view());
        ModsManager { mods, offline, validate }
    }

    /// How many mods are wanted.
    pub fn len(&self) -> (r: usize)
        ensures
            r == self@.mods.len(),
    {
        self.mods.len()
    }

    /// Whether no two of the wanted mods share a name, and so an alias.
    pub fn has_unique_names(&self) -> (r: bool)
        ensures
            r == mod_names(self@.mods).no_duplicates(),
    {
        let ghost names = mod_names(self@.mods);
        let n = self.mods.len();
        let mut i: usize = 0;
        while i < n
            invariant
                i <= n,
                n == self.mods.len(),
                names == mod_names(self@.mods),
                names.len() == n,
                forall|a: int, b: int| 0 <= a < i && a < b < n ==> names[a] != names[b],
            decreases n - i,
        {
            let mut j: usize = i + 1;
            while j < n
                invariant
                    i < j <= n,
                    n == self.mods.len(),
                    names == mod_names(self@.mods),
                    names.len() == n,
                    forall|b: int| i < b < j ==> names[i as int] != names[b],
                decreases n - j,
            {
                assert(names[i as int] == self.mods@[i as int].name@);
                assert(names[j as int] == self.mods@[j as int].name@);
                if self.mods[i].name == self.mods[j].name {
                    return false;
                }
                j += 1;
            }
            i += 1;
        }
        assert forall|a: int, b: int|
            0 <= a < names.len() && 0 <= b < names.len() && a != b implies names[a] != names[b] by {
            if a < b {
                assert(names[a] != names[b]);
            } else {
                assert(names[b] != names[a]);
            }
        }
        true
    }

    /// Starts the installation of the mod at `index`, if there is one.
    pub fn install_single_mod(&self, index: usize) -> (r: Option<(ModInstall, Action)>)
        ensures
            match r {
                Some((state, action)) => index < self@.mods.len() && (state@, action@)
                    == first_step(
                    self@.mods[index as int].id,
                    self@.mods[index as int].name,
                    self@.offline,
                    self@.validate,
                ),
                None => index >= self@.mods.len(),
            },
    {
        if index < self.mods.len() {
            let entry = &self.mods[index];
            Some(ModInstall::begin(entry.id, entry.name.clone(), self.offline, self.validate))
        } else {
            None
        }
    }

    fn start_at(
        &self,
        position: usize,
        failed: Vec<String>,
        outcomes: Ghost<Seq<bool>>,
    ) -> (r: Run)
        ensures
            r@ == start_at(self@, position as nat, failed.deep_view(), outcomes@),
    {
        match self.install_single_mod(position) {
            Some((current, action)) => Run::Continue(
                InstallState { position, current, failed, outcomes },
                action,
            ),
            None => {
                if failed.len() == 0 {
                    Run::Finished(Ok(()))
                } else {
                    Run::Finished(Err(AggregateInstallError { failed }))
                }
            },
        }
    }

    /// Starts the run: with the first mod, or, where no mod is wanted, with
    /// success at once.
    pub fn install_mods(&self) -> (r: Run)
        ensures
            r@ == start_at(self@, 0, Seq::empty(), Seq::empty()),
            self@.mods.len() == 0 ==> r@ == RunView::Finished(Ok(())),
            r@ matches RunView::Continue(s, _) ==> accounted(self@, s),
    {
        let failed: Vec<String> = Vec::new();
        assert(failed.deep_view() =~= Seq::empty());
        self.start_at(0, failed, Ghost(Seq::empty()))
    }

    /// Takes the event that answers the pending action and says what follows:
    /// the mod whose installation the event ended, if it ended one, and how
    /// the run goes on.
    ///
    /// From a state that keeps true account, the state that follows does so
    /// too, and a run that ends has tried every mod: its result names the
    /// mods whose installation failed, all of them and no others.
    pub fn step(&self, state: InstallState, event: Event) -> (r: (Option<ModOutcome>, Run))
        ensures
            outcome_view(r.0) == finished_mod(state@, event@),
            r.1@ == run_next(self@, state@, event@),
            accounted(self@, state@) ==> match r.1@ {
                RunView::Continue(s, _) => accounted(self@, s),
                RunView::Finished(result) => exists|outcomes: Seq<bool>|
                    outcomes.len() == self@.mods.len() && result == report(
                        failures(self@.mods, outcomes),
                    ),
            },
    {
        proof {
            if accounted(self@, state@) {
                lemma_run_keeps_account(self@, state@, event@);
            }
        }
        let InstallState { position, current, failed, outcomes } = state;
        let name = current.name().clone();
        let ghost before = failed.deep_view();
        match current.step(event) {
            Progress::Continue(current, action) => (
                None,
                Run::Continue(InstallState { position, current, failed, outcomes }, action),
            ),
            Progress::Finished(result) => {
                let mut failed = failed;
                let ok = result.is_ok();
                if !ok {
                    failed.push(name.clone());
                    assert(failed.deep_view() =~= before.push(name@));
                }
                let outcome = ModOutcome { name, result };
                let run = if position < usize::MAX {
                    self.start_at(position + 1, failed, Ghost(outcomes@.push(ok)))
                } else if failed.len() == 0 {
                    assert(self@.mods.len() == self.mods.len());
                    Run::Finished(Ok(()))
                } else {
                    assert(self@.mods.len() == self.mods.len());
                    Run::Finished(Err(AggregateInstallError { failed }))
                };
                (Some(outcome), run)
            },
        }
    }
}

/// Every mod is tried, and the account of failures is exact. From a state
/// that keeps true account, a run either goes on in such a state, at the same
/// mod or at the one behind it, or it ends; and it ends only behind the last
/// mod, with a result that names exactly the mods whose installation failed.
pub proof fn lemma_run_keeps_account(m: ModsManagerView, s: InstallStateView, e: EventView)
    requires
        accounted(m, s),
    ensures
        match run_next(m, s, e) {
            RunView::Continue(t, _) => accounted(m, t) && (t.position == s.position || t.position
                == s.position + 1),
            RunView::Finished(result) => exists|outcomes: Seq<bool>|
                outcomes.len() == m.mods.len() && s.position + 1 == m.mods.len()
                    && outcomes.take(s.position as int) == s.outcomes && result == report(
                    failures(m.mods, outcomes),
                ),
        },
{
    match next(s.current, e) {
        ProgressView::Continue(current, action) => {
            lemma_next_keeps_mod(s.current, e);
        },
        ProgressView::Finished(result) => {
            let outcomes = s.outcomes.push(result is Ok);
            assert(outcomes.drop_last() =~= s.outcomes);
            assert(outcomes.take(s.position as int) =~= s.outcomes);
            let failed = if result is Ok {
                s.failed
            } else {
                s.failed.push(s.current.name)
            };
            assert(failed == failures(m.mods, outcomes));
        },
    }
}

/// An installation that goes on stays with its mod and its mode.
pub proof fn lemma_next_keeps_mod(s: ModInstallView, e: EventView)
    ensures
        next(s, e) matches ProgressView::Continue(t, _) ==> t.id == s.id && t.name == s.name
            && t.offline == s.offline && t.validate == s.validate,
{
}

} // verus!
