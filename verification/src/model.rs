//! A model of the disk, and what installations do to it.
//!
//! The installation machine never sees the disk: it sees the answers of its
//! caller. `Disk` is what a truthful caller answers from, on a disk where no
//! action fails. Playing the machine against it shows what an installation
//! leaves behind, and what a second one finds.

use crate::install::{
    first_step, next, to_alias, to_key, to_keys, ActionView, EventView, InstallErrorView,
    ModInstallView, Phase, ProgressView,
};
use crate::layout::{
    alias_name, is_alias_name, is_key_file_name, is_reserved_key_name, key_file_names,
};
use crate::config::mod_entry::ModEntryView;
use crate::mods::{
    mod_names, report, run_next, start_at, InstallStateView, ModsManagerView, RunView,
};
use crate::server::{lemma_clear_is_exact, stale_aliases, stale_keys};
use vstd::prelude::*;

verus! {

/// What lies on disk, as far as installations are concerned.
#[verifier::ext_equal]
pub struct Disk {
    /// The packages that are in the cache.
    pub cached: Set<u64>,
    /// For each package that has a keys directory, the names in it.
    pub package_keys: Map<u64, Seq<Seq<char>>>,
    /// The aliases in the server directory.
    pub aliases: Set<Seq<char>>,
    /// The files in the server's keys directory, each with the package that
    /// it was mirrored from.
    pub keys: Map<Seq<char>, u64>,
}

/// The action that a state waits for the answer to.
pub open spec fn pending(s: ModInstallView) -> ActionView {
    match s.phase {
        Phase::Locating => ActionView::ProbePackage { id: s.id },
        Phase::Downloading => ActionView::Download { id: s.id, validate: s.validate },
        Phase::Verifying => ActionView::ProbePackage { id: s.id },
        Phase::ProbingAlias => ActionView::ProbeAlias { alias: alias_name(s.name) },
        Phase::LinkingAlias => ActionView::LinkAlias { alias: alias_name(s.name), id: s.id },
        Phase::ListingKeys => ActionView::ListKeys { id: s.id },
        Phase::ProbingKey => ActionView::ProbeKey { file: s.keys[s.cursor as int] },
        Phase::LinkingKey => ActionView::LinkKey { file: s.keys[s.cursor as int], id: s.id },
    }
}

/// What a truthful caller answers, and what the action leaves on a disk
/// where nothing fails. A download leaves the package in the cache; a link
/// adds the alias or the key, the key under the package it comes from.
pub open spec fn reply(d: Disk, a: ActionView) -> (Disk, EventView) {
    match a {
        ActionView::ProbePackage { id } => (d, EventView::Present(d.cached.contains(id))),
        ActionView::Download { id, validate } => (
            Disk { cached: d.cached.insert(id), ..d },
            EventView::Completed,
        ),
        ActionView::ProbeAlias { alias } => (d, EventView::Present(d.aliases.contains(alias))),
        ActionView::LinkAlias { alias, id } => (
            Disk { aliases: d.aliases.insert(alias), ..d },
            EventView::Completed,
        ),
        ActionView::ListKeys { id } => (
            d,
            EventView::Listing(
                if d.package_keys.contains_key(id) {
                    Some(d.package_keys[id])
                } else {
                    None
                },
            ),
        ),
        ActionView::ProbeKey { file } => (d, EventView::Present(d.keys.contains_key(file))),
        ActionView::LinkKey { file, id } => (
            Disk { keys: d.keys.insert(file, id), ..d },
            EventView::Completed,
        ),
    }
}

/// How many key files the package of `id` holds.
pub open spec fn package_key_count(d: Disk, id: u64) -> nat {
    if d.package_keys.contains_key(id) {
        key_file_names(d.package_keys[id]).len()
    } else {
        0
    }
}

/// A bound on the actions that an installation still asks for.
pub open spec fn steps_left(s: ModInstallView, d: Disk) -> nat {
    let k = package_key_count(d, s.id);
    match s.phase {
        Phase::Downloading => 2 * k + 7,
        Phase::Locating => 2 * k + 6,
        Phase::Verifying => 2 * k + 6,
        Phase::ProbingAlias => 2 * k + 5,
        Phase::LinkingAlias => 2 * k + 4,
        Phase::ListingKeys => 2 * k + 3,
        Phase::ProbingKey => if s.cursor < s.keys.len() {
            (2 * (s.keys.len() - s.cursor) + 1) as nat
        } else {
            1
        },
        Phase::LinkingKey => if s.cursor < s.keys.len() {
            (2 * (s.keys.len() - s.cursor)) as nat
        } else {
            1
        },
    }
}

/// Every answer of a truthful caller brings the installation nearer its end.
pub proof fn lemma_steps_decrease(s: ModInstallView, d: Disk)
    ensures
        next(s, reply(d, pending(s)).1) matches ProgressView::Continue(t, _) ==> steps_left(
            t,
            reply(d, pending(s)).0,
        ) < steps_left(s, d),
{
    let (after, event) = reply(d, pending(s));
    assert(after.package_keys == d.package_keys);
}

/// Plays an installation to its end against a truthful caller: the disk it
/// leaves and its result.
pub open spec fn play(s: ModInstallView, d: Disk) -> (Disk, Result<(), InstallErrorView>)
    decreases steps_left(s, d),
{
    let (after, event) = reply(d, pending(s));
    match next(s, event) {
        ProgressView::Continue(t, _) => {
            proof {
                lemma_steps_decrease(s, d);
            }
            play(t, after)
        },
        ProgressView::Finished(result) => (after, result),
    }
}

/// Goes on with what a transition gave: to the end where it continues.
pub open spec fn resume(p: ProgressView, d: Disk) -> (Disk, Result<(), InstallErrorView>) {
    match p {
        ProgressView::Continue(t, _) => play(t, d),
        ProgressView::Finished(result) => (d, result),
    }
}

/// One step of play: answer the pending action, then go on.
pub proof fn lemma_play_unfold(s: ModInstallView, d: Disk)
    ensures
        play(s, d) == resume(next(s, reply(d, pending(s)).1), reply(d, pending(s)).0),
{
}

/// The action that a transition names is the one that the new state waits
/// for.
pub proof fn lemma_next_names_pending(s: ModInstallView, e: EventView)
    ensures
        next(s, e) matches ProgressView::Continue(t, a) ==> a == pending(t),
{
}

/// The action that an installation starts with is the one that its first
/// state waits for.
pub proof fn lemma_first_step_names_pending(id: u64, name: Seq<char>, offline: bool, validate: bool)
    ensures
        first_step(id, name, offline, validate).1 == pending(
            first_step(id, name, offline, validate).0,
        ),
{
}

/// No transition asks for a download: only the start of an installation
/// does, and only where the network may be used.
pub proof fn lemma_download_only_at_start(s: ModInstallView, e: EventView)
    ensures
        next(s, e) matches ProgressView::Continue(_, a) ==> !(a is Download),
        next(s, e) matches ProgressView::Continue(t, _) ==> t.offline == s.offline,
{
}

/// The keys directory after the files have been mirrored into it, one after
/// the other: a file whose name is taken is left out, the others are added
/// under the package `id`.
pub open spec fn mirrored(keys: Map<Seq<char>, u64>, files: Seq<Seq<char>>, id: u64) -> Map<
    Seq<char>,
    u64,
>
    decreases files.len(),
{
    if files.len() == 0 {
        keys
    } else {
        let first = files[0];
        mirrored(
            if keys.contains_key(first) {
                keys
            } else {
                keys.insert(first, id)
            },
            files.drop_first(),
            id,
        )
    }
}

/// Mirroring keeps every file that was there, under the package it had.
pub proof fn lemma_mirrored_keeps(
    keys: Map<Seq<char>, u64>,
    files: Seq<Seq<char>>,
    id: u64,
    name: Seq<char>,
)
    requires
        keys.contains_key(name),
    ensures
        mirrored(keys, files, id).contains_key(name),
        mirrored(keys, files, id)[name] == keys[name],
    decreases files.len(),
{
    if files.len() > 0 {
        let first = files[0];
        let step = if keys.contains_key(first) {
            keys
        } else {
            keys.insert(first, id)
        };
        lemma_mirrored_keeps(step, files.drop_first(), id, name);
    }
}

/// Mirroring adds every file whose name was free, under the package `id`,
/// and nothing else.
pub proof fn lemma_mirrored_adds(
    keys: Map<Seq<char>, u64>,
    files: Seq<Seq<char>>,
    id: u64,
    name: Seq<char>,
)
    requires
        !keys.contains_key(name),
    ensures
        mirrored(keys, files, id).contains_key(name) <==> files.contains(name),
        files.contains(name) ==> mirrored(keys, files, id)[name] == id,
    decreases files.len(),
{
    if files.len() > 0 {
        let first = files[0];
        let rest = files.drop_first();
        let step = if keys.contains_key(first) {
            keys
        } else {
            keys.insert(first, id)
        };
        if first == name {
            lemma_mirrored_keeps(step, rest, id, name);
        } else {
            lemma_mirrored_adds(step, rest, id, name);
            if files.contains(name) {
                let i = choose|i: int| 0 <= i < files.len() && files[i] == name;
                assert(rest[i - 1] == name);
            }
            if rest.contains(name) {
                let i = choose|i: int| 0 <= i < rest.len() && rest[i] == name;
                assert(files[i + 1] == name);
            }
        }
    }
}

/// Mirroring files that are all there already changes nothing.
pub proof fn lemma_mirrored_again(keys: Map<Seq<char>, u64>, files: Seq<Seq<char>>, id: u64)
    requires
        forall|i: int| 0 <= i < files.len() ==> keys.contains_key(#[trigger] files[i]),
    ensures
        mirrored(keys, files, id) == keys,
    decreases files.len(),
{
    if files.len() > 0 {
        let rest = files.drop_first();
        assert(keys.contains_key(files[0]));
        assert forall|i: int| 0 <= i < rest.len() implies keys.contains_key(#[trigger] rest[i]) by {
            assert(rest[i] == files[i + 1]);
        }
        lemma_mirrored_again(keys, rest, id);
    }
}

/// After mirroring, every one of the files is there.
pub proof fn lemma_mirrored_covers(keys: Map<Seq<char>, u64>, files: Seq<Seq<char>>, id: u64)
    ensures
        forall|i: int|
            0 <= i < files.len() ==> mirrored(keys, files, id).contains_key(#[trigger] files[i]),
{
    assert forall|i: int| 0 <= i < files.len() implies mirrored(keys, files, id).contains_key(
        #[trigger] files[i],
    ) by {
        if keys.contains_key(files[i]) {
            lemma_mirrored_keeps(keys, files, id, files[i]);
        } else {
            lemma_mirrored_adds(keys, files, id, files[i]);
        }
    }
}

/// The disk that a successful installation leaves: the package is cached
/// where it was downloaded, the alias is there, and the package's key files
/// are mirrored.
pub open spec fn installed(d: Disk, id: u64, name: Seq<char>, offline: bool) -> Disk {
    Disk {
        cached: if offline {
            d.cached
        } else {
            d.cached.insert(id)
        },
        package_keys: d.package_keys,
        aliases: d.aliases.insert(alias_name(name)),
        keys: if d.package_keys.contains_key(id) {
            mirrored(d.keys, key_file_names(d.package_keys[id]), id)
        } else {
            d.keys
        },
    }
}

/// Playing on from the key at `cursor` mirrors the keys from there on.
proof fn lemma_play_keys(s: ModInstallView, cursor: nat, d: Disk)
    requires
        cursor <= s.keys.len(),
    ensures
        resume(to_key(s, cursor), d) == (
            Disk { keys: mirrored(d.keys, s.keys.skip(cursor as int), s.id), ..d },
            Ok::<(), InstallErrorView>(()),
        ),
    decreases s.keys.len() - cursor,
{
    let rest = s.keys.skip(cursor as int);
    if cursor < s.keys.len() {
        let file = s.keys[cursor as int];
        assert(rest[0] == file);
        assert(rest.drop_first() =~= s.keys.skip(cursor as int + 1));
        let probing = ModInstallView { phase: Phase::ProbingKey, cursor, ..s };
        lemma_play_unfold(probing, d);
        if d.keys.contains_key(file) {
            assert(to_key(probing, cursor + 1) == to_key(s, cursor + 1));
            lemma_play_keys(s, cursor + 1, d);
        } else {
            let linking = ModInstallView { phase: Phase::LinkingKey, cursor, ..s };
            let after = Disk { keys: d.keys.insert(file, s.id), ..d };
            lemma_play_unfold(linking, d);
            assert(to_key(linking, cursor + 1) == to_key(s, cursor + 1));
            lemma_play_keys(s, cursor + 1, after);
        }
    } else {
        assert(rest.len() == 0);
        assert(Disk { keys: d.keys, ..d } == d);
    }
}

/// Playing on from the listing of the keys mirrors the package's key files.
proof fn lemma_play_from_keys(s: ModInstallView, d: Disk)
    ensures
        resume(to_keys(s), d) == (
            Disk {
                keys: if d.package_keys.contains_key(s.id) {
                    mirrored(d.keys, key_file_names(d.package_keys[s.id]), s.id)
                } else {
                    d.keys
                },
                ..d
            },
            Ok::<(), InstallErrorView>(()),
        ),
{
    let listing = ModInstallView { phase: Phase::ListingKeys, ..s };
    lemma_play_unfold(listing, d);
    if d.package_keys.contains_key(s.id) {
        let files = key_file_names(d.package_keys[s.id]);
        let holding = ModInstallView { keys: files, ..listing };
        lemma_play_keys(holding, 0, d);
        assert(files.skip(0) =~= files);
    } else {
        assert(Disk { keys: d.keys, ..d } == d);
    }
}

/// Playing on from the probe of the alias leaves the alias and the keys.
proof fn lemma_play_from_alias(s: ModInstallView, d: Disk)
    ensures
        resume(to_alias(s), d) == (
            Disk {
                aliases: d.aliases.insert(alias_name(s.name)),
                keys: if d.package_keys.contains_key(s.id) {
                    mirrored(d.keys, key_file_names(d.package_keys[s.id]), s.id)
                } else {
                    d.keys
                },
                ..d
            },
            Ok::<(), InstallErrorView>(()),
        ),
{
    let alias = alias_name(s.name);
    let probing = ModInstallView { phase: Phase::ProbingAlias, ..s };
    lemma_play_unfold(probing, d);
    if d.aliases.contains(alias) {
        assert(d.aliases.insert(alias) =~= d.aliases);
        assert(to_keys(probing) == to_keys(s));
        lemma_play_from_keys(s, d);
    } else {
        let linking = ModInstallView { phase: Phase::LinkingAlias, ..s };
        let after = Disk { aliases: d.aliases.insert(alias), ..d };
        lemma_play_unfold(linking, d);
        assert(to_keys(linking) == to_keys(s));
        lemma_play_from_keys(s, after);
    }
}

/// On a disk where nothing fails, an installation succeeds unless it may
/// not use the network and the package is not cached. It leaves the alias
/// and the mirrored keys, and touches nothing else.
pub proof fn lemma_install_succeeds(
    d: Disk,
    id: u64,
    name: Seq<char>,
    offline: bool,
    validate: bool,
)
    requires
        offline ==> d.cached.contains(id),
    ensures
        play(first_step(id, name, offline, validate).0, d) == (
            installed(d, id, name, offline),
            Ok::<(), InstallErrorView>(()),
        ),
{
    let s = first_step(id, name, offline, validate).0;
    lemma_play_unfold(s, d);
    if offline {
        lemma_play_from_alias(s, d);
        assert(installed(d, id, name, offline) =~= Disk {
            aliases: d.aliases.insert(alias_name(name)),
            keys: installed(d, id, name, offline).keys,
            ..d
        });
    } else {
        let after = Disk { cached: d.cached.insert(id), ..d };
        let verifying = ModInstallView { phase: Phase::Verifying, ..s };
        lemma_play_unfold(verifying, after);
        assert(to_alias(verifying) == to_alias(s));
        lemma_play_from_alias(s, after);
    }
}

/// Without network, a package that is not cached fails the installation at
/// once: the first and only action is the probe of the cache, the error is
/// the one for a package that is not available, and the disk is untouched.
pub proof fn lemma_offline_missing_package(d: Disk, id: u64, name: Seq<char>, validate: bool)
    requires
        !d.cached.contains(id),
    ensures
        first_step(id, name, true, validate).1 == (ActionView::ProbePackage { id }),
        next(first_step(id, name, true, validate).0, EventView::Present(false))
            == ProgressView::Finished(Err(InstallErrorView::NotAvailableOffline(id))),
        play(first_step(id, name, true, validate).0, d) == (
            d,
            Err::<(), InstallErrorView>(InstallErrorView::NotAvailableOffline(id)),
        ),
{
    lemma_play_unfold(first_step(id, name, true, validate).0, d);
}

/// Installing a mod twice in a row succeeds both times, and the second
/// installation leaves the disk as the first one left it: the alias and the
/// keys are found and nothing is linked again.
pub proof fn lemma_install_twice(d: Disk, id: u64, name: Seq<char>, offline: bool, validate: bool)
    requires
        offline ==> d.cached.contains(id),
    ensures
        ({
            let start = first_step(id, name, offline, validate).0;
            let (once, first) = play(start, d);
            let (twice, second) = play(start, once);
            first is Ok && second is Ok && twice == once
        }),
{
    let once = installed(d, id, name, offline);
    lemma_install_succeeds(d, id, name, offline, validate);
    lemma_install_succeeds(once, id, name, offline, validate);
    let twice = installed(once, id, name, offline);
    assert(twice.aliases =~= once.aliases);
    assert(twice.cached =~= once.cached);
    if d.package_keys.contains_key(id) {
        let files = key_file_names(d.package_keys[id]);
        lemma_mirrored_covers(d.keys, files, id);
        lemma_mirrored_again(once.keys, files, id);
    }
    assert(twice =~= once);
}

/// The first writer of a key wins. Where two mods both ship a key file of
/// one name and that name is free, installing one and then the other leaves
/// the key under the first mod's package.
pub proof fn lemma_first_writer_wins(
    d: Disk,
    first: (u64, Seq<char>),
    second: (u64, Seq<char>),
    offline: bool,
    validate: bool,
    key: Seq<char>,
)
    requires
        offline ==> d.cached.contains(first.0) && d.cached.contains(second.0),
        is_key_file_name(key),
        d.package_keys.contains_key(first.0) && d.package_keys[first.0].contains(key),
        d.package_keys.contains_key(second.0) && d.package_keys[second.0].contains(key),
        !d.keys.contains_key(key),
    ensures
        ({
            let (once, a) = play(first_step(first.0, first.1, offline, validate).0, d);
            let (twice, b) = play(first_step(second.0, second.1, offline, validate).0, once);
            a is Ok && b is Ok && twice.keys.contains_key(key) && twice.keys[key] == first.0
        }),
{
    let once = installed(d, first.0, first.1, offline);
    lemma_install_succeeds(d, first.0, first.1, offline, validate);
    lemma_install_succeeds(once, second.0, second.1, offline, validate);
    let listing = d.package_keys[first.0];
    let i = choose|i: int| 0 <= i < listing.len() && listing[i] == key;
    listing.lemma_filter_contains(|n: Seq<char>| is_key_file_name(n), i);
    lemma_mirrored_adds(d.keys, key_file_names(listing), first.0, key);
    lemma_mirrored_keeps(once.keys, key_file_names(d.package_keys[second.0]), second.0, key);
}

/// An installation never replaces a key: every file that the keys directory
/// held before is there afterwards, under the package it had.
pub proof fn lemma_keys_are_never_replaced(
    d: Disk,
    id: u64,
    name: Seq<char>,
    offline: bool,
    validate: bool,
    key: Seq<char>,
)
    requires
        d.keys.contains_key(key),
    ensures
        ({
            let (after, _) = play(first_step(id, name, offline, validate).0, d);
            after.keys.contains_key(key) && after.keys[key] == d.keys[key]
        }),
{
    let s = first_step(id, name, offline, validate).0;
    if offline && !d.cached.contains(id) {
        lemma_offline_missing_package(d, id, name, validate);
    } else {
        lemma_install_succeeds(d, id, name, offline, validate);
        if d.package_keys.contains_key(id) {
            lemma_mirrored_keeps(d.keys, key_file_names(d.package_keys[id]), id, key);
        }
    }
}

/// Plays a run to its end against a truthful caller: the disk it leaves
/// and its result.
pub open spec fn play_run(m: ModsManagerView, s: InstallStateView, d: Disk) -> (
    Disk,
    Result<(), Seq<Seq<char>>>,
)
    decreases m.mods.len() - s.position, steps_left(s.current, d),
{
    let (after, event) = reply(d, pending(s.current));
    match run_next(m, s, event) {
        RunView::Continue(t, _) => {
            proof {
                lemma_steps_decrease(s.current, d);
            }
            play_run(m, t, after)
        },
        RunView::Finished(result) => (after, result),
    }
}

/// Goes on with what a transition of a run gave: to the end where it
/// continues.
pub open spec fn resume_run(m: ModsManagerView, r: RunView, d: Disk) -> (
    Disk,
    Result<(), Seq<Seq<char>>>,
) {
    match r {
        RunView::Continue(t, _) => play_run(m, t, d),
        RunView::Finished(result) => (d, result),
    }
}

/// Whether the installation of a package succeeds on a disk where nothing
/// fails: always with the network, and without it where the package is
/// cached.
pub open spec fn installs(d: Disk, id: u64, offline: bool) -> bool {
    !offline || d.cached.contains(id)
}

/// What a run leaves of the mods from `from` on: the disk after those that
/// can be installed have been, one after the other, and the names of the
/// others behind those that failed before.
pub open spec fn run_outcome(m: ModsManagerView, from: nat, d: Disk, failed: Seq<Seq<char>>) -> (
    Disk,
    Seq<Seq<char>>,
)
    decreases m.mods.len() - from,
{
    if from >= m.mods.len() {
        (d, failed)
    } else {
        let entry = m.mods[from as int];
        if installs(d, entry.id, m.offline) {
            run_outcome(m, from + 1, installed(d, entry.id, entry.name, m.offline), failed)
        } else {
            run_outcome(m, from + 1, d, failed.push(entry.name))
        }
    }
}

/// A run plays the installation of its current mod to the end, records the
/// outcome, and goes on behind it.
proof fn lemma_play_run_current(m: ModsManagerView, s: InstallStateView, d: Disk)
    ensures
        play_run(m, s, d) == resume_run(
            m,
            start_at(
                m,
                s.position + 1,
                if play(s.current, d).1 is Ok {
                    s.failed
                } else {
                    s.failed.push(s.current.name)
                },
                s.outcomes.push(play(s.current, d).1 is Ok),
            ),
            play(s.current, d).0,
        ),
    decreases steps_left(s.current, d),
{
    let (after, event) = reply(d, pending(s.current));
    lemma_play_unfold(s.current, d);
    match next(s.current, event) {
        ProgressView::Continue(current, _) => {
            lemma_steps_decrease(s.current, d);
            lemma_download_only_at_start(s.current, event);
            let t = InstallStateView { current, ..s };
            assert(current.name == s.current.name);
            lemma_play_run_current(m, t, after);
        },
        ProgressView::Finished(result) => {},
    }
}

/// A run that turns to the mod at `position` leaves what `run_outcome` says.
proof fn lemma_play_run_from(
    m: ModsManagerView,
    position: nat,
    failed: Seq<Seq<char>>,
    outcomes: Seq<bool>,
    d: Disk,
)
    ensures
        resume_run(m, start_at(m, position, failed, outcomes), d) == (
            run_outcome(m, position, d, failed).0,
            report(run_outcome(m, position, d, failed).1),
        ),
    decreases m.mods.len() - position,
{
    if position < m.mods.len() {
        let entry = m.mods[position as int];
        let (current, _) = first_step(entry.id, entry.name, m.offline, m.validate);
        let s = InstallStateView { position, current, failed, outcomes };
        lemma_play_run_current(m, s, d);
        if installs(d, entry.id, m.offline) {
            lemma_install_succeeds(d, entry.id, entry.name, m.offline, m.validate);
            lemma_play_run_from(
                m,
                position + 1,
                failed,
                outcomes.push(true),
                installed(d, entry.id, entry.name, m.offline),
            );
        } else {
            lemma_offline_missing_package(d, entry.id, entry.name, m.validate);
            lemma_play_run_from(m, position + 1, failed.push(entry.name), outcomes.push(false), d);
        }
    }
}

/// A run tries every mod, whatever became of the ones before. On a disk
/// where nothing fails but the lack of a package, it installs every mod
/// whose package can be had, and its result names the others, all of them
/// and in their order.
pub proof fn lemma_run_tries_every_mod(m: ModsManagerView, d: Disk)
    ensures
        resume_run(m, start_at(m, 0, Seq::empty(), Seq::empty()), d) == (
            run_outcome(m, 0, d, Seq::empty()).0,
            report(run_outcome(m, 0, d, Seq::empty()).1),
        ),
{
    lemma_play_run_from(m, 0, Seq::empty(), Seq::empty(), d);
}

/// A mod that fails does not keep the mods behind it from being installed:
/// where the first of two mods cannot be had and the second can, the run
/// leaves the second installed and names the first alone.
pub proof fn lemma_failure_does_not_stop_the_run(
    m: ModsManagerView,
    d: Disk,
)
    requires
        m.mods.len() == 2,
        !installs(d, m.mods[0].id, m.offline),
        installs(d, m.mods[1].id, m.offline),
    ensures
        resume_run(m, start_at(m, 0, Seq::empty(), Seq::empty()), d) == (
            installed(d, m.mods[1].id, m.mods[1].name, m.offline),
            Err::<(), Seq<Seq<char>>>(seq![m.mods[0].name]),
        ),
{
    lemma_run_tries_every_mod(m, d);
    reveal_with_fuel(run_outcome, 3);
    assert(Seq::<Seq<char>>::empty().push(m.mods[0].name) =~= seq![m.mods[0].name]);
}

/// Whether the mod at `i` can be installed and has this alias.
pub open spec fn activates(m: ModsManagerView, d: Disk, i: int, alias: Seq<char>) -> bool {
    &&& 0 <= i < m.mods.len()
    &&& installs(d, m.mods[i].id, m.offline)
    &&& alias == alias_name(m.mods[i].name)
}

/// The aliases that a run leaves are those that were there and those of the
/// mods that could be installed, and no others. After a clearing that left
/// no alias, the aliases are exactly those of the installed mods.
pub proof fn lemma_run_activates_the_installed(
    m: ModsManagerView,
    from: nat,
    d: Disk,
    failed: Seq<Seq<char>>,
    alias: Seq<char>,
)
    ensures
        run_outcome(m, from, d, failed).0.aliases.contains(alias) <==> d.aliases.contains(alias)
            || exists|i: int| from <= i && #[trigger] activates(m, d, i, alias),
    decreases m.mods.len() - from,
{
    if from < m.mods.len() {
        let entry = m.mods[from as int];
        let after = if installs(d, entry.id, m.offline) {
            installed(d, entry.id, entry.name, m.offline)
        } else {
            d
        };
        let named = if installs(d, entry.id, m.offline) {
            failed
        } else {
            failed.push(entry.name)
        };
        lemma_run_activates_the_installed(m, from + 1, after, named, alias);
        assert forall|i: int| activates(m, after, i, alias) == activates(m, d, i, alias) by {}
        let left = run_outcome(m, from, d, failed).0.aliases.contains(alias);
        assert(left == run_outcome(m, from + 1, after, named).0.aliases.contains(alias));
        if left {
            if after.aliases.contains(alias) {
                if !d.aliases.contains(alias) {
                    assert(activates(m, d, from as int, alias));
                }
            } else {
                let i = choose|i: int| from + 1 <= i && #[trigger] activates(m, after, i, alias);
                assert(from <= i && activates(m, d, i, alias));
            }
        }
        if exists|i: int| from <= i && #[trigger] activates(m, d, i, alias) {
            let i = choose|i: int| from <= i && #[trigger] activates(m, d, i, alias);
            if i == from {
                assert(after.aliases.contains(alias));
            } else {
                assert(from + 1 <= i && activates(m, after, i, alias));
            }
        }
    } else {
        assert forall|i: int| from <= i implies !activates(m, d, i, alias) by {}
    }
}

/// The mods that a run names as failed are those that could not be
/// installed, in their order, behind those that had failed before.
pub proof fn lemma_run_names_the_missing(
    m: ModsManagerView,
    from: nat,
    d: Disk,
    failed: Seq<Seq<char>>,
)
    requires
        from <= m.mods.len(),
    ensures
        run_outcome(m, from, d, failed).1 == failed + mod_names(
            m.mods.skip(from as int).filter(|e: ModEntryView| !installs(d, e.id, m.offline)),
        ),
    decreases m.mods.len() - from,
{
    let missing = |e: ModEntryView| !installs(d, e.id, m.offline);
    let rest = m.mods.skip(from as int);
    if from < m.mods.len() {
        let entry = m.mods[from as int];
        let tail = m.mods.skip(from as int + 1);
        assert(rest =~= seq![entry] + tail);
        tail.lemma_filter_prepend(entry, missing);
        if installs(d, entry.id, m.offline) {
            let after = installed(d, entry.id, entry.name, m.offline);
            lemma_run_names_the_missing(m, from + 1, after, failed);
            let missing_after = |e: ModEntryView| !installs(after, e.id, m.offline);
            assert(missing_after =~= missing);
            assert(rest.filter(missing) =~= tail.filter(missing));
        } else {
            lemma_run_names_the_missing(m, from + 1, d, failed.push(entry.name));
            assert(rest.filter(missing) =~= seq![entry] + tail.filter(missing));
            assert(mod_names(seq![entry] + tail.filter(missing)) =~= seq![entry.name] + mod_names(
                tail.filter(missing),
            ));
            assert(failed.push(entry.name) + mod_names(tail.filter(missing)) =~= failed + (
            seq![entry.name] + mod_names(tail.filter(missing))));
        }
    } else {
        assert(rest =~= Seq::<ModEntryView>::empty());
        assert(rest.filter(missing) =~= Seq::<ModEntryView>::empty());
        assert(mod_names(Seq::<ModEntryView>::empty()) =~= Seq::<Seq<char>>::empty());
        assert(failed + Seq::<Seq<char>>::empty() =~= failed);
    }
}

/// The disk after the planned entries have been removed from the server
/// directory and the planned files from its keys directory.
pub open spec fn removed(d: Disk, aliases: Seq<Seq<char>>, keys: Seq<Seq<char>>) -> Disk {
    Disk {
        aliases: d.aliases.difference(aliases.to_set()),
        keys: d.keys.remove_keys(keys.to_set()),
        ..d
    }
}

/// Clearing leaves no alias and no key but the reserved one, and leaves the
/// reserved key as it is: where the listings name what the directories
/// hold and every planned removal is carried out.
pub proof fn lemma_clear_leaves_nothing(
    d: Disk,
    install: Seq<Seq<char>>,
    keys: Seq<Seq<char>>,
    name: Seq<char>,
)
    requires
        install.to_set() == d.aliases,
        keys.to_set() == d.keys.dom(),
    ensures
        ({
            let after = removed(d, stale_aliases(install), stale_keys(keys));
            &&& after.aliases.contains(name) <==> d.aliases.contains(name) && !is_alias_name(name)
            &&& after.keys.contains_key(name) <==> d.keys.contains_key(name)
                && is_reserved_key_name(name)
            &&& after.keys.contains_key(name) ==> after.keys[name] == d.keys[name]
        }),
{
    lemma_clear_is_exact(install, keys, name);
    assert(install.to_set().contains(name) == install.contains(name));
    assert(keys.to_set().contains(name) == keys.contains(name));
}

/// After a clearing and a run, the aliases in the server directory are
/// those of the mods that were installed, and no others.
pub proof fn lemma_cleared_run_activates_exactly_the_installed(
    m: ModsManagerView,
    d: Disk,
    install: Seq<Seq<char>>,
    keys: Seq<Seq<char>>,
    alias: Seq<char>,
)
    requires
        install.to_set() == d.aliases,
        keys.to_set() == d.keys.dom(),
        is_alias_name(alias),
    ensures
        ({
            let cleared = removed(d, stale_aliases(install), stale_keys(keys));
            run_outcome(m, 0, cleared, Seq::empty()).0.aliases.contains(alias) <==> exists|i: int|
                #[trigger] activates(m, d, i, alias)
        }),
{
    let cleared = removed(d, stale_aliases(install), stale_keys(keys));
    lemma_clear_leaves_nothing(d, install, keys, alias);
    lemma_run_activates_the_installed(m, 0, cleared, Seq::empty(), alias);
    assert forall|i: int| activates(m, cleared, i, alias) == activates(m, d, i, alias) by {}
    if exists|i: int| 0 <= i && #[trigger] activates(m, cleared, i, alias) {
        let i = choose|i: int| 0 <= i && #[trigger] activates(m, cleared, i, alias);
        assert(activates(m, d, i, alias));
    }
    if exists|i: int| #[trigger] activates(m, d, i, alias) {
        let i = choose|i: int| #[trigger] activates(m, d, i, alias);
        assert(0 <= i && activates(m, cleared, i, alias));
    }
}

} // verus!
