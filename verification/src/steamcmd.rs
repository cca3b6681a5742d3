//! The download tool: where it lives, how it is called, whether it is ready,
//! and what its archive unpacks to. Running it and writing to disk are the
//! caller's. The archive is read by the `zip` crate.

use crate::layout::{push_text, Location, LocationView};
use crate::text::{decimal_digits, decimal_string};
use crate::transfer::{Request, Response};
use std::io::{Cursor, Read};
use vstd::prelude::*;
use vstd::string::StringExecFns;

verus! {

/// Why the download tool is not ready.
#[derive(Debug, PartialEq, Eq)]
pub enum SetupError {
    /// The tool is missing and its directory holds other things.
    DirectoryNotEmpty,
    /// The user declined the installation of the tool.
    Declined,
    /// The transfer of the tool's archive failed; the message.
    Transfer(String),
    /// The server answered the request for the archive with this status.
    Http(u32),
    /// The archive came back empty.
    EmptyDownload,
    /// The archive cannot be read.
    Archive,
}

/// A `SetupError` as a plain value.
pub enum SetupErrorView {
    DirectoryNotEmpty,
    Declined,
    Transfer(Seq<char>),
    Http(u32),
    EmptyDownload,
    Archive,
}

impl View for SetupError {
    type V = SetupErrorView;

    open spec fn view(&self) -> SetupErrorView {
        match self {
            SetupError::DirectoryNotEmpty => SetupErrorView::DirectoryNotEmpty,
            SetupError::Declined => SetupErrorView::Declined,
            SetupError::Transfer(m) => SetupErrorView::Transfer(m@),
            SetupError::Http(code) => SetupErrorView::Http(*code),
            SetupError::EmptyDownload => SetupErrorView::EmptyDownload,
            SetupError::Archive => SetupErrorView::Archive,
        }
    }
}

/// The text shown for an error of the setup.
pub open spec fn setup_error_text(e: SetupErrorView) -> Seq<char> {
    match e {
        SetupErrorView::DirectoryNotEmpty =>
            "SteamCMD directory is not empty. Please clear the directory or choose a different path in config.toml"@,
        SetupErrorView::Declined => "SteamCMD installation declined by user"@,
        SetupErrorView::Transfer(m) => m,
        SetupErrorView::Http(code) => "HTTP error "@ + decimal_digits(code as nat)
            + ": Failed to download SteamCMD"@,
        SetupErrorView::EmptyDownload => "Downloaded file is empty"@,
        SetupErrorView::Archive => "Failed to read zip archive"@,
    }
}

impl SetupError {
    /// The text shown for this error.
    pub fn message(&self) -> (r: String)
        ensures
            r@ == setup_error_text(self@),
    {
        match self {
            SetupError::DirectoryNotEmpty => String::from_str(
                "SteamCMD directory is not empty. Please clear the directory or choose a different path in config.toml",
            ),
            SetupError::Declined => String::from_str("SteamCMD installation declined by user"),
            SetupError::Transfer(m) => m.clone(),
            SetupError::Http(code) => {
                let mut out = String::from_str("HTTP error ");
                let number = decimal_string(*code as u64);
                out.append(number.as_str());
                out.append(": Failed to download SteamCMD");
                out
            },
            SetupError::EmptyDownload => String::from_str("Downloaded file is empty"),
            SetupError::Archive => String::from_str("Failed to read zip archive"),
        }
    }
}

/// Whether the tool is ready, or what has to be done first.
#[derive(Debug, Clone, Copy, PartialEq, Eq, Structural)]
pub enum Setup {
    /// The tool is installed.
    Ready,
    /// The tool is to be installed, after its directory has been created
    /// where `create_dir` says so, and after the user has agreed.
    Install { create_dir: bool },
}

/// An entry of an archive: its name, whether it is a directory, and its
/// contents.
pub type ArchiveEntry = (String, bool, Vec<u8>);

/// An `ArchiveEntry` as a plain value.
pub type ArchiveEntryView = (Seq<char>, bool, Seq<u8>);

/// What is to be written below the tool's directory for one entry of the
/// archive. The directories that lead to the name are created first.
#[derive(Debug, PartialEq, Eq)]
pub enum ExtractStep {
    /// Create the directory of this name.
    CreateDir { name: String },
    /// Write the file of this name, with these contents.
    WriteFile { name: String, contents: Vec<u8> },
}

/// An `ExtractStep` as a plain value.
pub enum ExtractStepView {
    CreateDir { name: Seq<char> },
    WriteFile { name: Seq<char>, contents: Seq<u8> },
}

impl View for ExtractStep {
    type V = ExtractStepView;

    open spec fn view(&self) -> ExtractStepView {
        match self {
            ExtractStep::CreateDir { name } => ExtractStepView::CreateDir { name: name@ },
            ExtractStep::WriteFile { name, contents } => ExtractStepView::WriteFile {
                name: name@,
                contents: contents@,
            },
        }
    }
}

impl DeepView for ExtractStep {
    type V = ExtractStepView;

    open spec fn deep_view(&self) -> ExtractStepView {
        self@
    }
}

/// The entries of a zip archive, in the order of their indices; nothing
/// where the bytes are no archive that can be read to its end.
pub uninterp spec fn archive_entries(data: Seq<u8>) -> Option<Seq<ArchiveEntryView>>;

/// Calls `ZipArchive::new`, `ZipArchive::len`, `ZipArchive::by_index`,
/// `ZipFile::name`, `ZipFile::is_dir` of zip and reads each entry to its end.
/// The contract names the result: it depends on the bytes alone. No more is
/// claimed of it.
#[verifier::external_body]
fn read_archive(data: &Vec<u8>) -> (r: Option<Vec<ArchiveEntry>>)
    ensures
        r.deep_view() == archive_entries(data@),
{
    let mut archive = zip::ZipArchive::new(Cursor::new(data.as_slice())).ok()?;
    let mut entries = Vec::new();
    for index in 0..archive.len() {
        let mut file = archive.by_index(index).ok()?;
        let name = file.name().ok()?.into_owned();
        let mut contents = Vec::new();
        file.read_to_end(&mut contents).ok()?;
        entries.push((name, file.is_dir(), contents));
    }
    Some(entries)
}

/// What is written for one entry: a directory for a directory, else the
/// file with its contents.
pub open spec fn extract_step(entry: ArchiveEntryView) -> ExtractStepView {
    if entry.1 {
        ExtractStepView::CreateDir { name: entry.0 }
    } else {
        ExtractStepView::WriteFile { name: entry.0, contents: entry.2 }
    }
}

/// What is written for the entries of an archive, in their order.
pub open spec fn extract_steps(entries: Seq<ArchiveEntryView>) -> Seq<ExtractStepView> {
    entries.map_values(|e: ArchiveEntryView| extract_step(e))
}

/// The download tool in its directory.
#[derive(Debug, PartialEq, Eq)]
pub struct SteamCmdManager {
    steamcmd_dir: String,
}

impl View for SteamCmdManager {
    type V = Seq<char>;

    closed spec fn view(&self) -> Seq<char> {
        self.steamcmd_dir@
    }
}

/// The arguments that install or update an application.
pub open spec fn app_update_args(
    install_dir: Seq<char>,
    username: Seq<char>,
    app_id: u32,
    validate: bool,
) -> Seq<Seq<char>> {
    seq![
        "+force_install_dir"@,
        install_dir,
        "+login"@,
        username,
        "+app_update"@,
        decimal_digits(app_id as nat),
    ] + (if validate {
        seq!["validate"@]
    } else {
        Seq::empty()
    }) + seq!["+quit"@]
}

/// The arguments that download or update a workshop package.
pub open spec fn workshop_download_args(
    username: Seq<char>,
    app_id: u32,
    workshop_id: u64,
    validate: bool,
) -> Seq<Seq<char>> {
    seq![
        "+login"@,
        username,
        "+workshop_download_item"@,
        decimal_digits(app_id as nat),
        decimal_digits(workshop_id as nat),
    ] + (if validate {
        seq!["validate"@]
    } else {
        Seq::empty()
    }) + seq!["+quit"@]
}

/// The names that lead from the tool's directory to the packages of a game.
pub open spec fn workshop_content_parts(game_app_id: u32) -> Seq<Seq<char>> {
    seq!["steamapps"@, "workshop"@, "content"@, decimal_digits(game_app_id as nat)]
}

impl SteamCmdManager {
    /// The tool in the directory `steamcmd_dir`.
    pub fn new(steamcmd_dir: &str) -> (r: SteamCmdManager)
        ensures
            r@ == steamcmd_dir@,
    {
        SteamCmdManager { steamcmd_dir: steamcmd_dir.to_owned() }
    }

    /// The arguments that make the tool install or update the application
    /// `app_id` in `install_dir`, logged in as `username`, checking the
    /// installed files where `validate` is set.
    pub fn install_or_update_app(
        &self,
        install_dir: &str,
        username: &str,
        app_id: u32,
        validate: bool,
    ) -> (r: Vec<String>)
        ensures
            r.deep_view() == app_update_args(install_dir@, username@, app_id, validate),
    {
        let mut args: Vec<String> = Vec::new();
        assert(args.deep_view() =~= Seq::empty());
        push_text(&mut args, "+force_install_dir");
        push_text(&mut args, install_dir);
        push_text(&mut args, "+login");
        push_text(&mut args, username);
        push_text(&mut args, "+app_update");
        let id = decimal_string(app_id as u64);
        push_text(&mut args, id.as_str());
        if validate {
            push_text(&mut args, "validate");
        }
        push_text(&mut args, "+quit");
        assert(args.deep_view() =~= app_update_args(install_dir@, username@, app_id, validate));
        args
    }

    /// The arguments that make the tool download or update the workshop
    /// package `workshop_id` of the game `app_id`, logged in as `username`,
    /// checking the cached files where `validate` is set.
    pub fn download_or_update_mod(
        &self,
        username: &str,
        app_id: u32,
        workshop_id: u64,
        validate: bool,
    ) -> (r: Vec<String>)
        ensures
            r.deep_view() == workshop_download_args(username@, app_id, workshop_id, validate),
    {
        let mut args: Vec<String> = Vec::new();
        assert(args.deep_view() =~= Seq::empty());
        push_text(&mut args, "+login");
        push_text(&mut args, username);
        push_text(&mut args, "+workshop_download_item");
        let app = decimal_string(app_id as u64);
        push_text(&mut args, app.as_str());
        let item = decimal_string(workshop_id);
        push_text(&mut args, item.as_str());
        if validate {
            push_text(&mut args, "validate");
        }
        push_text(&mut args, "+quit");
        assert(args.deep_view() =~= workshop_download_args(
            username@,
            app_id,
            workshop_id,
            validate,
        ));
        args
    }

    /// Where the tool's executable lies.
    pub fn get_exe_path(&self) -> (r: Location)
        ensures
            r@ == (LocationView { base: self@, parts: seq!["steamcmd.exe"@] }),
    {
        let r = Location::new(self.steamcmd_dir.as_str()).join("steamcmd.exe");
        assert(r@.parts =~= seq!["steamcmd.exe"@]);
        r
    }

    /// Where the tool caches the workshop packages of a game.
    pub fn get_workshop_content_dir(&self, game_app_id: u32) -> (r: Location)
        ensures
            r@ == (LocationView { base: self@, parts: workshop_content_parts(game_app_id) }),
    {
        let id = decimal_string(game_app_id as u64);
        let r = Location::new(self.steamcmd_dir.as_str()).join("steamapps").join("workshop").join(
            "content",
        ).join(id.as_str());
        assert(r@.parts =~= workshop_content_parts(game_app_id));
        r
    }

    /// Where the tool caches one workshop package: in the directory named by
    /// its identifier, below the packages of its game.
    pub fn get_workshop_mod_dir(&self, game_app_id: u32, workshop_id: u64) -> (r: Location)
        ensures
            r@ == (LocationView {
                base: self@,
                parts: workshop_content_parts(game_app_id).push(
                    decimal_digits(workshop_id as nat),
                ),
            }),
    {
        let id = decimal_string(workshop_id);
        self.get_workshop_content_dir(game_app_id).join(id.as_str())
    }

    /// Decides from what is on disk whether the tool is ready. It is where
    /// its executable exists. Else it can be installed into a directory that
    /// does not exist yet or is empty; a directory that holds anything is
    /// refused.
    pub fn check_and_install(&self, exe_exists: bool, dir_exists: bool, dir_empty: bool) -> (r:
        Result<Setup, SetupError>)
        ensures
            r == if exe_exists {
                Ok::<Setup, SetupError>(Setup::Ready)
            } else if dir_exists && !dir_empty {
                Err(SetupError::DirectoryNotEmpty)
            } else {
                Ok(Setup::Install { create_dir: !dir_exists })
            },
    {
        if exe_exists {
            Ok(Setup::Ready)
        } else if dir_exists && !dir_empty {
            Err(SetupError::DirectoryNotEmpty)
        } else {
            Ok(Setup::Install { create_dir: !dir_exists })
        }
    }

    /// What is to be written for the entries of the tool's archive, one step
    /// for each entry, in their order.
    pub fn steps_for(entries: Vec<ArchiveEntry>) -> (r: Vec<ExtractStep>)
        ensures
            r.deep_view() == extract_steps(entries.deep_view()),
    {
        let ghost list = entries@;
        let ghost all = extract_steps(entries.deep_view());
        let mut steps: Vec<ExtractStep> = Vec::new();
        assert(steps.deep_view() =~= all.take(0));
        for entry in it: entries
            invariant
                it.seq() == list,
                all.len() == list.len(),
                forall|k: int| 0 <= k < list.len() ==> all[k] == extract_step(list[k].deep_view()),
                steps.deep_view() == all.take(it.index() as int),
        {
            let ghost index = it.index() as int;
            let ghost before = steps.deep_view();
            let (name, is_dir, contents) = entry;
            assert(list[index].deep_view() == (name@, is_dir, contents@));
            if is_dir {
                steps.push(ExtractStep::CreateDir { name });
            } else {
                steps.push(ExtractStep::WriteFile { name, contents });
            }
            assert(steps.deep_view() =~= before.push(all[index]));
            assert(all.take(index + 1) =~= before.push(all[index]));
        }
        assert(all.take(list.len() as int) =~= all);
        steps
    }

    /// What is to be written to unpack the tool's archive, or the error
    /// where the archive cannot be read.
    pub fn extract_zip(&self, zip_data: &Vec<u8>) -> (r: Result<Vec<ExtractStep>, SetupError>)
        ensures
            match archive_entries(zip_data@) {
                Some(entries) => r matches Ok(steps) && steps.deep_view() == extract_steps(entries),
                None => r matches Err(e) && e@ == SetupErrorView::Archive,
            },
    {
        match read_archive(zip_data) {
            Some(entries) => Ok(Self::steps_for(entries)),
            None => Err(SetupError::Archive),
        }
    }

    /// Takes the user's answer to the question whether the tool is to be
    /// installed.
    pub fn confirm_install(answer: bool) -> (r: Result<(), SetupError>)
        ensures
            r == if answer {
                Ok::<(), SetupError>(())
            } else {
                Err(SetupError::Declined)
            },
    {
        if answer {
            Ok(())
        } else {
            Err(SetupError::Declined)
        }
    }

    /// The request for the tool's archive: redirects are followed, and the
    /// transfer may take a minute.
    pub fn download_request() -> (r: Request)
        ensures
            r.url@ == "https://steamcdn-a.akamaihd.net/client/installer/steamcmd.zip"@,
            r.follow_redirects,
            r.timeout_seconds == 60,
            r.user_agent is None,
    {
        Request {
            url: String::from_str("https://steamcdn-a.akamaihd.net/client/installer/steamcmd.zip"),
            follow_redirects: true,
            timeout_seconds: 60,
            user_agent: None,
        }
    }

    /// Takes what the transfer of the archive brought and hands out the
    /// archive: the body of a response with status 200 that is not empty.
    pub fn download_and_install(&self, outcome: Result<Response, String>) -> (r: Result<
        Vec<u8>,
        SetupError,
    >)
        ensures
            match outcome {
                Err(message) => r matches Err(SetupError::Transfer(m)) && m@ == message@,
                Ok(response) => if response.code != 200 {
                    r == Err::<Vec<u8>, SetupError>(SetupError::Http(response.code))
                } else if response.body@.len() == 0 {
                    r == Err::<Vec<u8>, SetupError>(SetupError::EmptyDownload)
                } else {
                    r matches Ok(data) && data@ == response.body@
                },
            },
    {
        match outcome {
            Err(message) => Err(SetupError::Transfer(message)),
            Ok(response) => {
                if response.code != 200 {
                    Err(SetupError::Http(response.code))
                } else if response.body.len() == 0 {
                    Err(SetupError::EmptyDownload)
                } else {
                    Ok(response.body)
                }
            },
        }
    }
}

} // verus!
