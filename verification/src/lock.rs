//! The mark that a directory is managed: a lock file, written once. The
//! time that it records is read by the `chrono` crate.

use vstd::prelude::*;
use vstd::string::StringExecFns;

verus! {

/// The name of the lock file.
pub open spec fn lock_file_name() -> Seq<char> {
    ".dzsm.lock"@
}

/// The format of the time of creation that the lock file holds.
pub open spec fn created_format() -> Seq<char> {
    "%Y-%m-%d %H:%M:%S UTC"@
}

/// What the lock file holds: the version that wrote it and the time of
/// that.
pub open spec fn lock_text(version: Seq<char>, created: Seq<char>) -> Seq<char> {
    "Managed by DZSM v"@ + version + " - DayZ Server Manager\nCreated: "@ + created + "\n"@
}

/// The name of the lock file.
pub fn lock_file() -> (r: &'static str)
    ensures
        r@ == lock_file_name(),
{
    ".dzsm.lock"
}

/// The format in which the time of creation is written.
pub fn timestamp_format() -> (r: &'static str)
    ensures
        r@ == created_format(),
{
    "%Y-%m-%d %H:%M:%S UTC"
}

/// Whether the directory is set up already: it is where the lock file
/// exists, and then nothing has to be asked or written.
pub fn check_if_initialized(lock_exists: bool) -> (r: bool)
    ensures
        r == lock_exists,
{
    lock_exists
}

/// Calls `Utc::now` and `DateTime::format` of chrono and writes the result
/// out: the present time in the format given. Nothing is claimed of the
/// text, which differs from call to call.
#[verifier::external_body]
fn utc_now(format: &str) -> (r: String)
    requires
        format@ == created_format(),
{
    chrono::Utc::now().format(format).to_string()
}

/// Sets the directory up where the user agreed: the text to write into the
/// lock file, with the present time in it, or nothing where the user
/// declined.
pub fn initialize(agreed: bool, version: &str) -> (r: Option<String>)
    ensures
        match r {
            Some(text) => agreed && exists|created: Seq<char>|
                text@ == #[trigger] lock_text(version@, created),
            None => !agreed,
        },
{
    if agreed {
        Some(create_lock_file(version))
    } else {
        None
    }
}

/// The text of the lock file, with the present time in it.
pub fn create_lock_file(version: &str) -> (r: String)
    ensures
        exists|created: Seq<char>| r@ == #[trigger] lock_text(version@, created),
{
    let created = utc_now(timestamp_format());
    lock_content(version, created.as_str())
}

/// The text of the lock file for a given time of creation.
pub fn lock_content(version: &str, created: &str) -> (r: String)
    ensures
        r@ == lock_text(version@, created@),
{
    let mut text = String::from_str("Managed by DZSM v");
    text.append(version);
    text.append(" - DayZ Server Manager\nCreated: ");
    text.append(created);
    text.append("\n");
    text
}

} // verus!
