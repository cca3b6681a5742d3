//! The configuration of a run: the download tool's account and the mods wanted.

pub mod mod_entry;
pub mod mods_config;
pub mod server_config;

use crate::config::mod_entry::ModEntryView;
use crate::layout::push_text;
use crate::text::{blank, decimal_digits, decimal_string, is_blank};
use vstd::prelude::*;
use vstd::string::StringExecFns;

pub use mods_config::ModsConfig;
pub use server_config::ServerConfig;

verus! {

/// The whole configuration.
#[derive(Debug, Clone)]
pub struct Config {
    pub server: ServerConfig,
    pub mods: ModsConfig,
}

/// The line of the summary for the mod at `index` of the list.
pub open spec fn mod_line(index: int, entry: ModEntryView) -> Seq<char> {
    "    "@ + decimal_digits((index + 1) as nat) + ". "@ + entry.name + " ("@ + decimal_digits(
        entry.id as nat,
    ) + ")"@
}

/// The lines of the summary for the mods configured one by one: none where
/// the configuration has no list, one that says so where the list is empty,
/// else a heading and a numbered line for each mod.
pub open spec fn mod_lines(list: Option<Seq<ModEntryView>>) -> Seq<Seq<char>> {
    match list {
        None => Seq::empty(),
        Some(mods) => if mods.len() == 0 {
            seq!["  Individual mods: (none)"@]
        } else {
            seq!["  Individual mods:"@] + Seq::new(mods.len(), |i: int| mod_line(i, mods[i]))
        },
    }
}

/// The line of the summary for the collection: none where no address is
/// given or the address is blank.
pub open spec fn collection_lines(url: Option<Seq<char>>) -> Seq<Seq<char>> {
    match url {
        Some(address) => if is_blank(address) {
            Seq::empty()
        } else {
            seq!["  Collection URL: "@ + address]
        },
        None => Seq::empty(),
    }
}

/// The summary of a configuration, line by line.
pub open spec fn summary_text(
    steamcmd_dir: Seq<char>,
    username: Seq<char>,
    install_dir: Seq<char>,
    list: Option<Seq<ModEntryView>>,
    url: Option<Seq<char>>,
) -> Seq<Seq<char>> {
    seq![
        ""@,
        "=== Configuration Summary ==="@,
        "Server:"@,
        "  steamcmd_dir: "@ + steamcmd_dir,
        "  username: "@ + username,
        "  install_dir: "@ + install_dir,
        "Mods:"@,
    ] + mod_lines(list) + collection_lines(url) + seq![""@]
}

fn labelled(label: &str, value: &str) -> (r: String)
    ensures
        r@ == label@ + value@,
{
    let mut out = label.to_owned();
    out.append(value);
    out
}

impl Config {
    /// The mods configured one by one, where the configuration lists any.
    pub open spec fn mod_list(&self) -> Option<Seq<ModEntryView>> {
        match self.mods.server_mod_list {
            Some(list) => Some(list.deep_view()),
            None => None,
        }
    }

    /// The address of the collection, where the configuration gives one.
    pub open spec fn collection_url(&self) -> Option<Seq<char>> {
        match self.mods.mod_collection_url {
            Some(url) => Some(url@),
            None => None,
        }
    }

    /// The summary of the configuration, line by line, for the server in
    /// `server_install_dir`.
    pub fn print_summary(&self, server_install_dir: &str) -> (r: Vec<String>)
        ensures
            r.deep_view() == summary_text(
                self.server.steamcmd_dir@,
                self.server.username@,
                server_install_dir@,
                self.mod_list(),
                self.collection_url(),
            ),
    {
        let mut out: Vec<String> = Vec::new();
        assert(out.deep_view() =~= Seq::empty());
        push_text(&mut out, "");
        push_text(&mut out, "=== Configuration Summary ===");
        push_text(&mut out, "Server:");
        let line = labelled("  steamcmd_dir: ", self.server.steamcmd_dir.as_str());
        push_text(&mut out, line.as_str());
        let line = labelled("  username: ", self.server.username.as_str());
        push_text(&mut out, line.as_str());
        let line = labelled("  install_dir: ", server_install_dir);
        push_text(&mut out, line.as_str());
        push_text(&mut out, "Mods:");
        let ghost head = out.deep_view();
        let ghost list = self.mod_list();
        if let Some(mods) = &self.mods.server_mod_list {
            if mods.len() == 0 {
                push_text(&mut out, "  Individual mods: (none)");
            } else {
                push_text(&mut out, "  Individual mods:");
                let ghost all = Seq::new(
                    mods.deep_view().len(),
                    |i: int| mod_line(i, mods.deep_view()[i]),
                );
                let mut i: usize = 0;
                assert(out.deep_view() =~= head + seq!["  Individual mods:"@] + all.take(0));
                while i < mods.len()
                    invariant
                        i <= mods.len(),
                        all == Seq::new(
                            mods.deep_view().len(),
                            |i: int| mod_line(i, mods.deep_view()[i]),
                        ),
                        out.deep_view() == head + seq!["  Individual mods:"@] + all.take(i as int),
                    decreases mods.len() - i,
                {
                    let ghost before = out.deep_view();
                    let mut line = String::from_str("    ");
                    let number = decimal_string((i + 1) as u64);
                    line.append(number.as_str());
                    line.append(". ");
                    line.append(mods[i].name.as_str());
                    line.append(" (");
                    let id = decimal_string(mods[i].id);
                    line.append(id.as_str());
                    line.append(")");
                    assert(mods.deep_view()[i as int] == mods@[i as int]@);
                    assert(line@ =~= all[i as int]);
                    push_text(&mut out, line.as_str());
                    assert(head + seq!["  Individual mods:"@] + all.take(i + 1) =~= before.push(
                        all[i as int],
                    ));
                    i += 1;
                }
                assert(all.take(mods.len() as int) =~= all);
            }
        }
        assert(out.deep_view() =~= head + mod_lines(list));
        let ghost body = out.deep_view();
        if let Some(url) = &self.mods.mod_collection_url {
            if !blank(url.as_str()) {
                let line = labelled("  Collection URL: ", url.as_str());
                push_text(&mut out, line.as_str());
            }
        }
        push_text(&mut out, "");
        assert(out.deep_view() =~= body + collection_lines(self.collection_url()) + seq![""@]);
        out
    }
}

} // verus!
