use crate::text::{parse_u64, parsed_u64};
use vstd::prelude::*;
use vstd::string::StringExecFns;

verus! {

/// One mod: its package identifier and its display name, which is also the
/// suffix of its activation directory.
#[derive(Debug, PartialEq, Eq)]
pub struct ModEntry {
    pub id: u64,
    pub name: String,
}

/// A mod entry as a plain value.
pub struct ModEntryView {
    pub id: u64,
    pub name: Seq<char>,
}

impl View for ModEntry {
    type V = ModEntryView;

    open spec fn view(&self) -> ModEntryView {
        ModEntryView { id: self.id, name: self.name@ }
    }
}

impl DeepView for ModEntry {
    type V = ModEntryView;

    open spec fn deep_view(&self) -> ModEntryView {
        self@
    }
}

impl Clone for ModEntry {
    fn clone(&self) -> (r: Self)
        ensures
            r == *self,
    {
        ModEntry { id: self.id, name: self.name.clone() }
    }
}

/// Why a configured pair is no mod entry.
#[derive(Debug, PartialEq, Eq)]
pub enum ModEntryError {
    /// The identifier is no decimal number that fits in 64 bits; it is kept
    /// as it was written.
    InvalidWorkshopID(String),
}

impl ModEntryError {
    /// The text shown for this error.
    pub fn message(&self) -> (r: String)
        ensures
            match self {
                ModEntryError::InvalidWorkshopID(s) => r@ == "Invalid format: "@ + s@,
            },
    {
        match self {
            ModEntryError::InvalidWorkshopID(s) => {
                let mut out = String::from_str("Invalid format: ");
                out.append(s.as_str());
                out
            },
        }
    }
}

impl ModEntry {
    /// Reads an entry written as a pair of identifier and name. The
    /// identifier must be a decimal number; the name is taken as it is.
    pub fn try_from(value: (String, String)) -> (r: Result<ModEntry, ModEntryError>)
        ensures
            match parsed_u64(value.0@) {
                Some(id) => r matches Ok(entry) && entry@ == (ModEntryView {
                    id,
                    name: value.1@,
                }),
                None => r matches Err(ModEntryError::InvalidWorkshopID(s)) && s@ == value.0@,
            },
    {
        let (id, name) = value;
        match parse_u64(id.as_str()) {
            Some(workshop_id) => Ok(ModEntry { id: workshop_id, name }),
            None => Err(ModEntryError::InvalidWorkshopID(id)),
        }
    }
}

/// Copies a list of entries.
pub fn clone_entries(list: &Vec<ModEntry>) -> (r: Vec<ModEntry>)
    ensures
        r@ == list@,
{
    let mut out: Vec<ModEntry> = Vec::new();
    let mut i: usize = 0;
    while i < list.len()
        invariant
            i <= list.len(),
            out@ == list@.take(i as int),
        decreases list.len() - i,
    {
        out.push(list[i].clone());
        i += 1;
    }
    assert(list@.take(list.len() as int) =~= list@);
    out
}

} // verus!
