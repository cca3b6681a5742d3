//! The names of what lies on disk: the activation alias of a mod, the files
//! that count as signature keys, and the one key that is never touched.

use crate::text::{begins_with, chars_of, lowercase, same_text, starts_with_char, to_lowercase};
use vstd::prelude::*;
use vstd::string::StrSliceExecFns;
use vstd::string::StringExecFns;

verus! {

/// The name of the activation alias of the mod called `name`.
pub open spec fn alias_name(name: Seq<char>) -> Seq<char> {
    seq!['@'] + name
}

/// Whether a directory entry is an activation alias.
pub open spec fn is_alias_name(entry: Seq<char>) -> bool {
    begins_with(entry, '@')
}

/// The name of the activation alias of the mod called `name`.
pub fn alias_for(name: &str) -> (r: String)
    ensures
        r@ == alias_name(name@),
{
    proof {
        reveal_strlit("@");
    }
    let mut out = String::from_str("@");
    out.append(name);
    assert(out@ =~= alias_name(name@));
    out
}

/// Whether a directory entry is an activation alias.
pub fn is_alias(entry: &str) -> (r: bool)
    ensures
        r == is_alias_name(entry@),
{
    starts_with_char(entry, '@')
}

/// The index of the last `.` before `end`, or -1 where there is none.
pub open spec fn last_dot(name: Seq<char>, end: int) -> int
    decreases end,
{
    if end <= 0 {
        -1
    } else if name[end - 1] == '.' {
        end - 1
    } else {
        last_dot(name, end - 1)
    }
}

/// The extension of a file name: what follows its last `.`, unless the name
/// has no `.`, has its only `.` in front, or is `..`.
pub open spec fn extension(name: Seq<char>) -> Option<Seq<char>> {
    let dot = last_dot(name, name.len() as int);
    if dot <= 0 || name =~= seq!['.', '.'] {
        None
    } else {
        Some(name.subrange(dot + 1, name.len() as int))
    }
}

/// The extension of a file name.
pub fn file_extension(name: &str) -> (r: Option<String>)
    ensures
        match r {
            Some(e) => extension(name@) == Some(e@),
            None => extension(name@) is None,
        },
{
    let chars = chars_of(name);
    let n = chars.len();
    if n == 2 && chars[0] == '.' && chars[1] == '.' {
        assert(name@ =~= seq!['.', '.']);
        return None;
    }
    let mut end: usize = n;
    while end > 0 && chars[end - 1] != '.'
        invariant
            end <= n,
            n == chars@.len(),
            last_dot(chars@, n as int) == last_dot(chars@, end as int),
        decreases end,
    {
        end -= 1;
    }
    if end <= 1 {
        return None;
    }
    assert(!(name@ =~= seq!['.', '.'])) by {
        if name@ =~= seq!['.', '.'] {
            assert(seq!['.', '.'][0] == '.');
            assert(seq!['.', '.'][1] == '.');
        }
    }
    Some(name.substring_char(end, n).to_owned())
}

/// The extension that marks a signature key, in lower case.
pub open spec fn key_extension() -> Seq<char> {
    "bikey"@
}

/// The name of the reserved key, in lower case.
pub open spec fn reserved_key() -> Seq<char> {
    "dayz.bikey"@
}

/// Whether a file name is that of a signature key: its extension is the key
/// extension, whatever the case of its letters.
pub open spec fn is_key_file_name(name: Seq<char>) -> bool {
    match extension(name) {
        Some(e) => lowercase(e) == key_extension(),
        None => false,
    }
}

/// Whether a file name is that of the reserved key, whatever the case of its
/// letters.
pub open spec fn is_reserved_key_name(name: Seq<char>) -> bool {
    lowercase(name) == reserved_key()
}

/// Whether an extension, already in lower case, is the key extension.
pub fn is_key_extension(lowered: &str) -> (r: bool)
    ensures
        r == (lowered@ == key_extension()),
{
    same_text(lowered, "bikey")
}

/// Whether a file name, already in lower case, is that of the reserved key.
pub fn is_reserved_name(lowered: &str) -> (r: bool)
    ensures
        r == (lowered@ == reserved_key()),
{
    same_text(lowered, "dayz.bikey")
}

/// Whether a file name is that of a signature key.
pub fn is_key_file(name: &str) -> (r: bool)
    ensures
        r == is_key_file_name(name@),
{
    match file_extension(name) {
        Some(e) => {
            let lowered = to_lowercase(e.as_str());
            is_key_extension(lowered.as_str())
        },
        None => false,
    }
}

/// Whether a file name is that of the reserved key.
pub fn is_reserved_key(name: &str) -> (r: bool)
    ensures
        r == is_reserved_key_name(name@),
{
    let lowered = to_lowercase(name);
    is_reserved_name(lowered.as_str())
}

/// The names that are those of signature keys, in their order.
pub open spec fn key_file_names(listing: Seq<Seq<char>>) -> Seq<Seq<char>> {
    listing.filter(|n: Seq<char>| is_key_file_name(n))
}

/// The entries that are signature keys, in their order.
pub fn key_files(listing: &Vec<String>) -> (r: Vec<String>)
    ensures
        r.deep_view() == key_file_names(listing.deep_view()),
{
    let ghost pred = |n: Seq<char>| is_key_file_name(n);
    let mut out: Vec<String> = Vec::new();
    let mut i: usize = 0;
    while i < listing.len()
        invariant
            i <= listing.len(),
            pred == |n: Seq<char>| is_key_file_name(n),
            out.deep_view() == listing.deep_view().take(i as int).filter(pred),
        decreases listing.len() - i,
    {
        let ghost before = listing.deep_view().take(i as int);
        let ghost item = listing@[i as int]@;
        proof {
            assert(listing.deep_view().take(i + 1) =~= before.push(item));
            before.lemma_filter_push(item, pred);
        }
        if is_key_file(listing[i].as_str()) {
            let ghost old_out = out.deep_view();
            out.push(listing[i].clone());
            assert(out.deep_view() =~= old_out.push(item));
        }
        i += 1;
    }
    assert(listing.deep_view().take(listing.len() as int) =~= listing.deep_view());
    out
}

/// A place on disk: a base directory and the names that lead on from it,
/// one directory level each.
#[derive(Debug, PartialEq, Eq)]
pub struct Location {
    pub base: String,
    pub parts: Vec<String>,
}

/// A `Location` as a plain value.
pub struct LocationView {
    pub base: Seq<char>,
    pub parts: Seq<Seq<char>>,
}

impl View for Location {
    type V = LocationView;

    open spec fn view(&self) -> LocationView {
        LocationView { base: self.base@, parts: self.parts.deep_view() }
    }
}

/// Appends a copy of `text` to the list.
pub fn push_text(list: &mut Vec<String>, text: &str)
    ensures
        final(list).deep_view() == old(list).deep_view().push(text@),
{
    let ghost before = list.deep_view();
    list.push(text.to_owned());
    assert(list.deep_view() =~= before.push(text@));
}

impl Location {
    /// The base directory itself.
    pub fn new(base: &str) -> (r: Location)
        ensures
            r@ == (LocationView { base: base@, parts: Seq::empty() }),
    {
        let parts: Vec<String> = Vec::new();
        assert(parts.deep_view() =~= Seq::empty());
        Location { base: base.to_owned(), parts }
    }

    /// The place called `part` directly below this one.
    pub fn join(self, part: &str) -> (r: Location)
        ensures
            r@ == (LocationView { base: self@.base, parts: self@.parts.push(part@) }),
    {
        let mut place = self;
        push_text(&mut place.parts, part);
        place
    }
}

} // verus!
