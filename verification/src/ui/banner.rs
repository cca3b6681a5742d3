//! The banner, centred in the terminal. The size of the terminal is asked of
//! the `term_size` crate.

use crate::text::{join, joined, repeat, repeated, split, split_on, trim, trimmed};
use vstd::prelude::*;
use vstd::string::StrSliceExecFns;
use vstd::string::StringExecFns;

verus! {

/// The spaces in front of a line of `length` characters that centres it in
/// a terminal of `width` columns.
pub open spec fn padding(width: nat, length: nat) -> nat {
    if width > length {
        ((width - length) / 2) as nat
    } else {
        0
    }
}

/// A line, centred.
pub open spec fn centred(line: Seq<char>, width: nat) -> Seq<char> {
    repeated(" "@, padding(width, line.len())) + line
}

/// The line that names the program and its version.
pub open spec fn title_text(version: Seq<char>) -> Seq<char> {
    "DZSM v"@ + version + " - DayZ Server Manager"@
}

/// The line that names the authors, who are written with `:` between them.
pub open spec fn authors_text(authors: Seq<char>) -> Seq<char> {
    let names = split_on(authors, ':').map_values(|a: Seq<char>| trimmed(a));
    if names.len() == 1 {
        "Author: "@ + names[0]
    } else {
        "Authors: "@ + joined(names, ", "@)
    }
}

/// The banner as it is shown: an empty line, the lines of the picture, an
/// empty line, the title, the authors, and an empty line; all but the empty
/// ones centred.
pub open spec fn banner_text(
    picture: Seq<Seq<char>>,
    version: Seq<char>,
    authors: Seq<char>,
    width: nat,
) -> Seq<Seq<char>> {
    seq![Seq::empty()] + picture.map_values(|l: Seq<char>| centred(l, width)) + seq![
        Seq::empty(),
        centred(title_text(version), width),
        centred(authors_text(authors), width),
        Seq::empty(),
    ]
}

/// A line, centred in a terminal of `width` columns.
pub fn centre(line: &str, width: usize) -> (r: String)
    ensures
        r@ == centred(line@, width as nat),
{
    let length = line.unicode_len();
    let pad = if width > length {
        (width - length) / 2
    } else {
        0
    };
    let mut out = repeat(" ", pad);
    out.append(line);
    out
}

/// The line that names the authors.
pub fn authors_line(authors: &str) -> (r: String)
    ensures
        r@ == authors_text(authors@),
{
    let pieces = split(authors, ':');
    let ghost all = split_on(authors@, ':').map_values(|a: Seq<char>| trimmed(a));
    let mut names: Vec<String> = Vec::new();
    let mut i: usize = 0;
    assert(names.deep_view() =~= all.take(0));
    while i < pieces.len()
        invariant
            i <= pieces.len(),
            pieces.deep_view() == split_on(authors@, ':'),
            all == split_on(authors@, ':').map_values(|a: Seq<char>| trimmed(a)),
            names.deep_view() == all.take(i as int),
        decreases pieces.len() - i,
    {
        let ghost before = names.deep_view();
        let name = trim(pieces[i].as_str());
        assert(pieces.deep_view()[i as int] == pieces@[i as int]@);
        names.push(name);
        assert(names.deep_view() =~= before.push(all[i as int]));
        assert(all.take(i + 1) =~= before.push(all[i as int]));
        i += 1;
    }
    assert(all.take(pieces.len() as int) =~= all);
    if names.len() == 1 {
        let mut out = String::from_str("Author: ");
        out.append(names[0].as_str());
        assert(names.deep_view()[0] == names@[0]@);
        out
    } else {
        let mut out = String::from_str("Authors: ");
        let list = join(&names, ", ");
        out.append(list.as_str());
        out
    }
}

/// Calls `dimensions` of term_size: the columns and rows of the terminal,
/// where there is one. Nothing is claimed of them.
#[verifier::external_body]
fn terminal_dimensions() -> (r: Option<(usize, usize)>) {
    term_size::dimensions()
}

/// The width to centre in: that of the terminal, or 80 columns where its
/// size is not known.
pub fn terminal_width(dimensions: Option<(usize, usize)>) -> (r: usize)
    ensures
        r == match dimensions {
            Some((columns, _)) => columns,
            None => 80,
        },
{
    match dimensions {
        Some((columns, _)) => columns,
        None => 80,
    }
}

/// The lines of the banner, centred in the terminal as it is now.
pub fn print_banner(picture: &Vec<String>, version: &str, authors: &str) -> (r: Vec<String>)
    ensures
        exists|width: nat|
            r.deep_view() == #[trigger] banner_text(picture.deep_view(), version@, authors@, width),
{
    let width = terminal_width(terminal_dimensions());
    banner_lines(picture, version, authors, width)
}

/// The lines of the banner, for a terminal of `term_width` columns.
pub fn banner_lines(picture: &Vec<String>, version: &str, authors: &str, term_width: usize) -> (r:
    Vec<String>)
    ensures
        r.deep_view() == banner_text(picture.deep_view(), version@, authors@, term_width as nat),
{
    let ghost width = term_width as nat;
    let ghost lines = picture.deep_view().map_values(|l: Seq<char>| centred(l, width));
    let mut out: Vec<String> = Vec::new();
    out.push(String::new());
    assert(out.deep_view() =~= seq![Seq::<char>::empty()] + lines.take(0));
    let mut i: usize = 0;
    while i < picture.len()
        invariant
            i <= picture.len(),
            width == term_width as nat,
            lines == picture.deep_view().map_values(|l: Seq<char>| centred(l, width)),
            out.deep_view() == seq![Seq::<char>::empty()] + lines.take(i as int),
        decreases picture.len() - i,
    {
        let ghost before = out.deep_view();
        let line = centre(picture[i].as_str(), term_width);
        assert(picture.deep_view()[i as int] == picture@[i as int]@);
        out.push(line);
        assert(out.deep_view() =~= before.push(lines[i as int]));
        assert(seq![Seq::<char>::empty()] + lines.take(i + 1) =~= before.push(lines[i as int]));
        i += 1;
    }
    assert(lines.take(picture.len() as int) =~= lines);
    let ghost before = out.deep_view();
    let mut title = String::from_str("DZSM v");
    title.append(version);
    title.append(" - DayZ Server Manager");
    assert(title@ =~= title_text(version@));
    let title_line = centre(title.as_str(), term_width);
    let names = authors_line(authors);
    let names_line = centre(names.as_str(), term_width);
    out.push(String::new());
    out.push(title_line);
    out.push(names_line);
    out.push(String::new());
    assert(out.deep_view() =~= before + seq![
        Seq::<char>::empty(),
        centred(title_text(version@), width),
        centred(authors_text(authors@), width),
        Seq::<char>::empty(),
    ]);
    out
}

} // verus!
