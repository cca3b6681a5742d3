//! Reading the mods out of a collection page. The page is taken apart by the
//! `scraper` crate; what is made of its links is decided here.

use crate::config::mod_entry::{ModEntry, ModEntryView};
use crate::text::{
    chars_of, find_in, first_occurrence, parse_u64, parsed_u64, trim, trimmed,
};
use scraper::{Html, Selector};
use vstd::prelude::*;
use vstd::string::StrSliceExecFns;

verus! {

/// Reads collection pages.
pub struct SteamCollectionParser;

/// Why a page gave no mods.
#[derive(Debug, Clone, Copy, PartialEq, Eq, Structural)]
pub enum ParseError {
    /// A selector could not be read.
    Selector,
    /// The page holds no link that names a mod.
    NoItems,
}

/// What a page holds of one link: the value of the attribute asked for and
/// the text of its first descendant that matches the inner selector, each
/// where there is one.
pub type Link = (Option<String>, Option<String>);

/// A `Link` as a plain value.
pub type LinkView = (Option<Seq<char>>, Option<Seq<char>>);

/// For each element of the page that matches `selector`, in the order in
/// which the page's parser hands them out: the value of its attribute
/// `attribute` and the text of its first descendant that matches `inner`.
/// Nothing where a selector cannot be read.
pub uninterp spec fn selected_links(
    html: Seq<char>,
    selector: Seq<char>,
    attribute: Seq<char>,
    inner: Seq<char>,
) -> Option<Seq<LinkView>>;

/// The text of each element of the page that matches `selector`, in the
/// order in which the page's parser hands them out. Nothing where the
/// selector cannot be read.
pub uninterp spec fn selected_texts(html: Seq<char>, selector: Seq<char>) -> Option<
    Seq<Seq<char>>,
>;

/// Calls `Selector::parse`, `Html::parse_document`, `Html::select`,
/// `Element::attr`, `ElementRef::select` and `ElementRef::text` of scraper.
/// The contract names the result: it depends on the four texts alone. No
/// more is claimed of it.
#[verifier::external_body]
fn select_links(html: &str, selector: &str, attribute: &str, inner: &str) -> (r: Option<
    Vec<Link>,
>)
    ensures
        r.deep_view() == selected_links(html@, selector@, attribute@, inner@),
{
    let outer = Selector::parse(selector).ok()?;
    let title = Selector::parse(inner).ok()?;
    let document = Html::parse_document(html);
    let links = document.select(&outer).map(
        |e| (
            e.value().attr(attribute).map(String::from),
            e.select(&title).next().map(|t| t.text().collect::<String>()),
        ),
    );
    Some(links.collect())
}

/// Calls `Selector::parse`, `Html::parse_document`, `Html::select` and
/// `ElementRef::text` of scraper. The contract names the result: it depends
/// on the two texts alone. No more is claimed of it.
#[verifier::external_body]
fn select_texts(html: &str, selector: &str) -> (r: Option<Vec<String>>)
    ensures
        r.deep_view() == selected_texts(html@, selector@),
{
    let parsed = Selector::parse(selector).ok()?;
    let document = Html::parse_document(html);
    Some(document.select(&parsed).map(|e| e.text().collect::<String>()).collect())
}

/// The identifier that an address names: what follows the first `?id=`, up
/// to the next `&` or to the end.
pub open spec fn mod_id_text(url: Seq<char>) -> Option<Seq<char>> {
    match first_occurrence(url, "?id="@, 0) {
        Some(start) => Some(
            match first_occurrence(url, "&"@, start + 4) {
                Some(end) => url.subrange(start + 4, end),
                None => url.subrange(start + 4, url.len() as int),
            },
        ),
        None => None,
    }
}

/// The mod that a link names: its address holds a decimal identifier, and
/// its title, without the whitespace around it, is not empty.
pub open spec fn link_entry(link: LinkView) -> Option<ModEntryView> {
    match link {
        (Some(href), Some(title)) => match mod_id_text(href) {
            Some(text) => match parsed_u64(text) {
                Some(id) => if trimmed(title).len() > 0 {
                    Some(ModEntryView { id, name: trimmed(title) })
                } else {
                    None
                },
                None => None,
            },
            None => None,
        },
        _ => None,
    }
}

/// The mods that the links name, in the order of the links.
pub open spec fn link_entries(links: Seq<LinkView>) -> Seq<ModEntryView> {
    links.filter_map(|l: LinkView| link_entry(l))
}

/// The mods of a page with these links: those that the links name, which
/// must be one at least.
pub open spec fn page_mods(links: Option<Seq<LinkView>>) -> Result<Seq<ModEntryView>, ParseError> {
    match links {
        None => Err(ParseError::Selector),
        Some(found) => if link_entries(found).len() == 0 {
            Err(ParseError::NoItems)
        } else {
            Ok(link_entries(found))
        },
    }
}

/// Whether a page is a collection page: it holds an element for the
/// collection's children and one for a workshop item.
pub open spec fn page_has_markers(
    children: Option<Seq<Seq<char>>>,
    items: Option<Seq<Seq<char>>>,
) -> bool {
    &&& children matches Some(c) && c.len() > 0
    &&& items matches Some(i) && i.len() > 0
}

/// The second of the pieces into which `::` divides a text, if there are two.
pub open spec fn second_segment(s: Seq<char>) -> Option<Seq<char>> {
    match first_occurrence(s, "::"@, 0) {
        Some(start) => Some(
            match first_occurrence(s, "::"@, start + 2) {
                Some(end) => s.subrange(start + 2, end),
                None => s.subrange(start + 2, s.len() as int),
            },
        ),
        None => None,
    }
}

/// The title of a collection: the first item title of the page, trimmed,
/// where it is not empty; else what the page's title holds behind its first
/// `::`, trimmed.
pub open spec fn page_title(
    item_titles: Option<Seq<Seq<char>>>,
    page_titles: Option<Seq<Seq<char>>>,
) -> Option<Seq<char>> {
    if item_titles matches Some(t) && t.len() > 0 && trimmed(t[0]).len() > 0 {
        Some(trimmed(item_titles->0[0]))
    } else if page_titles matches Some(p) && p.len() > 0 {
        match second_segment(page_titles->0[0]) {
            Some(part) => Some(trimmed(part)),
            None => None,
        }
    } else {
        None
    }
}

/// The selector of the links that may name a mod.
pub open spec fn link_selector() -> Seq<char> {
    "a[href*='/sharedfiles/filedetails/?id=']"@
}

/// The selector of the title of a workshop item.
pub open spec fn title_selector() -> Seq<char> {
    ".workshopItemTitle"@
}

/// What lies between two occurrences of a separator: from `start`, behind
/// the first, to the next occurrence or to the end.
fn segment(s: &str, chars: &Vec<char>, separator: &Vec<char>, start: usize) -> (r: String)
    requires
        chars@ == s@,
        start <= chars@.len(),
    ensures
        r@ == match first_occurrence(s@, separator@, start as int) {
            Some(end) => s@.subrange(start as int, end),
            None => s@.subrange(start as int, s@.len() as int),
        },
{
    proof {
        crate::text::lemma_first_occurrence(s@, separator@, start as int);
    }
    match find_in(chars, separator, start) {
        Some(end) => s.substring_char(start, end).to_owned(),
        None => s.substring_char(start, chars.len()).to_owned(),
    }
}

impl SteamCollectionParser {
    /// The identifier that an address names: what follows the first `?id=`,
    /// up to the next `&` or to the end.
    pub fn extract_mod_id_from_url(url: &str) -> (r: Option<String>)
        ensures
            match r {
                Some(text) => mod_id_text(url@) == Some(text@),
                None => mod_id_text(url@) is None,
            },
    {
        proof {
            reveal_strlit("?id=");
            reveal_strlit("&");
        }
        let chars = chars_of(url);
        let marker = chars_of("?id=");
        let ampersand = chars_of("&");
        match find_in(&chars, &marker, 0) {
            Some(start) => {
                proof {
                    crate::text::lemma_first_occurrence(url@, marker@, 0);
                    assert(marker@.len() == 4);
                    assert(crate::text::occurs_at(url@, marker@, start as int));
                }
                Some(segment(url, &chars, &ampersand, start + 4))
            },
            None => None,
        }
    }

    /// The mod that a link names, if it names one.
    pub fn entry_from_link(link: &Link) -> (r: Option<ModEntry>)
        ensures
            match r {
                Some(entry) => link_entry(link.deep_view()) == Some(entry@),
                None => link_entry(link.deep_view()) is None,
            },
    {
        match link {
            (Some(href), Some(title)) => {
                match Self::extract_mod_id_from_url(href.as_str()) {
                    Some(text) => match parse_u64(text.as_str()) {
                        Some(id) => {
                            let name = trim(title.as_str());
                            if name.as_str().unicode_len() > 0 {
                                Some(ModEntry { id, name })
                            } else {
                                None
                            }
                        },
                        None => None,
                    },
                    None => None,
                }
            },
            _ => None,
        }
    }

    /// The mods of a page, from what was found of its links.
    pub fn mods_from_links(links: &Option<Vec<Link>>) -> (r: Result<Vec<ModEntry>, ParseError>)
        ensures
            match r {
                Ok(mods) => page_mods(links.deep_view()) == Ok::<Seq<ModEntryView>, ParseError>(
                    mods.deep_view(),
                ),
                Err(e) => page_mods(links.deep_view()) == Err::<Seq<ModEntryView>, ParseError>(e),
            },
    {
        match links {
            None => Err(ParseError::Selector),
            Some(found) => {
                let ghost all = found.deep_view();
                let ghost f = |l: LinkView| link_entry(l);
                let mut mods: Vec<ModEntry> = Vec::new();
                let mut i: usize = 0;
                assert(mods.deep_view() =~= all.take(0).filter_map(f));
                while i < found.len()
                    invariant
                        i <= found.len(),
                        all == found.deep_view(),
                        f == |l: LinkView| link_entry(l),
                        mods.deep_view() == all.take(i as int).filter_map(f),
                    decreases found.len() - i,
                {
                    let ghost before = mods.deep_view();
                    proof {
                        all.lemma_filter_map_take_succ(f, i as int);
                        assert(all[i as int] == found@[i as int].deep_view());
                    }
                    match Self::entry_from_link(&found[i]) {
                        Some(entry) => {
                            let ghost e = entry@;
                            mods.push(entry);
                            assert(mods.deep_view() =~= before + seq![e]);
                        },
                        None => {},
                    }
                    i += 1;
                }
                assert(all.take(found.len() as int) =~= all);
                if mods.len() == 0 {
                    Err(ParseError::NoItems)
                } else {
                    Ok(mods)
                }
            },
        }
    }

    /// The mods that a collection page names: one for each link to a
    /// workshop item that holds a decimal identifier and a title.
    pub fn parse_collection_html(html_content: &str) -> (r: Result<Vec<ModEntry>, ParseError>)
        ensures
            match r {
                Ok(mods) => page_mods(
                    selected_links(html_content@, link_selector(), "href"@, title_selector()),
                ) == Ok::<Seq<ModEntryView>, ParseError>(mods.deep_view()),
                Err(e) => page_mods(
                    selected_links(html_content@, link_selector(), "href"@, title_selector()),
                ) == Err::<Seq<ModEntryView>, ParseError>(e),
            },
    {
        let links = select_links(
            html_content,
            "a[href*='/sharedfiles/filedetails/?id=']",
            "href",
            ".workshopItemTitle",
        );
        Self::mods_from_links(&links)
    }

    /// Whether a page with these children and items is a collection page.
    pub fn has_markers(children: &Option<Vec<String>>, items: &Option<Vec<String>>) -> (r: bool)
        ensures
            r == page_has_markers(children.deep_view(), items.deep_view()),
    {
        match (children, items) {
            (Some(c), Some(i)) => c.len() > 0 && i.len() > 0,
            _ => false,
        }
    }

    /// Whether a page is a collection page.
    pub fn is_collection_page(html_content: &str) -> (r: bool)
        ensures
            r == page_has_markers(
                selected_texts(html_content@, ".collectionChildren"@),
                selected_texts(html_content@, ".workshopItem"@),
            ),
    {
        let children = select_texts(html_content, ".collectionChildren");
        let items = select_texts(html_content, ".workshopItem");
        Self::has_markers(&children, &items)
    }

    /// The title of a collection, from the item titles and the page titles
    /// that its page holds.
    pub fn title_from(item_titles: &Option<Vec<String>>, page_titles: &Option<Vec<String>>) -> (r:
        Option<String>)
        ensures
            match r {
                Some(title) => page_title(item_titles.deep_view(), page_titles.deep_view())
                    == Some(title@),
                None => page_title(item_titles.deep_view(), page_titles.deep_view()) is None,
            },
    {
        proof {
            reveal_strlit("::");
        }
        if let Some(titles) = item_titles {
            if titles.len() > 0 {
                let title = trim(titles[0].as_str());
                if title.as_str().unicode_len() > 0 {
                    return Some(title);
                }
            }
        }
        if let Some(titles) = page_titles {
            if titles.len() > 0 {
                let full = titles[0].as_str();
                let chars = chars_of(full);
                let separator = chars_of("::");
                return match find_in(&chars, &separator, 0) {
                    Some(start) => {
                        proof {
                            crate::text::lemma_first_occurrence(full@, separator@, 0);
                            assert(separator@.len() == 2);
                            assert(crate::text::occurs_at(full@, separator@, start as int));
                        }
                        let part = segment(full, &chars, &separator, start + 2);
                        Some(trim(part.as_str()))
                    },
                    None => None,
                };
            }
        }
        None
    }

    /// The title of the collection that a page shows.
    pub fn get_collection_title(html_content: &str) -> (r: Option<String>)
        ensures
            match r {
                Some(title) => page_title(
                    selected_texts(html_content@, title_selector()),
                    selected_texts(html_content@, "title"@),
                ) == Some(title@),
                None => page_title(
                    selected_texts(html_content@, title_selector()),
                    selected_texts(html_content@, "title"@),
                ) is None,
            },
    {
        let item_titles = select_texts(html_content, ".workshopItemTitle");
        let page_titles = select_texts(html_content, "title");
        Self::title_from(&item_titles, &page_titles)
    }
}

} // verus!
