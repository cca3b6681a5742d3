//! Fetching the mods of a collection: which address is asked for, and what
//! is made of the answer. The transfer itself is the caller's.

use crate::collection_parser::{
    link_selector, page_has_markers, page_mods, selected_links, selected_texts, title_selector,
    ParseError, SteamCollectionParser,
};
use crate::config::mod_entry::{ModEntry, ModEntryView};
use crate::text::{contains, contains_text, decimal_digits, decimal_string};
use crate::transfer::{Request, Response};
use vstd::prelude::*;
use vstd::string::StringExecFns;
use vstd::utf8::{decode_utf8, valid_utf8};

verus! {

/// Fetches collections.
pub struct CollectionFetcher;

/// Why the mods of a collection could not be had.
#[derive(Debug, PartialEq, Eq)]
pub enum FetchError {
    /// The address is not that of a workshop page.
    InvalidUrl,
    /// The transfer failed; the message.
    Transfer(String),
    /// The server answered with this status.
    Http(u32),
    /// The page is not UTF-8.
    Encoding,
    /// The page is no collection page.
    NotACollection,
    /// The page could not be read.
    Parse(ParseError),
}

/// A `FetchError` as a plain value.
pub enum FetchErrorView {
    InvalidUrl,
    Transfer(Seq<char>),
    Http(u32),
    Encoding,
    NotACollection,
    Parse(ParseError),
}

impl View for FetchError {
    type V = FetchErrorView;

    open spec fn view(&self) -> FetchErrorView {
        match self {
            FetchError::InvalidUrl => FetchErrorView::InvalidUrl,
            FetchError::Transfer(m) => FetchErrorView::Transfer(m@),
            FetchError::Http(code) => FetchErrorView::Http(*code),
            FetchError::Encoding => FetchErrorView::Encoding,
            FetchError::NotACollection => FetchErrorView::NotACollection,
            FetchError::Parse(e) => FetchErrorView::Parse(*e),
        }
    }
}

/// The text shown for an error of a fetch.
pub open spec fn fetch_error_text(e: FetchErrorView) -> Seq<char> {
    match e {
        FetchErrorView::InvalidUrl => "Invalid Steam Workshop collection URL"@,
        FetchErrorView::Transfer(m) => m,
        FetchErrorView::Http(code) => "HTTP error "@ + decimal_digits(code as nat)
            + ": Failed to fetch collection page"@,
        FetchErrorView::Encoding => "Failed to decode HTML as UTF-8"@,
        FetchErrorView::NotACollection => "URL does not appear to be a Steam Workshop collection"@,
        FetchErrorView::Parse(ParseError::Selector) => "Failed to create CSS selector"@,
        FetchErrorView::Parse(ParseError::NoItems) =>
            "No workshop items found in the HTML. This might not be a valid Steam Workshop collection page."@,
    }
}

impl FetchError {
    /// The text shown for this error.
    pub fn message(&self) -> (r: String)
        ensures
            r@ == fetch_error_text(self@),
    {
        match self {
            FetchError::InvalidUrl => String::from_str("Invalid Steam Workshop collection URL"),
            FetchError::Transfer(m) => m.clone(),
            FetchError::Http(code) => {
                let mut out = String::from_str("HTTP error ");
                let number = decimal_string(*code as u64);
                out.append(number.as_str());
                out.append(": Failed to fetch collection page");
                out
            },
            FetchError::Encoding => String::from_str("Failed to decode HTML as UTF-8"),
            FetchError::NotACollection => String::from_str(
                "URL does not appear to be a Steam Workshop collection",
            ),
            FetchError::Parse(ParseError::Selector) => String::from_str(
                "Failed to create CSS selector",
            ),
            FetchError::Parse(ParseError::NoItems) => String::from_str(
                "No workshop items found in the HTML. This might not be a valid Steam Workshop collection page.",
            ),
        }
    }
}

/// What a transfer gave, as a plain value: the status and the body, or the
/// message of a failure.
pub open spec fn outcome_view(outcome: Result<Response, String>) -> Result<(u32, Seq<u8>), Seq<char>> {
    match outcome {
        Ok(response) => Ok((response.code, response.body@)),
        Err(message) => Err(message@),
    }
}

/// Whether an address is that of a workshop page.
pub open spec fn is_workshop_url(url: Seq<char>) -> bool {
    contains_text(url, "steamcommunity.com"@) && contains_text(url, "filedetails"@)
}

/// The page that a transfer gave: the body of a response with status 200,
/// read as UTF-8.
pub open spec fn page_of(outcome: Result<(u32, Seq<u8>), Seq<char>>) -> Result<
    Seq<char>,
    FetchErrorView,
> {
    match outcome {
        Err(message) => Err(FetchErrorView::Transfer(message)),
        Ok((code, body)) => if code != 200 {
            Err(FetchErrorView::Http(code))
        } else if !valid_utf8(body) {
            Err(FetchErrorView::Encoding)
        } else {
            Ok(decode_utf8(body))
        },
    }
}

/// The mods of a collection page: the page must hold the marks of a
/// collection, and its links must name one mod at least.
pub open spec fn mods_of_page(page: Seq<char>) -> Result<Seq<ModEntryView>, FetchErrorView> {
    if !page_has_markers(
        selected_texts(page, ".collectionChildren"@),
        selected_texts(page, ".workshopItem"@),
    ) {
        Err(FetchErrorView::NotACollection)
    } else {
        match page_mods(selected_links(page, link_selector(), "href"@, title_selector())) {
            Ok(mods) => Ok(mods),
            Err(e) => Err(FetchErrorView::Parse(e)),
        }
    }
}

/// The mods of the collection at `url`, from what the transfer gave.
pub open spec fn fetched_mods(url: Seq<char>, outcome: Result<(u32, Seq<u8>), Seq<char>>) -> Result<
    Seq<ModEntryView>,
    FetchErrorView,
> {
    if !is_workshop_url(url) {
        Err(FetchErrorView::InvalidUrl)
    } else {
        match page_of(outcome) {
            Err(e) => Err(e),
            Ok(page) => mods_of_page(page),
        }
    }
}

/// Calls `String::from_utf8` of std: the text that the bytes encode, where
/// they are UTF-8.
#[verifier::external_body]
fn string_from_utf8(bytes: Vec<u8>) -> (r: Option<String>)
    ensures
        r is Some <==> valid_utf8(bytes@),
        r matches Some(text) ==> text@ == decode_utf8(bytes@),
{
    String::from_utf8(bytes).ok()
}

impl CollectionFetcher {
    /// The request for the page at `collection_url`, which must be the
    /// address of a workshop page. Redirects are followed, the transfer may
    /// take half a minute, and a browser's user agent is presented.
    pub fn page_request(collection_url: &str) -> (r: Result<Request, FetchError>)
        ensures
            match r {
                Ok(request) => {
                    &&& is_workshop_url(collection_url@)
                    &&& request.url@ == collection_url@
                    &&& request.follow_redirects
                    &&& request.timeout_seconds == 30
                    &&& request.user_agent matches Some(agent)
                    &&& agent@ == "Mozilla/5.0 (Windows NT 10.0; Win64; x64) AppleWebKit/537.36"@
                },
                Err(e) => !is_workshop_url(collection_url@) && e@ == FetchErrorView::InvalidUrl,
            },
    {
        if !contains(collection_url, "steamcommunity.com") || !contains(
            collection_url,
            "filedetails",
        ) {
            return Err(FetchError::InvalidUrl);
        }
        Ok(
            Request {
                url: collection_url.to_owned(),
                follow_redirects: true,
                timeout_seconds: 30,
                user_agent: Some(
                    String::from_str("Mozilla/5.0 (Windows NT 10.0; Win64; x64) AppleWebKit/537.36"),
                ),
            },
        )
    }

    /// The page that a transfer gave.
    pub fn download_page(outcome: Result<Response, String>) -> (r: Result<String, FetchError>)
        ensures
            match r {
                Ok(page) => page_of(outcome_view(outcome)) == Ok::<Seq<char>, FetchErrorView>(
                    page@,
                ),
                Err(e) => page_of(outcome_view(outcome)) == Err::<Seq<char>, FetchErrorView>(e@),
            },
    {
        match outcome {
            Err(message) => Err(FetchError::Transfer(message)),
            Ok(response) => {
                if response.code != 200 {
                    return Err(FetchError::Http(response.code));
                }
                match string_from_utf8(response.body) {
                    Some(page) => Ok(page),
                    None => Err(FetchError::Encoding),
                }
            },
        }
    }

    /// The mods that a collection page names.
    pub fn mods_from_page(page: &str) -> (r: Result<Vec<ModEntry>, FetchError>)
        ensures
            match r {
                Ok(mods) => mods_of_page(page@) == Ok::<Seq<ModEntryView>, FetchErrorView>(
                    mods.deep_view(),
                ),
                Err(e) => mods_of_page(page@) == Err::<Seq<ModEntryView>, FetchErrorView>(e@),
            },
    {
        if !SteamCollectionParser::is_collection_page(page) {
            return Err(FetchError::NotACollection);
        }
        match SteamCollectionParser::parse_collection_html(page) {
            Ok(mods) => Ok(mods),
            Err(e) => Err(FetchError::Parse(e)),
        }
    }

    /// The mods of the collection at `collection_url`, from what the
    /// transfer of its page gave. An address that is not that of a workshop
    /// page is refused whatever the transfer gave.
    pub fn fetch_collection_mods(collection_url: &str, outcome: Result<Response, String>) -> (r:
        Result<Vec<ModEntry>, FetchError>)
        ensures
            match r {
                Ok(mods) => fetched_mods(collection_url@, outcome_view(outcome)) == Ok::<
                    Seq<ModEntryView>,
                    FetchErrorView,
                >(mods.deep_view()),
                Err(e) => fetched_mods(collection_url@, outcome_view(outcome)) == Err::<
                    Seq<ModEntryView>,
                    FetchErrorView,
                >(e@),
            },
    {
        match Self::page_request(collection_url) {
            Err(e) => Err(e),
            Ok(_) => match Self::download_page(outcome) {
                Err(e) => Err(e),
                Ok(page) => Self::mods_from_page(page.as_str()),
            },
        }
    }
}

} // verus!
