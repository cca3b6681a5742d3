use dzsm::collection_fetcher::{CollectionFetcher, FetchError};
use dzsm::collection_parser::{ParseError, SteamCollectionParser};
use dzsm::config::mod_entry::ModEntry;
use dzsm::transfer::Response;

const URL: &str = "https://steamcommunity.com/sharedfiles/filedetails/?id=123";

const PAGE: &str = r#"<!DOCTYPE html>
<html>
<head><title>Steam Workshop::My Collection</title></head>
<body>
<div class="collectionChildren">
  <div class="collectionItem">
    <div class="workshopItem">
      <a href="https://steamcommunity.com/sharedfiles/filedetails/?id=1559212036">
        <div class="workshopItemTitle">CF</div>
      </a>
    </div>
  </div>
  <div class="collectionItem">
    <div class="workshopItem">
      <a href="https://steamcommunity.com/sharedfiles/filedetails/?id=1564026768&searchtext=">
        <div class="workshopItemTitle">  Community-Online-Tools
        </div>
      </a>
    </div>
  </div>
  <div class="collectionItem">
    <a href="https://steamcommunity.com/sharedfiles/filedetails/?id=42"><img src="x.png"></a>
    <a href="https://steamcommunity.com/sharedfiles/filedetails/?id=abc"><div class="workshopItemTitle">Bad</div></a>
    <a href="https://steamcommunity.com/sharedfiles/filedetails/?id=43"><div class="workshopItemTitle">   </div></a>
    <a href="https://example.com/other"><div class="workshopItemTitle">Elsewhere</div></a>
  </div>
</div>
</body>
</html>"#;

const PLAIN: &str = r#"<html><head><title>Steam Workshop::Some Item</title></head>
<body><div class="workshopItem"><p>An item, no collection.</p></div></body></html>"#;

fn entry(id: u64, name: &str) -> ModEntry {
    ModEntry { id, name: name.to_string() }
}

fn response(code: u32, body: &[u8]) -> Result<Response, String> {
    Ok(Response { code, body: body.to_vec() })
}

#[test]
fn identifier_is_what_follows_the_marker() {
    let id = SteamCollectionParser::extract_mod_id_from_url;
    assert_eq!(id("https://x/?id=1559212036"), Some("1559212036".to_string()));
    assert_eq!(id("https://x/?id=15&searchtext=a&b=c"), Some("15".to_string()));
    assert_eq!(id("https://x/?id="), Some("".to_string()));
    assert_eq!(id("https://x/?id=&a"), Some("".to_string()));
    assert_eq!(id("a&b?id=7"), Some("7".to_string()));
    assert_eq!(id("?id=1?id=2"), Some("1?id=2".to_string()));
    assert_eq!(id("https://x/?ID=15"), None);
    assert_eq!(id("https://x/&id=15"), None);
    assert_eq!(id(""), None);
}

#[test]
fn link_names_a_mod_by_identifier_and_title() {
    let link = (Some("https://x/?id=15&a=b".to_string()), Some("  CF \n".to_string()));
    assert_eq!(SteamCollectionParser::entry_from_link(&link), Some(entry(15, "CF")));
}

#[test]
fn link_without_identifier_or_title_names_no_mod() {
    let f = SteamCollectionParser::entry_from_link;
    assert_eq!(f(&(None, Some("CF".to_string()))), None);
    assert_eq!(f(&(Some("https://x/?id=15".to_string()), None)), None);
    assert_eq!(f(&(Some("https://x/15".to_string()), Some("CF".to_string()))), None);
    assert_eq!(f(&(Some("https://x/?id=1x".to_string()), Some("CF".to_string()))), None);
    assert_eq!(f(&(Some("https://x/?id=".to_string()), Some("CF".to_string()))), None);
    assert_eq!(f(&(Some("https://x/?id=15".to_string()), Some(" \t ".to_string()))), None);
    assert_eq!(
        f(&(Some("https://x/?id=18446744073709551616".to_string()), Some("CF".to_string()))),
        None
    );
}

#[test]
fn mods_are_those_that_the_links_name() {
    let links = Some(vec![
        (Some("?id=2".to_string()), Some("B".to_string())),
        (Some("?id=x".to_string()), Some("Bad".to_string())),
        (Some("?id=1".to_string()), Some("A".to_string())),
        (None, None),
    ]);
    assert_eq!(
        SteamCollectionParser::mods_from_links(&links),
        Ok(vec![entry(2, "B"), entry(1, "A")])
    );
}

#[test]
fn links_that_name_no_mod_are_an_error() {
    assert_eq!(SteamCollectionParser::mods_from_links(&Some(vec![])), Err(ParseError::NoItems));
    let links = Some(vec![(Some("?id=x".to_string()), Some("Bad".to_string()))]);
    assert_eq!(SteamCollectionParser::mods_from_links(&links), Err(ParseError::NoItems));
    assert_eq!(SteamCollectionParser::mods_from_links(&None), Err(ParseError::Selector));
}

#[test]
fn collection_page_gives_its_mods_in_order() {
    assert_eq!(
        SteamCollectionParser::parse_collection_html(PAGE),
        Ok(vec![entry(1559212036, "CF"), entry(1564026768, "Community-Online-Tools")])
    );
}

#[test]
fn page_without_items_gives_an_error() {
    assert_eq!(SteamCollectionParser::parse_collection_html(PLAIN), Err(ParseError::NoItems));
    assert_eq!(SteamCollectionParser::parse_collection_html(""), Err(ParseError::NoItems));
}

#[test]
fn collection_page_is_known_by_its_two_marks() {
    assert!(SteamCollectionParser::is_collection_page(PAGE));
    assert!(!SteamCollectionParser::is_collection_page(PLAIN));
    assert!(!SteamCollectionParser::is_collection_page(
        "<div class=\"collectionChildren\"></div>"
    ));
    assert!(!SteamCollectionParser::is_collection_page(""));
}

#[test]
fn marks_must_both_be_found() {
    let some = Some(vec!["x".to_string()]);
    let none = Some(vec![]);
    assert!(SteamCollectionParser::has_markers(&some, &some));
    assert!(!SteamCollectionParser::has_markers(&some, &none));
    assert!(!SteamCollectionParser::has_markers(&none, &some));
    assert!(!SteamCollectionParser::has_markers(&None, &some));
    assert!(!SteamCollectionParser::has_markers(&some, &None));
}

#[test]
fn title_is_the_first_item_title() {
    assert_eq!(SteamCollectionParser::get_collection_title(PAGE), Some("CF".to_string()));
}

#[test]
fn title_falls_back_to_the_page_title() {
    assert_eq!(SteamCollectionParser::get_collection_title(PLAIN), Some("Some Item".to_string()));
    assert_eq!(
        SteamCollectionParser::get_collection_title("<title>No separator</title>"),
        None
    );
    assert_eq!(SteamCollectionParser::get_collection_title("<p>x</p>"), None);
}

#[test]
fn title_is_taken_from_the_texts_found() {
    let f = SteamCollectionParser::title_from;
    let texts = |list: &[&str]| Some(list.iter().map(|t| t.to_string()).collect::<Vec<String>>());
    assert_eq!(f(&texts(&[" A ", "B"]), &texts(&["x::y"])), Some("A".to_string()));
    assert_eq!(f(&texts(&["  "]), &texts(&["Steam Workshop:: My List ::more"])), Some("My List".to_string()));
    assert_eq!(f(&texts(&[]), &texts(&["a::"])), Some("".to_string()));
    assert_eq!(f(&None, &texts(&["a::b::c"])), Some("b".to_string()));
    assert_eq!(f(&None, &texts(&["a:b"])), None);
    assert_eq!(f(&None, &texts(&[])), None);
    assert_eq!(f(&None, &None), None);
}

#[test]
fn request_is_made_for_workshop_pages_only() {
    let request = CollectionFetcher::page_request(URL).unwrap();
    assert_eq!(request.url, URL);
    assert!(request.follow_redirects);
    assert_eq!(request.timeout_seconds, 30);
    assert_eq!(
        request.user_agent,
        Some("Mozilla/5.0 (Windows NT 10.0; Win64; x64) AppleWebKit/537.36".to_string())
    );
    assert_eq!(
        CollectionFetcher::page_request("https://example.com/filedetails/?id=1"),
        Err(FetchError::InvalidUrl)
    );
    assert_eq!(
        CollectionFetcher::page_request("https://steamcommunity.com/app/221100"),
        Err(FetchError::InvalidUrl)
    );
}

#[test]
fn page_is_the_body_of_a_good_response() {
    assert_eq!(
        CollectionFetcher::download_page(response(200, "grüß".as_bytes())),
        Ok("grüß".to_string())
    );
    assert_eq!(
        CollectionFetcher::download_page(response(404, b"not found")),
        Err(FetchError::Http(404))
    );
    assert_eq!(
        CollectionFetcher::download_page(response(200, &[0x66, 0xff, 0x6f])),
        Err(FetchError::Encoding)
    );
    assert_eq!(
        CollectionFetcher::download_page(Err("timed out".to_string())),
        Err(FetchError::Transfer("timed out".to_string()))
    );
}

#[test]
fn fetch_gives_the_mods_of_the_page() {
    assert_eq!(
        CollectionFetcher::fetch_collection_mods(URL, response(200, PAGE.as_bytes())),
        Ok(vec![entry(1559212036, "CF"), entry(1564026768, "Community-Online-Tools")])
    );
    assert_eq!(
        CollectionFetcher::mods_from_page(PAGE),
        Ok(vec![entry(1559212036, "CF"), entry(1564026768, "Community-Online-Tools")])
    );
}

#[test]
fn fetch_fails_for_each_cause_with_its_own_error() {
    let fetch = CollectionFetcher::fetch_collection_mods;
    assert_eq!(
        fetch("https://example.com/", response(200, PAGE.as_bytes())),
        Err(FetchError::InvalidUrl)
    );
    assert_eq!(fetch(URL, response(404, b"")), Err(FetchError::Http(404)));
    assert_eq!(fetch(URL, Err("no route".to_string())), Err(FetchError::Transfer("no route".to_string())));
    assert_eq!(fetch(URL, response(200, &[0xc3])), Err(FetchError::Encoding));
    assert_eq!(fetch(URL, response(200, PLAIN.as_bytes())), Err(FetchError::NotACollection));
    let empty = r#"<div class="collectionChildren"><div class="workshopItem"></div></div>"#;
    assert_eq!(
        fetch(URL, response(200, empty.as_bytes())),
        Err(FetchError::Parse(ParseError::NoItems))
    );
}

#[test]
fn fetch_error_has_a_message_for_each_cause() {
    assert_eq!(FetchError::InvalidUrl.message(), "Invalid Steam Workshop collection URL");
    assert_eq!(FetchError::Transfer("x".to_string()).message(), "x");
    assert_eq!(
        FetchError::Http(404).message(),
        "HTTP error 404: Failed to fetch collection page"
    );
    assert_eq!(FetchError::Encoding.message(), "Failed to decode HTML as UTF-8");
    assert_eq!(
        FetchError::NotACollection.message(),
        "URL does not appear to be a Steam Workshop collection"
    );
    assert_eq!(
        FetchError::Parse(ParseError::Selector).message(),
        "Failed to create CSS selector"
    );
    assert_eq!(
        FetchError::Parse(ParseError::NoItems).message(),
        "No workshop items found in the HTML. This might not be a valid Steam Workshop collection page."
    );
}
