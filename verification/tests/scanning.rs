//! The verified text scanners and numeric conversions.
use wikidot::error::{IdNotFound, ParseElementError, WikidotError};
use wikidot::page::{page_fetch_disposition, page_id_from_document};
use wikidot::site::{page_count_from_pager, site_from_document, Site};
use wikidot::client::AjaxClient;
use wikidot::text::{
    capture_between, find_sub, find_sub_from, i64_to_dec, parse_decimal_trunc, parse_int_str,
    remove_dots, scan_marker_digits, scan_prefixed_digits, split_spaces, strip_prefix_or_self,
    trim_str, u64_to_dec,
};

#[test]
fn find_first_occurrence() {
    assert_eq!(find_sub("abcabc", "bc"), Some(1));
    assert_eq!(find_sub_from("abcabc", "bc", 2), Some(4));
    assert_eq!(find_sub("abc", "zz"), None);
    assert_eq!(find_sub("abc", ""), Some(0));
}

#[test]
fn parse_integers() {
    assert_eq!(parse_int_str("123"), Some(123));
    assert_eq!(parse_int_str("+7"), Some(7));
    assert_eq!(parse_int_str("-42"), Some(-42));
    assert_eq!(parse_int_str(""), None);
    assert_eq!(parse_int_str("-"), None);
    assert_eq!(parse_int_str("12x"), None);
    assert_eq!(parse_int_str("9223372036854775807"), Some(i64::MAX));
    assert_eq!(parse_int_str("-9223372036854775808"), Some(i64::MIN));
    assert_eq!(parse_int_str("9223372036854775808"), None);
}

#[test]
fn parse_decimals_truncate_toward_zero() {
    assert_eq!(parse_decimal_trunc("4"), Some(4));
    assert_eq!(parse_decimal_trunc("+4"), Some(4));
    assert_eq!(parse_decimal_trunc("-3.7"), Some(-3));
    assert_eq!(parse_decimal_trunc("85.5"), Some(85));
    assert_eq!(parse_decimal_trunc("4."), None);
    assert_eq!(parse_decimal_trunc(".5"), None);
    assert_eq!(parse_decimal_trunc("x"), None);
}

#[test]
fn trim_and_split() {
    assert_eq!(trim_str("  a b \t\n"), "a b");
    assert_eq!(trim_str(""), "");
    assert_eq!(trim_str("   "), "");
    assert_eq!(split_spaces("a b"), vec!["a", "b"]);
    assert_eq!(split_spaces(""), vec![""]);
    assert_eq!(split_spaces("a  b"), vec!["a", "", "b"]);
}

#[test]
fn remove_dots_cleans_ordinals() {
    assert_eq!(remove_dots("38."), "38");
    assert_eq!(remove_dots("1.2.3"), "123");
}

#[test]
fn numbers_render_in_decimal() {
    assert_eq!(u64_to_dec(0), "0");
    assert_eq!(u64_to_dec(1234567890), "1234567890");
    assert_eq!(i64_to_dec(-45), "-45");
    assert_eq!(i64_to_dec(i64::MIN), "-9223372036854775808");
}

#[test]
fn strip_profile_prefix() {
    assert_eq!(
        strip_prefix_or_self("http://www.wikidot.com/user:info/some-user", "http://www.wikidot.com/user:info/"),
        "some-user"
    );
    assert_eq!(strip_prefix_or_self("plain", "http://"), "plain");
}

#[test]
fn marker_scan_finds_first_full_match() {
    // The first prefix occurrence has no digits; the scan moves on.
    let text = "id = x; id = 42; id = 7;";
    assert_eq!(scan_marker_digits(text, "id = ", ';'), Some((13, 15)));
    assert_eq!(scan_marker_digits("nothing here", "id = ", ';'), None);
    // Digits not followed by the terminator do not match.
    assert_eq!(scan_marker_digits("id = 42", "id = ", ';'), None);
}

#[test]
fn prefixed_digit_scan() {
    assert_eq!(scan_prefixed_digits("page 1 of 7", "of "), Some((10, 11)));
    assert_eq!(scan_prefixed_digits("of x", "of "), None);
}

#[test]
fn capture_between_tags() {
    let doc = "<head><title>My Site</title></head>";
    let (a, b) = capture_between(doc, "<title>", "</title>").unwrap();
    assert_eq!(&doc[a..b], "My Site");
    assert_eq!(capture_between(doc, "<missing>", "</missing>"), None);
}

#[test]
fn page_id_extraction() {
    let doc = "... WIKIREQUEST.info.pageId = 12345; ...";
    assert_eq!(page_id_from_document(doc), Ok(12345));
    assert_eq!(
        page_id_from_document("no marker"),
        Err(WikidotError::IdNotFound(IdNotFound::Page))
    );
    let wide = "WIKIREQUEST.info.pageId = 99999999999;";
    assert_eq!(page_id_from_document(wide), Err(WikidotError::ParseInt));
}

#[test]
fn page_fetch_status() {
    assert!(page_fetch_disposition(404).is_err());
    assert!(page_fetch_disposition(200).is_ok());
}

#[test]
fn site_document_parsing() {
    let doc = "<title>The Wiki</title> WIKIREQUEST.info.siteId = 77;";
    let client = AjaxClient::new();
    let site: Site = site_from_document(&client, "somewiki", true, doc).unwrap();
    assert_eq!(site.id, 77);
    assert_eq!(site.title, "The Wiki");
    assert_eq!(site.unix_name, "somewiki");
    assert!(site.ssl_supported);
    assert_eq!(site.url(), "https://somewiki.wikidot.com");
    assert_eq!(
        site.connector_url(),
        "https://somewiki.wikidot.com/ajax-module-connector.php"
    );
    let missing_id = site_from_document(&client, "w", true, "<title>t</title>");
    assert_eq!(
        missing_id.unwrap_err(),
        WikidotError::ParseElement(ParseElementError::SiteId)
    );
    let missing_title = site_from_document(&client, "w", false, "WIKIREQUEST.info.siteId = 1;");
    assert_eq!(
        missing_title.unwrap_err(),
        WikidotError::ParseElement(ParseElementError::SiteTitle)
    );
}

#[test]
fn pager_count() {
    assert_eq!(page_count_from_pager(None), Ok(1));
    assert_eq!(page_count_from_pager(Some("page 1 of 7")), Ok(7));
    assert_eq!(
        page_count_from_pager(Some("no counter")),
        Err(WikidotError::ParseElement(ParseElementError::PageNum))
    );
}

#[test]
fn plain_site_url() {
    let client = AjaxClient::new();
    let site = site_from_document(&client, "oldwiki", false, "<title>t</title>WIKIREQUEST.info.siteId = 5;")
        .unwrap();
    assert_eq!(site.url(), "http://oldwiki.wikidot.com");
}
