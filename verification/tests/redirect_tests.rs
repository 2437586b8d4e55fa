use wikidump_extract::page_name::PageName;
use wikidump_extract::redirect::{extract_domain, parse_redirect_text, RedirectParseError};
use wikidump_extract::time::{parse_wiki_dump_date, Date};

const WIKIPEDIA_DOMAIN: &str = "en.wikipedia.org";

#[test]
fn main_test_extract_wiki_domain() {
    assert_eq!(
        extract_domain("https://en.wikipedia.org/wiki/Main_Page"),
        Some("en.wikipedia.org")
    );
    assert_eq!(
        extract_domain("http://en.wikipedia.org/something"),
        Some("en.wikipedia.org")
    );
    assert_eq!(extract_domain("not a url"), None);
    assert_eq!(extract_domain("https://bad"), None);
    assert_eq!(extract_domain(""), None);
}

#[test]
fn util_test_extract_wiki_domain() {
    assert_eq!(
        extract_domain("https://en.wikipedia.org/wiki/Main_Page"),
        Some("en.wikipedia.org")
    );
    assert_eq!(
        extract_domain("http://en.wikipedia.org/something"),
        Some("en.wikipedia.org")
    );
    assert_eq!(extract_domain("not a url"), None);
    assert_eq!(extract_domain("https://bad"), None);
    assert_eq!(extract_domain(""), None);
}

#[test]
fn main_test_parse_redirect_basic() {
    let text = "#REDIRECT [[United Kingdom]]";
    let result = parse_redirect_text(WIKIPEDIA_DOMAIN, text).unwrap();
    assert_eq!(
        result,
        PageName {
            name: "United Kingdom".to_string(),
            heading: None,
        }
    );
}

#[test]
fn extract_test_parse_redirect_basic() {
    let text = "#REDIRECT [[United Kingdom]]";
    let result = parse_redirect_text(WIKIPEDIA_DOMAIN, text).unwrap();
    assert_eq!(
        result,
        PageName {
            name: "United Kingdom".to_string(),
            heading: None,
        }
    );
}

#[test]
fn main_test_parse_redirect_with_heading() {
    let text = "#REDIRECT [[UK hard house#Scouse house]]";
    let result = parse_redirect_text(WIKIPEDIA_DOMAIN, text).unwrap();
    assert_eq!(
        result,
        PageName {
            name: "UK hard house".to_string(),
            heading: Some("Scouse house".to_string()),
        }
    );
}

#[test]
fn extract_test_parse_redirect_with_heading() {
    let text = "#REDIRECT [[UK hard house#Scouse house]]";
    let result = parse_redirect_text(WIKIPEDIA_DOMAIN, text).unwrap();
    assert_eq!(
        result,
        PageName {
            name: "UK hard house".to_string(),
            heading: Some("Scouse house".to_string()),
        }
    );
}

#[test]
fn main_test_parse_redirect_multiline() {
    let text = "#REDIRECT [[UK hard house#Scouse house]]
{{Redirect category shell|
{{R to section}}
}}

[[Category:House music genres]]";
    let result = parse_redirect_text(WIKIPEDIA_DOMAIN, text).unwrap();
    assert_eq!(
        result,
        PageName {
            name: "UK hard house".to_string(),
            heading: Some("Scouse house".to_string()),
        }
    );
}

#[test]
fn extract_test_parse_redirect_multiline() {
    let text = "#REDIRECT [[UK hard house#Scouse house]]
{{Redirect category shell|
{{R to section}}
}}

[[Category:House music genres]]";
    let result = parse_redirect_text(WIKIPEDIA_DOMAIN, text).unwrap();
    assert_eq!(
        result,
        PageName {
            name: "UK hard house".to_string(),
            heading: Some("Scouse house".to_string()),
        }
    );
}

#[test]
fn main_test_parse_redirect_invalid() {
    let text = "Not a redirect";
    assert!(matches!(
        parse_redirect_text(WIKIPEDIA_DOMAIN, text),
        Err(RedirectParseError::InvalidRedirect { text: _ })
    ));
}

#[test]
fn extract_test_parse_redirect_invalid() {
    let text = "Not a redirect";
    assert!(matches!(
        parse_redirect_text(WIKIPEDIA_DOMAIN, text),
        Err(RedirectParseError::InvalidRedirect { text: _ })
    ));
}

#[test]
fn main_test_parse_redirect_http() {
    let text = "#REDIRECT [http://en.wikipedia.org/w/index.php?title=Wikipedia:WikiProject_Seattle_Mariners/right_side&action=edit right panel]";
    let result = parse_redirect_text(WIKIPEDIA_DOMAIN, text).unwrap();
    assert_eq!(
        result,
        PageName {
            name: "Wikipedia:WikiProject_Seattle_Mariners/right_side".to_string(),
            heading: None,
        }
    );
}

#[test]
fn extract_test_parse_redirect_http() {
    let text = "#REDIRECT [http://en.wikipedia.org/w/index.php?title=Wikipedia:WikiProject_Seattle_Mariners/right_side&action=edit right panel]";
    let result = parse_redirect_text(WIKIPEDIA_DOMAIN, text).unwrap();
    assert_eq!(
        result,
        PageName {
            name: "Wikipedia:WikiProject_Seattle_Mariners/right_side".to_string(),
            heading: None,
        }
    );
}

#[test]
fn main_test_parse_redirect_external_link_invalid() {
    let text = "#REDIRECT [http://example.com some text]";
    assert!(matches!(
        parse_redirect_text(WIKIPEDIA_DOMAIN, text),
        Err(RedirectParseError::ExternalLinkNotOnThisWiki { text: _ })
    ));
}

#[test]
fn extract_test_parse_redirect_external_link_invalid() {
    let text = "#REDIRECT [http://example.com some text]";
    assert!(matches!(
        parse_redirect_text(WIKIPEDIA_DOMAIN, text),
        Err(RedirectParseError::ExternalLinkNotOnThisWiki { text: _ })
    ));
}

#[test]
fn main_test_parse_wiki_dump_date() {
    assert_eq!(
        parse_wiki_dump_date("enwiki-20250123-pages-articles-multistream"),
        Some(Date {
            year: 2025,
            month: 1,
            day: 23
        })
    );
    assert_eq!(parse_wiki_dump_date("invalid"), None);
}

#[test]
fn util_test_parse_wiki_dump_date() {
    assert_eq!(
        parse_wiki_dump_date("enwiki-20250123-pages-articles-multistream"),
        Some(Date {
            year: 2025,
            month: 1,
            day: 23
        })
    );
    assert_eq!(parse_wiki_dump_date("invalid"), None);
}

#[test]
fn dump_date_rejects_out_of_range_month() {
    assert_eq!(parse_wiki_dump_date("enwiki-20259923-pages"), None);
    assert_eq!(parse_wiki_dump_date("enwiki-2025012-pages"), None);
    assert_eq!(parse_wiki_dump_date("enwiki-20250123"), Some(Date { year: 2025, month: 1, day: 23 }));
}

#[test]
fn redirect_error_message_names_the_text() {
    let err = parse_redirect_text(WIKIPEDIA_DOMAIN, "nothing here").unwrap_err();
    assert_eq!(err.message(), "Invalid redirect format: nothing here");
    let err = parse_redirect_text(WIKIPEDIA_DOMAIN, "#REDIRECT [http://example.com some text]")
        .unwrap_err();
    assert_eq!(
        err.message(),
        "External link not on this wiki: #REDIRECT [http://example.com some text]"
    );
}

#[test]
fn external_redirect_without_title_is_off_wiki() {
    let text = "#REDIRECT [http://en.wikipedia.org/w/index.php?x=1 label]";
    assert!(matches!(
        parse_redirect_text(WIKIPEDIA_DOMAIN, text),
        Err(RedirectParseError::ExternalLinkNotOnThisWiki { text: _ })
    ));
}

#[test]
fn unclosed_internal_redirect_is_invalid() {
    let text = "#REDIRECT [[United Kingdom";
    assert!(matches!(
        parse_redirect_text(WIKIPEDIA_DOMAIN, text),
        Err(RedirectParseError::InvalidRedirect { text: _ })
    ));
}
