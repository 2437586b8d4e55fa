use wikidump_extract::extract::ArtistPages;
use wikidump_extract::link_counts::{parse_tuple_byte_stream, skip_to_insert_statement, CountsMap};
use wikidump_extract::link_targets::build_link_target_map;
use wikidump_extract::page_name::PageName;
use wikidump_extract::tuples::TupleError;

fn counts_with(ids: &[u64]) -> CountsMap {
    let mut c = CountsMap::new();
    for &id in ids {
        c.insert(id, 0);
    }
    c
}

#[test]
fn test_parse_simple_tuple() {
    let mut output = counts_with(&[123]);
    let data = "(1,0,123)";
    parse_tuple_byte_stream(data.as_bytes(), &mut output).unwrap();
    assert_eq!(output.get(123), Some(1));
}

#[test]
fn test_parse_multiple_tuples_with_extra_data() {
    let mut output = counts_with(&[123, 456, 789]);
    let data = b"INSERT INTO `pagelinks` VALUES (1,0,123),(2,0,456),(3,0,789);";
    // Skip the INSERT statement prefix before parsing.
    parse_tuple_byte_stream(&data[29..], &mut output).unwrap();
    assert_eq!(output.get(123), Some(1));
    assert_eq!(output.get(456), Some(1));
    assert_eq!(output.get(789), Some(1));
}

#[test]
fn test_parse_tuples_with_untracked_pages() {
    let mut output = counts_with(&[123, 789]);
    let data = b"INSERT INTO `pagelinks` VALUES (1,0,123),(2,0,456),(3,0,789);";
    // Skip the INSERT statement prefix before parsing.
    parse_tuple_byte_stream(&data[29..], &mut output).unwrap();
    assert_eq!(output.get(123), Some(1));
    assert_eq!(output.get(456), None);
    assert_eq!(output.get(789), Some(1));
}

#[test]
fn multi_tuple_stream_counts_each_destination_once() {
    let mut output = counts_with(&[123, 456, 789]);
    parse_tuple_byte_stream(b"(1,0,123),(2,0,456),(3,0,789);", &mut output).unwrap();
    assert_eq!(output.get(123), Some(1));
    assert_eq!(output.get(456), Some(1));
    assert_eq!(output.get(789), Some(1));
    assert_eq!(output.len(), 3);

    // With 456 absent from the map, its row contributes no increment anywhere.
    let mut partial = counts_with(&[123, 789]);
    parse_tuple_byte_stream(b"(1,0,123),(2,0,456),(3,0,789);", &mut partial).unwrap();
    assert_eq!(partial.get(123), Some(1));
    assert_eq!(partial.get(456), None);
    assert_eq!(partial.get(789), Some(1));
    assert_eq!(partial.len(), 2);
}

#[test]
fn skip_to_insert_statement_finds_the_anchor() {
    let data = b"-- dump header\nINSERT INTO `pagelinks` VALUES (1,0,2);";
    let prefix = b"INSERT INTO `pagelinks` VALUES ";
    let pos = skip_to_insert_statement(data, prefix).unwrap();
    assert_eq!(&data[pos..], b"(1,0,2);");
}

#[test]
fn skip_to_insert_statement_missing_anchor_is_fatal() {
    let data = b"-- a dump with no insert statement at all";
    let prefix = b"INSERT INTO `pagelinks` VALUES ";
    assert_eq!(skip_to_insert_statement(data, prefix), None);
}

#[test]
fn unexpected_byte_fails_the_stream() {
    let mut output = counts_with(&[1]);
    let r = parse_tuple_byte_stream(b"(1,x,2)", &mut output);
    assert_eq!(r, Err(TupleError::UnexpectedByte { byte: b'x' }));
}

#[test]
fn oversized_number_fails_the_stream() {
    let mut output = counts_with(&[1]);
    let r = parse_tuple_byte_stream(b"(99999999999999999999999,0,2)", &mut output);
    assert_eq!(r, Err(TupleError::NumberTooLarge));
}

fn entity_map(names: &[&str]) -> ArtistPages {
    let mut pages = ArtistPages::new();
    for name in names {
        let page = PageName::new((*name).to_string(), None);
        let mut file = page.sanitize();
        file.push_str(".wikitext");
        pages.insert(page, file);
    }
    pages
}

#[test]
fn link_target_row_decodes_underscores_to_spaces() {
    let pages = entity_map(&["Example Page"]);
    let map = build_link_target_map(&pages, b"(123,0,'Example_Page')").unwrap();
    assert_eq!(map.len(), 1);
    assert_eq!(
        map.get(123),
        Some(&PageName::new("Example Page".to_string(), None))
    );
    // Parsing is deterministic: the same stream yields the same map again.
    let again = build_link_target_map(&pages, b"(123,0,'Example_Page')").unwrap();
    assert_eq!(again.len(), 1);
    assert_eq!(
        again.get(123),
        Some(&PageName::new("Example Page".to_string(), None))
    );
}

#[test]
fn link_target_rows_outside_namespace_zero_are_dropped() {
    let pages = entity_map(&["Another Example", "Test Article", "X"]);
    let map =
        build_link_target_map(&pages, b"(456,1,'Another_Example'),(789,-1,'Test_Article');")
            .unwrap();
    assert_eq!(map.len(), 0);
    let map = build_link_target_map(&pages, b"(123,-2,'X');").unwrap();
    assert_eq!(map.len(), 0);
}

#[test]
fn link_target_escape_is_decoded_literally() {
    let pages = entity_map(&["Example'Page"]);
    let map = build_link_target_map(&pages, b"(123,0,'Example\\'Page')").unwrap();
    assert_eq!(map.len(), 1);
    assert_eq!(
        map.get(123),
        Some(&PageName::new("Example'Page".to_string(), None))
    );
}

#[test]
fn link_target_escaped_underscore_is_kept() {
    let pages = entity_map(&["a_b", "a b"]);
    let map = build_link_target_map(&pages, b"(1,0,'a\\_b'),(2,0,'a_b')").unwrap();
    assert_eq!(map.get(1), Some(&PageName::new("a_b".to_string(), None)));
    assert_eq!(map.get(2), Some(&PageName::new("a b".to_string(), None)));
}

#[test]
fn untracked_link_target_rows_are_dropped() {
    let pages = entity_map(&["Example Page"]);
    let map = build_link_target_map(&pages, b"(5,0,'Someone_Else')").unwrap();
    assert_eq!(map.len(), 0);
}
