use std::io::Read;

use wikidump_extract::extract::{extract_wikipedia_meta, process_offset_slice, ExtractError,
    IdPageMap, IntermediateData, MetaError};
use wikidump_extract::link_counts::{count_inbound_links, counts_by_page, seed_counts,
    LinkCountError};
use wikidump_extract::links::LinksToArticles;
use wikidump_extract::data_patches::pages_to_ignore;
use wikidump_extract::offsets::{load_offsets_from_index, parse_index_offsets, parse_offsets_file,
    OffsetError};
use wikidump_extract::page_name::{sanitize_page_name, unsanitize_page_name, PageName};
use wikidump_extract::time::{parse_timestamp, Date, Timestamp};

fn bz2(data: &[u8]) -> Vec<u8> {
    let mut enc = bzip2::read::BzEncoder::new(data, bzip2::Compression::best());
    let mut out = Vec::new();
    enc.read_to_end(&mut out).unwrap();
    out
}

fn gz(data: &[u8]) -> Vec<u8> {
    let mut enc = flate2::read::GzEncoder::new(data, flate2::Compression::default());
    let mut out = Vec::new();
    enc.read_to_end(&mut out).unwrap();
    out
}

const ARTIST_BLOCK: &str = "<mediawiki><page><title>Epic Fusion</title><id>77</id>\
<revision><id>900</id><timestamp>2025-01-23T12:34:56Z</timestamp>\
<text>{{Infobox musical artist}} a band</text></revision></page></mediawiki>";

const REDIRECT_BLOCK: &str = "<mediawiki><page><title>Fusion Epic</title><id>78</id>\
<revision><id>901</id><timestamp>2025-01-23T12:34:56Z</timestamp>\
<text>#REDIRECT [[Epic Fusion]]</text></revision></page></mediawiki>";

#[test]
fn two_block_extraction_merges_order_independently() {
    let block1 = bz2(ARTIST_BLOCK.as_bytes());
    let block2 = bz2(REDIRECT_BLOCK.as_bytes());
    let mut dump = Vec::new();
    dump.extend_from_slice(&block1);
    dump.extend_from_slice(&block2);
    let offsets = [0usize, block1.len()];

    let b1 = process_offset_slice(&dump, offsets[0], "en.wikipedia.org").unwrap();
    let b2 = process_offset_slice(&dump, offsets[1], "en.wikipedia.org").unwrap();

    let mut first_order = IntermediateData::new();
    first_order.merge(&b1.data);
    first_order.merge(&b2.data);

    let mut second_order = IntermediateData::new();
    second_order.merge(&b2.data);
    second_order.merge(&b1.data);

    for merged in [&first_order, &second_order] {
        assert_eq!(merged.artist_pages.len(), 1);
        assert_eq!(merged.genre_pages.len(), 0);
        assert_eq!(merged.redirects.len(), 1);
        assert_eq!(merged.id_to_page_names.len(), 1);
        let artist = PageName::new("Epic Fusion".to_string(), None);
        assert_eq!(
            merged.artist_pages.get(&artist),
            Some(&"Epic Fusion.wikitext".to_string())
        );
        let redirect = PageName::new("Fusion Epic".to_string(), None);
        assert_eq!(merged.redirects.get(&redirect), Some(&artist));
        assert_eq!(merged.id_to_page_names.get(77), Some(&artist));
    }
}

#[test]
fn tracked_page_record_carries_header_and_text() {
    let block = bz2(ARTIST_BLOCK.as_bytes());
    let b = process_offset_slice(&block, 0, "en.wikipedia.org").unwrap();
    assert_eq!(b.records.len(), 1);
    let rec = &b.records[0];
    assert_eq!(rec.page, PageName::new("Epic Fusion".to_string(), None));
    assert_eq!(rec.id, 77);
    assert_eq!(
        rec.timestamp,
        Timestamp {
            date: Date { year: 2025, month: 1, day: 23 },
            hour: 12,
            minute: 34,
            second: 56,
        }
    );
    assert_eq!(rec.text, "{{Infobox musical artist}} a band");
    assert_eq!(rec.file_name, "Epic Fusion.wikitext");
    assert_eq!(b.warnings.len(), 0);
}

#[test]
fn namespaced_and_markerless_pages_are_skipped() {
    let xml = "<mediawiki><page><title>Talk:Epic Fusion</title><id>1</id>\
<revision><timestamp>2025-01-23T12:34:56Z</timestamp>\
<text>{{Infobox musical artist}}</text></revision></page>\
<page><title>Plain</title><id>2</id>\
<revision><timestamp>2025-01-23T12:34:56Z</timestamp>\
<text>just words</text></revision></page></mediawiki>";
    let block = bz2(xml.as_bytes());
    let b = process_offset_slice(&block, 0, "en.wikipedia.org").unwrap();
    assert_eq!(b.records.len(), 0);
    assert_eq!(b.data.artist_pages.len(), 0);
    assert_eq!(b.data.genre_pages.len(), 0);
}

#[test]
fn malformed_timestamp_is_fatal_for_the_block() {
    let xml = "<mediawiki><page><title>Epic Fusion</title><id>77</id>\
<revision><timestamp>yesterday</timestamp>\
<text>{{Infobox musical artist}}</text></revision></page></mediawiki>";
    let block = bz2(xml.as_bytes());
    let r = process_offset_slice(&block, 0, "en.wikipedia.org");
    assert!(matches!(r, Err(ExtractError::MalformedTimestamp { .. })));
}

#[test]
fn malformed_page_id_is_fatal_for_the_block() {
    let xml = "<mediawiki><page><title>Epic Fusion</title><id>seventy</id>\
<revision><timestamp>2025-01-23T12:34:56Z</timestamp>\
<text>{{Infobox musical artist}}</text></revision></page></mediawiki>";
    let block = bz2(xml.as_bytes());
    let r = process_offset_slice(&block, 0, "en.wikipedia.org");
    assert!(matches!(r, Err(ExtractError::MalformedPageId { .. })));
}

#[test]
fn unparsable_redirect_is_a_warning_not_an_entry() {
    let xml = "<mediawiki><page><title>Odd Redirect</title><id>5</id>\
<revision><timestamp>2025-01-23T12:34:56Z</timestamp>\
<text>#REDIRECT to nowhere</text></revision></page></mediawiki>";
    let block = bz2(xml.as_bytes());
    let b = process_offset_slice(&block, 0, "en.wikipedia.org").unwrap();
    assert_eq!(b.data.redirects.len(), 0);
    assert_eq!(b.warnings.len(), 1);
    assert_eq!(b.warnings[0].0, PageName::new("Odd Redirect".to_string(), None));
}

#[test]
fn corrupted_block_is_fatal_for_the_slice() {
    let garbage = b"this is not a bzip2 stream";
    let r = process_offset_slice(garbage, 0, "en.wikipedia.org");
    assert!(matches!(r, Err(ExtractError::BadBlock)));
}

#[test]
fn header_region_yields_domain_and_db_name() {
    let xml = "<mediawiki><siteinfo><sitename>Wikipedia</sitename>\
<dbname>enwiki</dbname><base>https://en.wikipedia.org/wiki/Main_Page</base>\
</siteinfo></mediawiki>";
    let header = bz2(xml.as_bytes());
    let (domain, db) = extract_wikipedia_meta(&header, header.len()).unwrap();
    assert_eq!(domain, "en.wikipedia.org");
    assert_eq!(db, "enwiki");
}

#[test]
fn header_without_db_name_is_rejected() {
    let xml = "<mediawiki><siteinfo>\
<base>https://en.wikipedia.org/wiki/Main_Page</base></siteinfo></mediawiki>";
    let header = bz2(xml.as_bytes());
    let r = extract_wikipedia_meta(&header, header.len());
    assert!(matches!(r, Err(MetaError::MissingDbName)));
}

#[test]
fn parse_timestamp_reads_the_dump_shape_exactly() {
    assert_eq!(
        parse_timestamp("2025-01-23T12:34:56Z"),
        Some(Timestamp {
            date: Date { year: 2025, month: 1, day: 23 },
            hour: 12,
            minute: 34,
            second: 56,
        })
    );
    assert_eq!(parse_timestamp("2025-13-23T12:34:56Z"), None);
    assert_eq!(parse_timestamp("2025-01-23 12:34:56"), None);
    assert_eq!(parse_timestamp(""), None);
}

#[test]
fn sanitize_round_trips_through_the_substitutes() {
    let page = PageName::new("AC/DC: Let * be <it>?".to_string(), Some("\"Heading\" | part".to_string()));
    let encoded = sanitize_page_name(&page);
    assert!(!encoded.contains('/'));
    assert!(!encoded.contains(':'));
    assert!(!encoded.contains('*'));
    assert!(!encoded.contains('?'));
    assert!(!encoded.contains('<'));
    assert!(!encoded.contains('>'));
    assert!(!encoded.contains('|'));
    assert!(!encoded.contains('"'));
    assert_eq!(unsanitize_page_name(&encoded), page);
}

#[test]
fn sanitize_joins_heading_with_a_hash() {
    let page = PageName::new("UK hard house".to_string(), Some("Scouse house".to_string()));
    assert_eq!(page.sanitize(), "UK hard house#Scouse house");
    assert_eq!(PageName::unsanitize("UK hard house#Scouse house"), page);
}

#[test]
fn linksafe_turns_spaces_into_underscores() {
    let page = PageName::new("Epic Fusion".to_string(), Some("A B".to_string()));
    let safe = page.linksafe();
    assert_eq!(safe.name, "Epic_Fusion");
    assert_eq!(safe.heading, Some("A B".to_string()));
}

#[test]
fn offsets_file_parses_one_integer_per_line() {
    assert_eq!(parse_offsets_file("123\n456\n"), Ok(vec![123, 456]));
    assert_eq!(parse_offsets_file(""), Ok(vec![]));
    assert_eq!(
        parse_offsets_file("123\nnope\n"),
        Err(OffsetError::UnparsableOffset)
    );
}

#[test]
fn index_offsets_are_sorted_and_deduplicated() {
    assert_eq!(
        parse_index_offsets("5:Foo\n5:Bar\n1:Baz\n9:Qux\n"),
        Ok(vec![1, 5, 9])
    );
    assert_eq!(
        parse_index_offsets("nocolon\n"),
        Err(OffsetError::MissingSeparator)
    );
    assert_eq!(
        parse_index_offsets("x5:Foo\n"),
        Err(OffsetError::UnparsableOffset)
    );
}

#[test]
fn compressed_index_loads_through_decompression() {
    let compressed = bz2(b"5:Foo\n5:Bar\n1:Baz\n");
    assert_eq!(load_offsets_from_index(&compressed), Ok(vec![1, 5]));
    assert_eq!(
        load_offsets_from_index(b"not bzip2"),
        Err(OffsetError::BadCompression)
    );
}

#[test]
fn inbound_links_are_counted_through_the_compressed_dump() {
    let artist = PageName::new("Epic Fusion".to_string(), None);
    let mut ids = IdPageMap::new();
    ids.insert(123, artist.clone());
    ids.insert(456, PageName::new("Other".to_string(), None));

    let sql = b"-- header\nINSERT INTO `pagelinks` VALUES (1,0,123),(2,0,123),(3,0,999);\n";
    let compressed = gz(sql);
    let prefix = b"INSERT INTO `pagelinks` VALUES ";
    let counts = count_inbound_links(&compressed, prefix, &ids).unwrap();
    assert_eq!(counts.get(123), Some(2));
    assert_eq!(counts.get(456), Some(0));
    assert_eq!(counts.get(999), None);

    let by_page = counts_by_page(&counts, &ids);
    assert_eq!(by_page.len(), 2);
    for (page, count) in &by_page {
        if *page == artist {
            assert_eq!(*count, 2);
        } else {
            assert_eq!(*count, 0);
        }
    }
}

#[test]
fn missing_insert_statement_aborts_the_stage() {
    let ids = IdPageMap::new();
    let compressed = gz(b"no insert statement here");
    let prefix = b"INSERT INTO `pagelinks` VALUES ";
    assert!(matches!(
        count_inbound_links(&compressed, prefix, &ids),
        Err(LinkCountError::MissingInsertStatement)
    ));
    assert!(matches!(
        count_inbound_links(b"not gzip", prefix, &ids),
        Err(LinkCountError::BadCompression)
    ));
}

#[test]
fn seeded_counts_start_at_zero() {
    let mut ids = IdPageMap::new();
    ids.insert(7, PageName::new("A".to_string(), None));
    ids.insert(8, PageName::new("B".to_string(), None));
    let counts = seed_counts(&ids);
    assert_eq!(counts.len(), 2);
    assert_eq!(counts.get(7), Some(0));
    assert_eq!(counts.get(8), Some(0));
}

#[test]
fn links_to_articles_lowers_the_spelling() {
    let rock = PageName::new("Rock music".to_string(), None);
    let links = LinksToArticles(vec![("rock music".to_string(), rock.clone())]);
    assert_eq!(links.map("Rock Music"), Some(rock));
    assert_eq!(links.map("ROCK MUSIC"), Some(PageName::new("Rock music".to_string(), None)));
    assert_eq!(links.map("unknown"), None);
}

#[test]
fn ignored_pages_are_the_known_redefinitions() {
    let pages = pages_to_ignore();
    assert_eq!(pages.len(), 3);
    assert_eq!(pages[0], PageName::new("Outline of jazz".to_string(), None));
    assert_eq!(
        pages[1],
        PageName::new("Styles of pop music".to_string(), Some("Pop soul / Motown".to_string()))
    );
    assert_eq!(
        pages[2],
        PageName::new("Styles of pop music".to_string(), Some("Street pop".to_string()))
    );
}

#[test]
fn merge_prefers_the_later_value_for_a_duplicate_key() {
    let page = PageName::new("Epic Fusion".to_string(), None);
    let mut left = IntermediateData::new();
    left.genre_pages.insert(page.clone(), "old.wikitext".to_string());
    let mut right = IntermediateData::new();
    right.genre_pages.insert(page.clone(), "new.wikitext".to_string());
    left.merge(&right);
    assert_eq!(left.genre_pages.len(), 1);
    assert_eq!(left.genre_pages.get(&page), Some(&"new.wikitext".to_string()));
}

#[test]
fn inserting_twice_replaces_the_entry() {
    let page = PageName::new("A".to_string(), None);
    let mut ids = IdPageMap::new();
    ids.insert(1, page.clone());
    ids.insert(1, PageName::new("B".to_string(), None));
    assert_eq!(ids.len(), 1);
    assert_eq!(ids.get(1), Some(&PageName::new("B".to_string(), None)));
}

#[test]
fn with_opt_heading_replaces_only_the_heading() {
    let page = PageName::new("Epic Fusion".to_string(), None);
    let sub = page.with_opt_heading(Some("Origins".to_string()));
    assert_eq!(sub.name, "Epic Fusion");
    assert_eq!(sub.heading, Some("Origins".to_string()));
}
