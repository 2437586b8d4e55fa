//! The link-target table: tuples `(id, namespace, 'title')` streamed out of
//! a SQL bulk insert. A row is retained only when its namespace is zero and
//! its decoded title names a tracked entity page; retained rows populate the
//! map from numeric link-target id to page name.
use vstd::prelude::*;
use vstd::utf8::{decode_utf8, valid_utf8};

use crate::extract::{ArtistPages, IdPageMap};
use crate::page_name::{PageName, PageNameView};
use crate::tuples::{spec_initial, spec_run, parse_tuple_stream, tuples_view, FieldKind, FieldV,
    FieldValue, TupleError};

verus! {

/// The schema of a link-target row: an unsigned id, a signed namespace,
/// and a quoted title.
pub open spec fn spec_link_target_schema() -> Seq<FieldKind> {
    seq![FieldKind::Unsigned, FieldKind::Signed, FieldKind::Title]
}

/// Executable form of [`spec_link_target_schema`].
pub fn link_target_schema() -> (r: Vec<FieldKind>)
    ensures
        r@ == spec_link_target_schema(),
{
    let mut v: Vec<FieldKind> = Vec::new();
    v.push(FieldKind::Unsigned);
    v.push(FieldKind::Signed);
    v.push(FieldKind::Title);
    assert(v@ =~= spec_link_target_schema());
    v
}

/// The page a title field names: its decoded characters, with no heading.
pub open spec fn spec_title_page(title: Seq<u8>) -> PageNameView {
    PageNameView { name: decode_utf8(title), heading: None }
}

/// Whether a parsed row is retained: it has the schema's shape, its
/// namespace is zero, its title is well-formed UTF-8, and the decoded title
/// is a key of the tracked entity-page map. A title that is not well-formed
/// UTF-8 cannot equal any tracked page name, so such a row is dropped.
pub open spec fn spec_row_kept(entity_pages: Map<PageNameView, Seq<char>>, t: Seq<FieldV>) -> bool {
    &&& t.len() == 3
    &&& t[0] is UInt
    &&& t[1] == FieldV::Int(0)
    &&& t[2] is Title
    &&& valid_utf8(t[2]->Title_0)
    &&& entity_pages.dom().contains(spec_title_page(t[2]->Title_0))
}

/// The link-target map that a sequence of parsed rows denotes: each retained
/// row maps its id to its decoded title page, later rows winning.
pub open spec fn spec_link_target_fold(
    entity_pages: Map<PageNameView, Seq<char>>,
    rows: Seq<Seq<FieldV>>,
) -> Map<u64, PageNameView>
    decreases rows.len(),
{
    if rows.len() == 0 {
        Map::empty()
    } else {
        let m = spec_link_target_fold(entity_pages, rows.drop_last());
        let r = rows.last();
        if spec_row_kept(entity_pages, r) {
            m.insert(r[0]->UInt_0, spec_title_page(r[2]->Title_0))
        } else {
            m
        }
    }
}

/// Build the link-target map from the decompressed bytes of the link-target
/// dump, positioned after the insert-statement preamble.
///
/// Exactly the rows that [`spec_row_kept`] keeps — namespace zero, decoded
/// title a tracked entity page — enter the map; a format violation in the
/// stream is returned unchanged.
pub fn build_link_target_map(entity_pages: &ArtistPages, bytes: &[u8]) -> (r: Result<
    IdPageMap,
    TupleError,
>)
    ensures
        match r {
            Ok(m) => {
                &&& m.wf()
                &&& spec_run(spec_link_target_schema(), spec_initial(), bytes@) is Ok
                &&& m.map_view() == spec_link_target_fold(
                    entity_pages.map_view(),
                    spec_run(spec_link_target_schema(), spec_initial(), bytes@).unwrap(),
                )
            },
            Err(e) => spec_run(spec_link_target_schema(), spec_initial(), bytes@) == Err::<
                Seq<Seq<FieldV>>,
                TupleError,
            >(e),
        },
{
    let schema = link_target_schema();
    let rows = match parse_tuple_stream(schema.as_slice(), bytes) {
        Ok(rows) => rows,
        Err(e) => {
            return Err(e);
        },
    };
    let ghost rv = tuples_view(rows@);
    let mut m = IdPageMap::new();
    let n = rows.len();
    let mut i: usize = 0;
    proof {
        assert(rv.subrange(0, 0) =~= Seq::<Seq<FieldV>>::empty());
    }
    while i < n
        invariant
            n == rows@.len(),
            rv == tuples_view(rows@),
            i <= n,
            m.wf(),
            m.map_view() == spec_link_target_fold(entity_pages.map_view(), rv.subrange(0, i as int)),
        decreases n - i,
    {
        proof {
            assert(rv.subrange(0, i + 1).drop_last() =~= rv.subrange(0, i as int));
            assert(rv.subrange(0, i + 1).last() == rv[i as int]);
        }
        let t = &rows[i];
        if t.len() == 3 {
            let kept = match (&t[0], &t[1], &t[2]) {
                (FieldValue::UInt(id), FieldValue::Int(ns), FieldValue::Title(tb)) => {
                    if *ns == 0 {
                        match crate::text::utf8_to_string(tb) {
                            Some(s) => {
                                let page = PageName { name: s, heading: None };
                                if entity_pages.contains_key(&page) {
                                    Some((*id, page))
                                } else {
                                    None
                                }
                            },
                            None => None,
                        }
                    } else {
                        None
                    }
                },
                _ => None,
            };
            proof {
                assert(rv[i as int].len() == 3);
                assert(rv[i as int][0] == t@[0]@);
                assert(rv[i as int][1] == t@[1]@);
                assert(rv[i as int][2] == t@[2]@);
            }
            match kept {
                Some((id, page)) => {
                    m.insert(id, page);
                },
                None => {
                    assert(!spec_row_kept(entity_pages.map_view(), rv[i as int]));
                },
            }
        } else {
            assert(!spec_row_kept(entity_pages.map_view(), rv[i as int]));
        }
        i += 1;
    }
    proof {
        assert(rv.subrange(0, n as int) =~= rv);
    }
    Ok(m)
}

} // verus!
