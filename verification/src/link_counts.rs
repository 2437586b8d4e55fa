//! The inbound link aggregator: reads the page-link dump's tuple stream
//! `(source id, source namespace, destination id)` and counts, for every
//! tracked destination id, how many rows reference it.
use vstd::prelude::*;

use crate::maps::{assoc_view, lemma_assoc_contains, lemma_assoc_get, lemma_assoc_push,
    lemma_assoc_update, id_find, unique_keys};
use crate::compress::{gunzip, gunzip_of};
use crate::extract::IdPageMap;
use crate::page_name::PageName;
use crate::text::{find_sub_bytes, spec_find};
use crate::tuples::{spec_initial, spec_run, spec_step, state_wf, tuple_step, FieldKind, FieldV,
    FieldValue, ParseState, StepV, TupleError, TupleParser};

verus! {

/// A map of numeric page ids to inbound-reference counts.
pub struct CountsMap(pub Vec<(u64, u64)>);

impl CountsMap {
    /// The map this structure denotes.
    pub open spec fn map_view(&self) -> Map<u64, u64> {
        assoc_view(self.0@)
    }

    /// Entries carry pairwise-distinct ids.
    pub open spec fn wf(&self) -> bool {
        unique_keys(self.0@)
    }

    /// An empty map.
    pub fn new() -> (r: Self)
        ensures
            r.wf(),
            r.map_view() == Map::<u64, u64>::empty(),
    {
        CountsMap(Vec::new())
    }

    /// Insert a count, replacing any entry with the same id.
    pub fn insert(&mut self, k: u64, v: u64)
        requires
            old(self).wf(),
        ensures
            final(self).wf(),
            final(self).map_view() == old(self).map_view().insert(k, v),
    {
        let ghost e0 = self.0@;
        match id_find(&self.0, k) {
            Some(i) => {
                proof {
                    lemma_assoc_update(e0, i as int, k, v);
                }
                self.0[i] = (k, v);
            },
            None => {
                proof {
                    lemma_assoc_push(e0, k, v);
                }
                self.0.push((k, v));
            },
        }
    }

    /// The count recorded for an id.
    pub fn get(&self, k: u64) -> (r: Option<u64>)
        requires
            self.wf(),
        ensures
            match r {
                Some(v) => self.map_view().dom().contains(k) && self.map_view()[k] == v,
                None => !self.map_view().dom().contains(k),
            },
    {
        proof {
            lemma_assoc_contains(self.0@, k);
        }
        match id_find(&self.0, k) {
            Some(i) => {
                proof {
                    lemma_assoc_get(self.0@, i as int);
                }
                Some(self.0[i].1)
            },
            None => None,
        }
    }

    /// The number of entries.
    pub fn len(&self) -> (r: usize)
        ensures
            r == self.0@.len(),
    {
        self.0.len()
    }

    /// Add one to the count of `k` when `k` is present; otherwise leave the
    /// map alone.
    pub fn increment_if_present(&mut self, k: u64)
        requires
            old(self).wf(),
            old(self).map_view().dom().contains(k) ==> old(self).map_view()[k] < u64::MAX,
        ensures
            final(self).wf(),
            final(self).map_view() == if old(self).map_view().dom().contains(k) {
                old(self).map_view().insert(k, (old(self).map_view()[k] + 1) as u64)
            } else {
                old(self).map_view()
            },
    {
        let ghost e0 = self.0@;
        proof {
            lemma_assoc_contains(e0, k);
        }
        match id_find(&self.0, k) {
            Some(i) => {
                proof {
                    lemma_assoc_get(e0, i as int);
                }
                let c = self.0[i].1;
                proof {
                    lemma_assoc_update(e0, i as int, k, (c + 1) as u64);
                }
                self.0[i] = (k, c + 1);
            },
            None => {},
        }
    }
}

/// The schema of a page-link row: source id, source namespace,
/// destination id.
pub open spec fn spec_page_link_schema() -> Seq<FieldKind> {
    seq![FieldKind::Unsigned, FieldKind::Unsigned, FieldKind::Unsigned]
}

/// Executable form of [`spec_page_link_schema`].
pub fn page_link_schema() -> (r: Vec<FieldKind>)
    ensures
        r@ == spec_page_link_schema(),
{
    let mut v: Vec<FieldKind> = Vec::new();
    v.push(FieldKind::Unsigned);
    v.push(FieldKind::Unsigned);
    v.push(FieldKind::Unsigned);
    assert(v@ =~= spec_page_link_schema());
    v
}

/// The destination id of a well-shaped page-link row.
pub open spec fn spec_row_destination(t: Seq<FieldV>) -> Option<u64> {
    if t.len() == 3 && t[0] is UInt && t[1] is UInt && t[2] is UInt {
        Some(t[2]->UInt_0)
    } else {
        None
    }
}

/// The counts that a sequence of parsed rows yields over the seed map `m0`:
/// each row whose destination id is a key of the map adds one to that key's
/// count; every other row adds nothing anywhere.
pub open spec fn spec_counts_fold(m0: Map<u64, u64>, rows: Seq<Seq<FieldV>>) -> Map<u64, u64>
    decreases rows.len(),
{
    if rows.len() == 0 {
        m0
    } else {
        let m = spec_counts_fold(m0, rows.drop_last());
        match spec_row_destination(rows.last()) {
            Some(dest) => if m.dom().contains(dest) {
                m.insert(dest, (m[dest] + 1) as u64)
            } else {
                m
            },
            None => m,
        }
    }
}

/// Folding rows never changes which ids are present, and, over a seed of
/// zeroes, never counts past the number of rows.
proof fn lemma_counts_fold_bound(m0: Map<u64, u64>, rows: Seq<Seq<FieldV>>)
    requires
        forall|k: u64| m0.dom().contains(k) ==> m0[k] == 0,
    ensures
        spec_counts_fold(m0, rows).dom() == m0.dom(),
        forall|k: u64| #[trigger]
            spec_counts_fold(m0, rows).dom().contains(k) ==> spec_counts_fold(m0, rows)[k]
                <= rows.len(),
    decreases rows.len(),
{
    if rows.len() > 0 {
        lemma_counts_fold_bound(m0, rows.drop_last());
    }
}

/// Scan the stream until the insert-statement preamble has been consumed.
///
/// Returns the position directly after the first occurrence of `prefix`, or
/// `None` when the stream ends without the preamble: the structural anchor
/// of the dump is missing and the stage cannot proceed.
pub fn skip_to_insert_statement(stream: &[u8], prefix: &[u8]) -> (r: Option<usize>)
    ensures
        match r {
            Some(i) => spec_find(stream@, prefix@) is Some && i as int == spec_find(
                stream@,
                prefix@,
            ).unwrap() + prefix@.len(),
            None => spec_find(stream@, prefix@) is None,
        },
{
    let n = stream.len();
    match find_sub_bytes(stream, prefix) {
        Some(j) => {
            proof {
                crate::text::lemma_find_first(stream@, prefix@);
            }
            assert(j + prefix@.len() <= n);
            Some(j + prefix.len())
        },
        None => None,
    }
}

/// Count the destination of every page-link tuple of the stream.
///
/// `output` is seeded with a zero count for every tracked id. Each parsed
/// row whose destination id is a key of `output` adds one to that key, and
/// no row touches any other key. A format violation leaves the counts as
/// they were and fails the stage.
pub fn parse_tuple_byte_stream(stream: &[u8], output: &mut CountsMap) -> (r: Result<
    (),
    TupleError,
>)
    requires
        old(output).wf(),
        forall|k: u64| #[trigger]
            old(output).map_view().dom().contains(k) ==> old(output).map_view()[k] == 0,
    ensures
        final(output).wf(),
        match r {
            Ok(u) => spec_run(spec_page_link_schema(), spec_initial(), stream@) is Ok
                && final(output).map_view() == spec_counts_fold(
                old(output).map_view(),
                spec_run(spec_page_link_schema(), spec_initial(), stream@).unwrap(),
            ),
            Err(e) => spec_run(spec_page_link_schema(), spec_initial(), stream@) == Err::<
                Seq<Seq<FieldV>>,
                TupleError,
            >(e) && (exists|rows: Seq<Seq<FieldV>>|
                final(output).map_view() == #[trigger] spec_counts_fold(
                    old(output).map_view(),
                    rows,
                )),
        },
{
    let schema = page_link_schema();
    let ghost m0 = output.map_view();
    let n = stream.len();
    let mut p = TupleParser { state: ParseState::Searching, fields: Vec::new() };
    let ghost mut emitted: Seq<Seq<FieldV>> = Seq::empty();
    let mut i: usize = 0;
    proof {
        assert(crate::tuples::fields_view(Seq::<FieldValue>::empty()) =~= Seq::<FieldV>::empty());
        assert(p@ == spec_initial());
        assert(stream@.skip(0) =~= stream@);
        match spec_run(spec_page_link_schema(), spec_initial(), stream@) {
            Ok(rest) => {
                assert(emitted + rest =~= rest);
            },
            Err(e) => {},
        }
    }
    while i < n
        invariant
            n == stream@.len(),
            i <= n,
            schema@ == spec_page_link_schema(),
            state_wf(schema@, p@),
            output.wf(),
            m0 == old(output).map_view(),
            forall|k: u64| #[trigger] m0.dom().contains(k) ==> m0[k] == 0,
            emitted.len() <= i,
            output.map_view() == spec_counts_fold(m0, emitted),
            match spec_run(schema@, p@, stream@.skip(i as int)) {
                Ok(rest) => spec_run(schema@, spec_initial(), stream@) == Ok::<_, TupleError>(
                    emitted + rest,
                ),
                Err(e) => spec_run(schema@, spec_initial(), stream@) == Err::<
                    Seq<Seq<FieldV>>,
                    TupleError,
                >(e),
            },
        decreases n - i,
    {
        let ghost pre = p@;
        let ghost rem = stream@.skip(i as int);
        proof {
            assert(rem[0] == stream@[i as int]);
            assert(rem.drop_first() =~= stream@.skip(i + 1));
        }
        let b = stream[i];
        match tuple_step(schema.as_slice(), p, b) {
            Ok((p2, em)) => {
                p = p2;
                match em {
                    Some(t) => {
                        let ghost tv = crate::tuples::fields_view(t@);
                        proof {
                            lemma_counts_fold_bound(m0, emitted);
                            match spec_run(schema@, p@, stream@.skip(i + 1)) {
                                Ok(ts) => {
                                    assert(spec_run(schema@, pre, rem) == Ok::<_, TupleError>(
                                        seq![tv] + ts,
                                    ));
                                    assert(emitted + (seq![tv] + ts) =~= emitted.push(tv) + ts);
                                },
                                Err(e) => {},
                            }
                        }
                        // The destination of a well-shaped row is counted.
                        if t.len() == 3 {
                            let dest = match (&t[0], &t[1], &t[2]) {
                                (
                                    FieldValue::UInt(a),
                                    FieldValue::UInt(sn),
                                    FieldValue::UInt(d),
                                ) => Some(*d),
                                _ => None,
                            };
                            proof {
                                assert(tv.len() == 3);
                                assert(tv[0] == t@[0]@);
                                assert(tv[1] == t@[1]@);
                                assert(tv[2] == t@[2]@);
                            }
                            match dest {
                                Some(d) => {
                                    assert(spec_row_destination(tv) == Some(d));
                                    output.increment_if_present(d);
                                },
                                None => {
                                    assert(spec_row_destination(tv) is None);
                                },
                            }
                        } else {
                            assert(spec_row_destination(tv) is None);
                        }
                        proof {
                            let new_emitted = emitted.push(tv);
                            assert(new_emitted.drop_last() =~= emitted);
                            emitted = new_emitted;
                        }
                    },
                    None => {},
                }
            },
            Err(e) => {
                assert(output.map_view() == spec_counts_fold(m0, emitted));
                return Err(e);
            },
        }
        i += 1;
    }
    proof {
        assert(stream@.skip(n as int) =~= Seq::<u8>::empty());
    }
    Ok(())
}

/// Why inbound-link counting failed.
#[derive(Clone, Copy, Debug, PartialEq, Eq, Structural)]
pub enum LinkCountError {
    /// The compressed stream is not a well-formed gzip stream.
    BadCompression,
    /// The insert-statement preamble never appears before end of stream:
    /// the dump's structural anchor is missing and the stage aborts.
    MissingInsertStatement,
    /// A format violation inside the tuple stream.
    Stream(TupleError),
}

/// A zero count for every id of `dom`.
pub open spec fn spec_zero_counts(dom: Set<u64>) -> Map<u64, u64> {
    Map::new(|k: u64| dom.contains(k), |k: u64| 0u64)
}

/// What counting the inbound links of a compressed page-link dump yields:
/// the stream is decompressed, scanned up to the insert-statement preamble,
/// and its tuples are counted against a zero seed for every tracked id.
pub open spec fn spec_count_result(compressed: Seq<u8>, prefix: Seq<u8>, ids: Set<u64>) -> Result<
    Map<u64, u64>,
    LinkCountError,
> {
    match gunzip_of(compressed) {
        None => Err(LinkCountError::BadCompression),
        Some(data) => match spec_find(data, prefix) {
            None => Err(LinkCountError::MissingInsertStatement),
            Some(j) => {
                let body = data.subrange(j + prefix.len() as int, data.len() as int);
                match spec_run(spec_page_link_schema(), spec_initial(), body) {
                    Ok(rows) => Ok(spec_counts_fold(spec_zero_counts(ids), rows)),
                    Err(e) => Err(LinkCountError::Stream(e)),
                }
            },
        },
    }
}

/// A counts map holding a zero for every tracked id.
pub fn seed_counts(ids: &IdPageMap) -> (r: CountsMap)
    requires
        ids.wf(),
    ensures
        r.wf(),
        r.map_view() == spec_zero_counts(ids.map_view().dom()),
{
    let mut c = CountsMap::new();
    let n = ids.0.len();
    let mut i: usize = 0;
    while i < n
        invariant
            n == ids.0@.len(),
            i <= n,
            c.wf(),
            forall|k: u64| #[trigger]
                c.map_view().dom().contains(k) <==> exists|j: int|
                    0 <= j < i && (#[trigger] ids.0@[j]).0 == k,
            forall|k: u64| #[trigger]
                c.map_view().dom().contains(k) ==> c.map_view()[k] == 0,
        decreases n - i,
    {
        c.insert(ids.0[i].0, 0);
        i += 1;
    }
    proof {
        assert(c.map_view() =~= spec_zero_counts(ids.map_view().dom())) by {
            assert forall|k: u64|
                c.map_view().dom().contains(k) <==> ids.map_view().dom().contains(k) by {
                lemma_assoc_contains(ids.0@, k);
            }
        }
    }
    c
}

/// Count the inbound links of a compressed page-link dump.
///
/// Decompresses the stream, skips to the insert-statement preamble, and
/// counts every tuple's destination against a zero seed for every id of
/// `ids`. Which counts come out — and on which streams each error comes
/// out instead — is pinned by [`spec_count_result`].
pub fn count_inbound_links(compressed: &[u8], insert_prefix: &[u8], ids: &IdPageMap) -> (r: Result<
    CountsMap,
    LinkCountError,
>)
    requires
        ids.wf(),
    ensures
        match r {
            Ok(c) => c.wf() && spec_count_result(compressed@, insert_prefix@, ids.map_view().dom())
                == Ok::<_, LinkCountError>(c.map_view()),
            Err(e) => spec_count_result(compressed@, insert_prefix@, ids.map_view().dom()) == Err::<
                Map<u64, u64>,
                LinkCountError,
            >(e),
        },
{
    let data = match gunzip(compressed) {
        Some(d) => d,
        None => {
            return Err(LinkCountError::BadCompression);
        },
    };
    let start = match skip_to_insert_statement(data.as_slice(), insert_prefix) {
        Some(s) => s,
        None => {
            return Err(LinkCountError::MissingInsertStatement);
        },
    };
    proof {
        crate::text::lemma_find_first(data@, insert_prefix@);
    }
    assert(start <= data@.len());
    let body = vstd::slice::slice_subrange(data.as_slice(), start, data.len());
    let mut counts = seed_counts(ids);
    match parse_tuple_byte_stream(body, &mut counts) {
        Ok(u) => Ok(counts),
        Err(e) => Err(LinkCountError::Stream(e)),
    }
}

/// Resolve each counted id to its page name, entry by entry.
pub fn counts_by_page(counts: &CountsMap, ids: &IdPageMap) -> (r: Vec<(PageName, u64)>)
    requires
        ids.wf(),
        forall|i: int|
            0 <= i < counts.0@.len() ==> ids.map_view().dom().contains(
                (#[trigger] counts.0@[i]).0,
            ),
    ensures
        r@.len() == counts.0@.len(),
        forall|i: int|
            0 <= i < r@.len() ==> (#[trigger] r@[i]).0@ == ids.map_view()[counts.0@[i].0]
                && r@[i].1 == counts.0@[i].1,
{
    let n = counts.0.len();
    let mut out: Vec<(PageName, u64)> = Vec::new();
    let mut i: usize = 0;
    while i < n
        invariant
            n == counts.0@.len(),
            ids.wf(),
            forall|j: int|
                0 <= j < n ==> ids.map_view().dom().contains((#[trigger] counts.0@[j]).0),
            i <= n,
            out@.len() == i,
            forall|j: int|
                0 <= j < i ==> (#[trigger] out@[j]).0@ == ids.map_view()[counts.0@[j].0]
                    && out@[j].1 == counts.0@[j].1,
        decreases n - i,
    {
        let k = counts.0[i].0;
        match ids.get(k) {
            Some(p) => {
                out.push((p.clone(), counts.0[i].1));
            },
            None => {
                assert(false);
            },
        }
        i += 1;
    }
    out
}

} // verus!
