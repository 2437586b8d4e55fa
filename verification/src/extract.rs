//! Extraction of tracked pages and redirects from the offset-indexed dump:
//! the per-block scan state machine, the partial results each worker
//! gathers, and their key-wise union.
use vstd::prelude::*;
use vstd::string::StringExecFns;

use crate::compress::{bunzip, bunzip_of};
use crate::maps::{assoc_view, lemma_assoc_contains, lemma_assoc_get, lemma_assoc_push,
    lemma_assoc_update, lemma_union_disjoint_comm, page_find, id_find, unique_keys};
use crate::page_name::{spec_sanitize, PageName, PageNameView};
use crate::redirect::{parse_redirect_text, spec_parse_redirect, RedirectErrorKind,
    RedirectParseError};
use crate::text::{all_digits, digits_val, find_char, find_sub, parse_u64_chars, spec_find,
    spec_starts_with, starts_with_chars, str_eq, str_to_chars};
use crate::time::{parse_timestamp, spec_parse_timestamp, Timestamp};
use crate::xml::{events_view, read_all_events, EventV, XmlEvent};

verus! {

/// A map of genre page names to their output file names.
pub struct GenrePages(pub Vec<(PageName, String)>);

/// A map of musical artist page names to their output file names.
pub struct ArtistPages(pub Vec<(PageName, String)>);

/// A map of redirect page names to the page they redirect to,
/// total over every redirect found in the dump.
pub struct RedirectMap(pub Vec<(PageName, PageName)>);

/// A map of numeric page ids to page names.
pub struct IdPageMap(pub Vec<(u64, PageName)>);

impl GenrePages {
    /// The map this structure denotes.
    pub open spec fn map_view(&self) -> Map<PageNameView, Seq<char>> {
        assoc_view(self.0@)
    }

    /// Entries carry pairwise-distinct page names.
    pub open spec fn wf(&self) -> bool {
        unique_keys(self.0@)
    }

    /// An empty map.
    pub fn new() -> (r: Self)
        ensures
            r.wf(),
            r.map_view() == Map::<PageNameView, Seq<char>>::empty(),
    {
        GenrePages(Vec::new())
    }

    /// Iterate over all genre pages.
    pub fn iter(&self) -> (r: &Vec<(PageName, String)>)
        ensures
            r@ == self.0@,
    {
        &self.0
    }

    /// Insert a page, replacing any entry with the same name.
    pub fn insert(&mut self, k: PageName, v: String)
        requires
            old(self).wf(),
        ensures
            final(self).wf(),
            final(self).map_view() == old(self).map_view().insert(k@, v@),
    {
        let ghost e0 = self.0@;
        match page_find(&self.0, &k) {
            Some(i) => {
                proof {
                    lemma_assoc_update(e0, i as int, k, v);
                }
                self.0[i] = (k, v);
            },
            None => {
                proof {
                    lemma_assoc_push(e0, k, v);
                }
                self.0.push((k, v));
            },
        }
    }

    /// Whether a page of this name is in the map.
    pub fn contains_key(&self, k: &PageName) -> (r: bool)
        ensures
            r == self.map_view().dom().contains(k@),
    {
        proof {
            lemma_assoc_contains(self.0@, k@);
        }
        match page_find(&self.0, k) {
            Some(i) => true,
            None => false,
        }
    }

    /// The output file name recorded for a page.
    pub fn get(&self, k: &PageName) -> (r: Option<&String>)
        requires
            self.wf(),
        ensures
            match r {
                Some(v) => self.map_view().dom().contains(k@) && self.map_view()[k@] == v@,
                None => !self.map_view().dom().contains(k@),
            },
    {
        proof {
            lemma_assoc_contains(self.0@, k@);
        }
        match page_find(&self.0, k) {
            Some(i) => {
                proof {
                    lemma_assoc_get(self.0@, i as int);
                }
                Some(&self.0[i].1)
            },
            None => None,
        }
    }

    /// The number of entries.
    pub fn len(&self) -> (r: usize)
        ensures
            r == self.0@.len(),
    {
        self.0.len()
    }

    /// Insert every entry of `other`, later values replacing earlier ones.
    pub fn merge_from(&mut self, other: &GenrePages)
        requires
            old(self).wf(),
        ensures
            final(self).wf(),
            final(self).map_view() == old(self).map_view().union_prefer_right(other.map_view()),
    {
        let n = other.0.len();
        let mut i: usize = 0;
        proof {
            assert(other.0@.subrange(0, 0) =~= Seq::<(PageName, String)>::empty());
            assert(old(self).map_view().union_prefer_right(assoc_view(other.0@.subrange(0, 0)))
                =~= old(self).map_view());
        }
        while i < n
            invariant
                n == other.0@.len(),
                i <= n,
                self.wf(),
                self.map_view() == old(self).map_view().union_prefer_right(
                    assoc_view(other.0@.subrange(0, i as int)),
                ),
            decreases n - i,
        {
            let k = other.0[i].0.clone();
            let v = other.0[i].1.clone();
            proof {
                assert(other.0@.subrange(0, i + 1) =~= other.0@.subrange(0, i as int).push(
                    other.0@[i as int],
                ));
                lemma_assoc_push(other.0@.subrange(0, i as int), other.0@[i as int].0,
                    other.0@[i as int].1);
                vstd::map_lib::lemma_union_insert_right(
                    old(self).map_view(),
                    assoc_view(other.0@.subrange(0, i as int)),
                    k@,
                    v@,
                );
            }
            self.insert(k, v);
            i += 1;
        }
        proof {
            assert(other.0@.subrange(0, n as int) =~= other.0@);
        }
    }
}

impl ArtistPages {
    /// The map this structure denotes.
    pub open spec fn map_view(&self) -> Map<PageNameView, Seq<char>> {
        assoc_view(self.0@)
    }

    /// Entries carry pairwise-distinct page names.
    pub open spec fn wf(&self) -> bool {
        unique_keys(self.0@)
    }

    /// An empty map.
    pub fn new() -> (r: Self)
        ensures
            r.wf(),
            r.map_view() == Map::<PageNameView, Seq<char>>::empty(),
    {
        ArtistPages(Vec::new())
    }

    /// Iterate over all musical artist pages.
    pub fn iter(&self) -> (r: &Vec<(PageName, String)>)
        ensures
            r@ == self.0@,
    {
        &self.0
    }

    /// Insert a page, replacing any entry with the same name.
    pub fn insert(&mut self, k: PageName, v: String)
        requires
            old(self).wf(),
        ensures
            final(self).wf(),
            final(self).map_view() == old(self).map_view().insert(k@, v@),
    {
        let ghost e0 = self.0@;
        match page_find(&self.0, &k) {
            Some(i) => {
                proof {
                    lemma_assoc_update(e0, i as int, k, v);
                }
                self.0[i] = (k, v);
            },
            None => {
                proof {
                    lemma_assoc_push(e0, k, v);
                }
                self.0.push((k, v));
            },
        }
    }

    /// Whether a page of this name is in the map.
    pub fn contains_key(&self, k: &PageName) -> (r: bool)
        ensures
            r == self.map_view().dom().contains(k@),
    {
        proof {
            lemma_assoc_contains(self.0@, k@);
        }
        match page_find(&self.0, k) {
            Some(i) => true,
            None => false,
        }
    }

    /// The output file name recorded for a page.
    pub fn get(&self, k: &PageName) -> (r: Option<&String>)
        requires
            self.wf(),
        ensures
            match r {
                Some(v) => self.map_view().dom().contains(k@) && self.map_view()[k@] == v@,
                None => !self.map_view().dom().contains(k@),
            },
    {
        proof {
            lemma_assoc_contains(self.0@, k@);
        }
        match page_find(&self.0, k) {
            Some(i) => {
                proof {
                    lemma_assoc_get(self.0@, i as int);
                }
                Some(&self.0[i].1)
            },
            None => None,
        }
    }

    /// The number of entries.
    pub fn len(&self) -> (r: usize)
        ensures
            r == self.0@.len(),
    {
        self.0.len()
    }

    /// Insert every entry of `other`, later values replacing earlier ones.
    pub fn merge_from(&mut self, other: &ArtistPages)
        requires
            old(self).wf(),
        ensures
            final(self).wf(),
            final(self).map_view() == old(self).map_view().union_prefer_right(other.map_view()),
    {
        let n = other.0.len();
        let mut i: usize = 0;
        proof {
            assert(other.0@.subrange(0, 0) =~= Seq::<(PageName, String)>::empty());
            assert(old(self).map_view().union_prefer_right(assoc_view(other.0@.subrange(0, 0)))
                =~= old(self).map_view());
        }
        while i < n
            invariant
                n == other.0@.len(),
                i <= n,
                self.wf(),
                self.map_view() == old(self).map_view().union_prefer_right(
                    assoc_view(other.0@.subrange(0, i as int)),
                ),
            decreases n - i,
        {
            let k = other.0[i].0.clone();
            let v = other.0[i].1.clone();
            proof {
                assert(other.0@.subrange(0, i + 1) =~= other.0@.subrange(0, i as int).push(
                    other.0@[i as int],
                ));
                lemma_assoc_push(other.0@.subrange(0, i as int), other.0@[i as int].0,
                    other.0@[i as int].1);
                vstd::map_lib::lemma_union_insert_right(
                    old(self).map_view(),
                    assoc_view(other.0@.subrange(0, i as int)),
                    k@,
                    v@,
                );
            }
            self.insert(k, v);
            i += 1;
        }
        proof {
            assert(other.0@.subrange(0, n as int) =~= other.0@);
        }
    }
}

impl RedirectMap {
    /// The map this structure denotes.
    pub open spec fn map_view(&self) -> Map<PageNameView, PageNameView> {
        assoc_view(self.0@)
    }

    /// Entries carry pairwise-distinct page names.
    pub open spec fn wf(&self) -> bool {
        unique_keys(self.0@)
    }

    /// An empty map.
    pub fn new() -> (r: Self)
        ensures
            r.wf(),
            r.map_view() == Map::<PageNameView, PageNameView>::empty(),
    {
        RedirectMap(Vec::new())
    }

    /// Insert a redirect, replacing any entry for the same page.
    pub fn insert(&mut self, k: PageName, v: PageName)
        requires
            old(self).wf(),
        ensures
            final(self).wf(),
            final(self).map_view() == old(self).map_view().insert(k@, v@),
    {
        let ghost e0 = self.0@;
        match page_find(&self.0, &k) {
            Some(i) => {
                proof {
                    lemma_assoc_update(e0, i as int, k, v);
                }
                self.0[i] = (k, v);
            },
            None => {
                proof {
                    lemma_assoc_push(e0, k, v);
                }
                self.0.push((k, v));
            },
        }
    }

    /// The redirect target recorded for a page.
    pub fn get(&self, k: &PageName) -> (r: Option<&PageName>)
        requires
            self.wf(),
        ensures
            match r {
                Some(v) => self.map_view().dom().contains(k@) && self.map_view()[k@] == v@,
                None => !self.map_view().dom().contains(k@),
            },
    {
        proof {
            lemma_assoc_contains(self.0@, k@);
        }
        match page_find(&self.0, k) {
            Some(i) => {
                proof {
                    lemma_assoc_get(self.0@, i as int);
                }
                Some(&self.0[i].1)
            },
            None => None,
        }
    }

    /// The number of entries.
    pub fn len(&self) -> (r: usize)
        ensures
            r == self.0@.len(),
    {
        self.0.len()
    }

    /// Insert every entry of `other`, later values replacing earlier ones.
    pub fn merge_from(&mut self, other: &RedirectMap)
        requires
            old(self).wf(),
        ensures
            final(self).wf(),
            final(self).map_view() == old(self).map_view().union_prefer_right(other.map_view()),
    {
        let n = other.0.len();
        let mut i: usize = 0;
        proof {
            assert(other.0@.subrange(0, 0) =~= Seq::<(PageName, PageName)>::empty());
            assert(old(self).map_view().union_prefer_right(assoc_view(other.0@.subrange(0, 0)))
                =~= old(self).map_view());
        }
        while i < n
            invariant
                n == other.0@.len(),
                i <= n,
                self.wf(),
                self.map_view() == old(self).map_view().union_prefer_right(
                    assoc_view(other.0@.subrange(0, i as int)),
                ),
            decreases n - i,
        {
            let k = other.0[i].0.clone();
            let v = other.0[i].1.clone();
            proof {
                assert(other.0@.subrange(0, i + 1) =~= other.0@.subrange(0, i as int).push(
                    other.0@[i as int],
                ));
                lemma_assoc_push(other.0@.subrange(0, i as int), other.0@[i as int].0,
                    other.0@[i as int].1);
                vstd::map_lib::lemma_union_insert_right(
                    old(self).map_view(),
                    assoc_view(other.0@.subrange(0, i as int)),
                    k@,
                    v@,
                );
            }
            self.insert(k, v);
            i += 1;
        }
        proof {
            assert(other.0@.subrange(0, n as int) =~= other.0@);
        }
    }
}

impl IdPageMap {
    /// The map this structure denotes.
    pub open spec fn map_view(&self) -> Map<u64, PageNameView> {
        assoc_view(self.0@)
    }

    /// Entries carry pairwise-distinct ids.
    pub open spec fn wf(&self) -> bool {
        unique_keys(self.0@)
    }

    /// An empty map.
    pub fn new() -> (r: Self)
        ensures
            r.wf(),
            r.map_view() == Map::<u64, PageNameView>::empty(),
    {
        IdPageMap(Vec::new())
    }

    /// Insert an id, replacing any entry with the same id.
    pub fn insert(&mut self, k: u64, v: PageName)
        requires
            old(self).wf(),
        ensures
            final(self).wf(),
            final(self).map_view() == old(self).map_view().insert(k, v@),
    {
        let ghost e0 = self.0@;
        match id_find(&self.0, k) {
            Some(i) => {
                proof {
                    lemma_assoc_update(e0, i as int, k, v);
                }
                self.0[i] = (k, v);
            },
            None => {
                proof {
                    lemma_assoc_push(e0, k, v);
                }
                self.0.push((k, v));
            },
        }
    }

    /// Whether an id is in the map.
    pub fn contains_key(&self, k: u64) -> (r: bool)
        ensures
            r == self.map_view().dom().contains(k),
    {
        proof {
            lemma_assoc_contains(self.0@, k);
        }
        match id_find(&self.0, k) {
            Some(i) => true,
            None => false,
        }
    }

    /// The page name recorded for an id.
    pub fn get(&self, k: u64) -> (r: Option<&PageName>)
        requires
            self.wf(),
        ensures
            match r {
                Some(v) => self.map_view().dom().contains(k) && self.map_view()[k] == v@,
                None => !self.map_view().dom().contains(k),
            },
    {
        proof {
            lemma_assoc_contains(self.0@, k);
        }
        match id_find(&self.0, k) {
            Some(i) => {
                proof {
                    lemma_assoc_get(self.0@, i as int);
                }
                Some(&self.0[i].1)
            },
            None => None,
        }
    }

    /// The number of entries.
    pub fn len(&self) -> (r: usize)
        ensures
            r == self.0@.len(),
    {
        self.0.len()
    }

    /// Insert every entry of `other`, later values replacing earlier ones.
    pub fn merge_from(&mut self, other: &IdPageMap)
        requires
            old(self).wf(),
        ensures
            final(self).wf(),
            final(self).map_view() == old(self).map_view().union_prefer_right(other.map_view()),
    {
        let n = other.0.len();
        let mut i: usize = 0;
        proof {
            assert(other.0@.subrange(0, 0) =~= Seq::<(u64, PageName)>::empty());
            assert(old(self).map_view().union_prefer_right(assoc_view(other.0@.subrange(0, 0)))
                =~= old(self).map_view());
        }
        while i < n
            invariant
                n == other.0@.len(),
                i <= n,
                self.wf(),
                self.map_view() == old(self).map_view().union_prefer_right(
                    assoc_view(other.0@.subrange(0, i as int)),
                ),
            decreases n - i,
        {
            let k = other.0[i].0;
            let v = other.0[i].1.clone();
            proof {
                assert(other.0@.subrange(0, i + 1) =~= other.0@.subrange(0, i as int).push(
                    other.0@[i as int],
                ));
                lemma_assoc_push(other.0@.subrange(0, i as int), other.0@[i as int].0,
                    other.0@[i as int].1);
                vstd::map_lib::lemma_union_insert_right(
                    old(self).map_view(),
                    assoc_view(other.0@.subrange(0, i as int)),
                    k,
                    v@,
                );
            }
            self.insert(k, v);
            i += 1;
        }
        proof {
            assert(other.0@.subrange(0, n as int) =~= other.0@);
        }
    }
}

/// All redirects of the dump. Yes, all of them: resolving a tracked page may
/// require following a chain of redirects through pages that are not
/// themselves tracked.
pub enum AllRedirects {
    /// All redirects in memory.
    InMemory(RedirectMap),
    /// Redirects saved by an earlier run, to be reloaded from this path.
    LazyLoad(String),
}

/// The header placed atop an outputted page file.
pub struct WikitextHeader {
    /// When the page was last edited.
    pub timestamp: crate::time::Timestamp,
    /// The numeric id of the page.
    pub id: u64,
}

/// Metadata about the dump.
pub struct DumpMeta {
    /// The name of the database the dump was taken from.
    pub wikipedia_db_name: String,
    /// The domain of the site the dump describes.
    pub wikipedia_domain: String,
    /// The date of the dump.
    pub dump_date: crate::time::Date,
}

/// The result of extracting the dump: its metadata, the tracked page maps,
/// every redirect, and the numeric ids of the tracked pages.
pub struct ExtractedData {
    pub dump_meta: DumpMeta,
    pub genres: GenrePages,
    pub artists: ArtistPages,
    pub redirects: AllRedirects,
    pub id_to_page_names: IdPageMap,
}

/// Intermediate data collected while scanning one compressed block, and the
/// shape into which all per-block partial results are merged.
pub struct IntermediateData {
    /// Genre pages found so far.
    pub genre_pages: GenrePages,
    /// Artist pages found so far.
    pub artist_pages: ArtistPages,
    /// Redirects found so far.
    pub redirects: RedirectMap,
    /// Page ids to page names.
    pub id_to_page_names: IdPageMap,
}

impl IntermediateData {
    /// All four maps are well-formed.
    pub open spec fn wf(&self) -> bool {
        &&& self.genre_pages.wf()
        &&& self.artist_pages.wf()
        &&& self.redirects.wf()
        &&& self.id_to_page_names.wf()
    }

    /// Empty partial state.
    pub fn new() -> (r: Self)
        ensures
            r.wf(),
            r.genre_pages.map_view() == Map::<PageNameView, Seq<char>>::empty(),
            r.artist_pages.map_view() == Map::<PageNameView, Seq<char>>::empty(),
            r.redirects.map_view() == Map::<PageNameView, PageNameView>::empty(),
            r.id_to_page_names.map_view() == Map::<u64, PageNameView>::empty(),
    {
        IntermediateData {
            genre_pages: GenrePages::new(),
            artist_pages: ArtistPages::new(),
            redirects: RedirectMap::new(),
            id_to_page_names: IdPageMap::new(),
        }
    }

    /// Merge another intermediate data into this one: the key-wise union of
    /// each pair of maps, the other's entries winning on duplicate keys.
    pub fn merge(&mut self, other: &IntermediateData)
        requires
            old(self).wf(),
        ensures
            final(self).wf(),
            final(self).genre_pages.map_view() == old(self).genre_pages.map_view()
                .union_prefer_right(other.genre_pages.map_view()),
            final(self).artist_pages.map_view() == old(self).artist_pages.map_view()
                .union_prefer_right(other.artist_pages.map_view()),
            final(self).redirects.map_view() == old(self).redirects.map_view()
                .union_prefer_right(other.redirects.map_view()),
            final(self).id_to_page_names.map_view() == old(self).id_to_page_names.map_view()
                .union_prefer_right(other.id_to_page_names.map_view()),
    {
        self.genre_pages.merge_from(&other.genre_pages);
        self.artist_pages.merge_from(&other.artist_pages);
        self.redirects.merge_from(&other.redirects);
        self.id_to_page_names.merge_from(&other.id_to_page_names);
    }
}

/// Whether a tracked page is a topic (genre) or an entity (artist) candidate.
#[derive(Clone, Copy, Debug, PartialEq, Eq, Structural)]
pub enum PageKind {
    Genre,
    Artist,
}

/// One tracked page, ready to be persisted: the header fields, the raw page
/// text, and the filesystem-safe file name derived from the page identity.
pub struct PageRecord {
    pub kind: PageKind,
    pub page: PageName,
    pub timestamp: Timestamp,
    pub id: u64,
    pub text: String,
    pub file_name: String,
}

/// The mathematical value of a [`PageRecord`].
pub struct RecordV {
    pub kind: PageKind,
    pub page: PageNameView,
    pub timestamp: Timestamp,
    pub id: u64,
    pub text: Seq<char>,
    pub file_name: Seq<char>,
}

impl View for PageRecord {
    type V = RecordV;

    open spec fn view(&self) -> RecordV {
        RecordV {
            kind: self.kind,
            page: self.page@,
            timestamp: self.timestamp,
            id: self.id,
            text: self.text@,
            file_name: self.file_name@,
        }
    }
}

/// Why scanning a block failed. These failures are fatal for the block:
/// a tracked page whose timestamp or id does not parse is an invariant
/// violation in the input, and a rejected document cannot be scanned on.
#[derive(Debug)]
pub enum ExtractError {
    /// A tracked page's timestamp failed to parse.
    MalformedTimestamp { page: PageName, timestamp: String },
    /// A tracked page's id failed to parse.
    MalformedPageId { page: PageName, id_text: String },
    /// The document was rejected by the reader.
    MalformedXml,
    /// The block did not decompress.
    BadBlock,
}

/// The kind of a scan failure, without its context.
#[derive(Clone, Copy, Debug, PartialEq, Eq, Structural)]
pub enum ScanFailure {
    Timestamp,
    PageId,
    Xml,
}

/// The kind of an [`ExtractError`] arising inside the scan.
pub open spec fn spec_err_kind(e: ExtractError) -> ScanFailure {
    match e {
        ExtractError::MalformedTimestamp { page, timestamp } => ScanFailure::Timestamp,
        ExtractError::MalformedPageId { page, id_text } => ScanFailure::PageId,
        ExtractError::MalformedXml => ScanFailure::Xml,
        ExtractError::BadBlock => ScanFailure::Xml,
    }
}

/// The five accumulators the scan tracks between events: the texts of the
/// current page's title, body, timestamp and first id, and which of them an
/// open tag is currently recording into.
pub struct ScanState {
    pub title: String,
    pub recording_title: bool,
    pub text: String,
    pub recording_text: bool,
    pub timestamp: String,
    pub recording_timestamp: bool,
    pub page_id: String,
    pub recording_page_id: bool,
}

/// The mathematical value of a [`ScanState`].
pub struct ScanStateV {
    pub title: Seq<char>,
    pub recording_title: bool,
    pub text: Seq<char>,
    pub recording_text: bool,
    pub timestamp: Seq<char>,
    pub recording_timestamp: bool,
    pub page_id: Seq<char>,
    pub recording_page_id: bool,
}

impl View for ScanState {
    type V = ScanStateV;

    open spec fn view(&self) -> ScanStateV {
        ScanStateV {
            title: self.title@,
            recording_title: self.recording_title,
            text: self.text@,
            recording_text: self.recording_text,
            timestamp: self.timestamp@,
            recording_timestamp: self.recording_timestamp,
            page_id: self.page_id@,
            recording_page_id: self.recording_page_id,
        }
    }
}

/// The scan's state before any event.
pub open spec fn spec_scan_init() -> ScanStateV {
    ScanStateV {
        title: Seq::empty(),
        recording_title: false,
        text: Seq::empty(),
        recording_text: false,
        timestamp: Seq::empty(),
        recording_timestamp: false,
        page_id: Seq::empty(),
        recording_page_id: false,
    }
}

/// What a closed page contributes to the block's results.
pub enum ScanAction {
    /// The page contributes nothing.
    Nothing,
    /// The page redirects: its identity and its target.
    AddRedirect(PageName, PageName),
    /// The page looks like a redirect but its target cannot be resolved;
    /// it contributes no entry and is reported.
    WarnRedirect(PageName, RedirectParseError),
    /// The page is a tracked topic or entity candidate.
    Track(PageRecord),
    /// The page violates an input invariant; the block fails.
    Fatal(ExtractError),
}

/// The mathematical value of a [`ScanAction`]. A warning keeps only the
/// page it concerns; a fatal action keeps only the kind of the failure.
pub enum ActionV {
    Nothing,
    AddRedirect(PageNameView, PageNameView),
    WarnRedirect(PageNameView),
    Track(RecordV),
    Fatal(ScanFailure),
}

impl View for ScanAction {
    type V = ActionV;

    open spec fn view(&self) -> ActionV {
        match self {
            ScanAction::Nothing => ActionV::Nothing,
            ScanAction::AddRedirect(p, t) => ActionV::AddRedirect(p@, t@),
            ScanAction::WarnRedirect(p, e) => ActionV::WarnRedirect(p@),
            ScanAction::Track(r) => ActionV::Track(r@),
            ScanAction::Fatal(e) => ActionV::Fatal(spec_err_kind(*e)),
        }
    }
}

/// What closing a page does, given the accumulated title, text, timestamp
/// and id: a page whose text begins with the redirect marker contributes its
/// redirect target (or a warning when the target cannot be resolved); a page
/// whose text carries a topic or entity infobox marker and whose title has
/// no namespace colon is tracked, its timestamp and id then being required
/// to parse; every other page contributes nothing.
pub open spec fn spec_classify(domain: Seq<char>, st: ScanStateV) -> ActionV {
    let page = PageNameView { name: st.title, heading: None };
    if spec_starts_with(st.text, "#REDIRECT"@) {
        match spec_parse_redirect(domain, st.text) {
            Ok(t) => ActionV::AddRedirect(page, t),
            Err(k) => ActionV::WarnRedirect(page),
        }
    } else {
        let is_genre = spec_find(st.text, "nfobox music genre"@) is Some;
        let is_artist = spec_find(st.text, "nfobox musical artist"@) is Some;
        if !(is_genre || is_artist) {
            ActionV::Nothing
        } else if spec_find(st.title, seq![':']) is Some {
            ActionV::Nothing
        } else {
            match spec_parse_timestamp(st.timestamp) {
                None => ActionV::Fatal(ScanFailure::Timestamp),
                Some(ts) => {
                    if st.page_id.len() > 0 && all_digits(st.page_id) && digits_val(st.page_id)
                        <= u64::MAX {
                        ActionV::Track(
                            RecordV {
                                kind: if is_genre {
                                    PageKind::Genre
                                } else {
                                    PageKind::Artist
                                },
                                page,
                                timestamp: ts,
                                id: digits_val(st.page_id) as u64,
                                text: st.text,
                                file_name: spec_sanitize(page) + ".wikitext"@,
                            },
                        )
                    } else {
                        ActionV::Fatal(ScanFailure::PageId)
                    }
                },
            }
        }
    }
}

/// The transition of the scan on one event: which accumulator an opening tag
/// starts recording into, where character data lands, which closing tag
/// stops a recording, and what a closing `page` tag contributes.
pub open spec fn spec_scan_step(domain: Seq<char>, st: ScanStateV, ev: EventV) -> (
    ScanStateV,
    ActionV,
) {
    match ev {
        EventV::Start(name) => {
            if name == "title"@ {
                (ScanStateV { title: Seq::empty(), recording_title: true, ..st }, ActionV::Nothing)
            } else if name == "text"@ {
                (ScanStateV { text: Seq::empty(), recording_text: true, ..st }, ActionV::Nothing)
            } else if name == "timestamp"@ {
                (
                    ScanStateV { timestamp: Seq::empty(), recording_timestamp: true, ..st },
                    ActionV::Nothing,
                )
            } else if name == "page"@ {
                (ScanStateV { page_id: Seq::empty(), ..st }, ActionV::Nothing)
            } else if name == "id"@ && st.page_id.len() == 0 {
                (ScanStateV { recording_page_id: true, ..st }, ActionV::Nothing)
            } else {
                (st, ActionV::Nothing)
            }
        },
        EventV::Text(s) => {
            if st.recording_title {
                (ScanStateV { title: st.title + s, ..st }, ActionV::Nothing)
            } else if st.recording_text {
                (ScanStateV { text: st.text + s, ..st }, ActionV::Nothing)
            } else if st.recording_timestamp {
                (ScanStateV { timestamp: st.timestamp + s, ..st }, ActionV::Nothing)
            } else if st.recording_page_id {
                (ScanStateV { page_id: st.page_id + s, ..st }, ActionV::Nothing)
            } else {
                (st, ActionV::Nothing)
            }
        },
        EventV::End(name) => {
            if name == "title"@ {
                (ScanStateV { recording_title: false, ..st }, ActionV::Nothing)
            } else if name == "text"@ {
                (ScanStateV { recording_text: false, ..st }, ActionV::Nothing)
            } else if name == "timestamp"@ {
                (ScanStateV { recording_timestamp: false, ..st }, ActionV::Nothing)
            } else if name == "id"@ {
                (ScanStateV { recording_page_id: false, ..st }, ActionV::Nothing)
            } else if name == "page"@ {
                (st, spec_classify(domain, st))
            } else {
                (st, ActionV::Nothing)
            }
        },
        _ => (st, ActionV::Nothing),
    }
}

/// Whether a tag name equals a literal.
fn tag_is(name: &String, lit: &str) -> (r: bool)
    ensures
        r == (name@ == lit@),
{
    str_eq(name.as_str(), lit)
}

/// Run one event through the scan.
pub fn scan_step(wikipedia_domain: &str, st: ScanState, ev: &XmlEvent) -> (r: (
    ScanState,
    ScanAction,
))
    ensures
        (r.0@, r.1@) == spec_scan_step(wikipedia_domain@, st@, ev@),
{
    let mut st = st;
    match ev {
        XmlEvent::Start(name) => {
            if tag_is(name, "title") {
                st.title = String::new();
                st.recording_title = true;
            } else if tag_is(name, "text") {
                st.text = String::new();
                st.recording_text = true;
            } else if tag_is(name, "timestamp") {
                st.timestamp = String::new();
                st.recording_timestamp = true;
            } else if tag_is(name, "page") {
                st.page_id = String::new();
            } else if tag_is(name, "id") && st.page_id.as_str().is_empty() {
                st.recording_page_id = true;
            }
            (st, ScanAction::Nothing)
        },
        XmlEvent::Text(s) => {
            if st.recording_title {
                st.title.append(s.as_str());
            } else if st.recording_text {
                st.text.append(s.as_str());
            } else if st.recording_timestamp {
                st.timestamp.append(s.as_str());
            } else if st.recording_page_id {
                st.page_id.append(s.as_str());
            }
            (st, ScanAction::Nothing)
        },
        XmlEvent::End(name) => {
            if tag_is(name, "title") {
                st.recording_title = false;
                (st, ScanAction::Nothing)
            } else if tag_is(name, "text") {
                st.recording_text = false;
                (st, ScanAction::Nothing)
            } else if tag_is(name, "timestamp") {
                st.recording_timestamp = false;
                (st, ScanAction::Nothing)
            } else if tag_is(name, "id") {
                st.recording_page_id = false;
                (st, ScanAction::Nothing)
            } else if tag_is(name, "page") {
                let action = classify_page(wikipedia_domain, &st);
                (st, action)
            } else {
                (st, ScanAction::Nothing)
            }
        },
        _ => (st, ScanAction::Nothing),
    }
}

/// Classify a closed page. Executable form of [`spec_classify`].
fn classify_page(wikipedia_domain: &str, st: &ScanState) -> (r: ScanAction)
    ensures
        r@ == spec_classify(wikipedia_domain@, st@),
{
    let page = PageName { name: st.title.clone(), heading: None };
    let text_chars = str_to_chars(st.text.as_str());
    let redirect_marker = str_to_chars("#REDIRECT");
    if starts_with_chars(text_chars.as_slice(), redirect_marker.as_slice()) {
        match parse_redirect_text(wikipedia_domain, st.text.as_str()) {
            Ok(t) => ScanAction::AddRedirect(page, t),
            Err(e) => ScanAction::WarnRedirect(page, e),
        }
    } else {
        let genre_marker = str_to_chars("nfobox music genre");
        let artist_marker = str_to_chars("nfobox musical artist");
        let is_genre = match find_sub(text_chars.as_slice(), genre_marker.as_slice()) {
            Some(i) => true,
            None => false,
        };
        let is_artist = match find_sub(text_chars.as_slice(), artist_marker.as_slice()) {
            Some(i) => true,
            None => false,
        };
        if !(is_genre || is_artist) {
            return ScanAction::Nothing;
        }
        let title_chars = str_to_chars(st.title.as_str());
        match find_char(title_chars.as_slice(), ':') {
            Some(i) => {
                return ScanAction::Nothing;
            },
            None => {},
        }
        let ts = match parse_timestamp(st.timestamp.as_str()) {
            Some(ts) => ts,
            None => {
                return ScanAction::Fatal(
                    ExtractError::MalformedTimestamp {
                        page,
                        timestamp: st.timestamp.clone(),
                    },
                );
            },
        };
        let id_chars = str_to_chars(st.page_id.as_str());
        let id = match parse_u64_chars(id_chars.as_slice()) {
            Some(id) => id,
            None => {
                return ScanAction::Fatal(
                    ExtractError::MalformedPageId { page, id_text: st.page_id.clone() },
                );
            },
        };
        let mut file_name = page.sanitize();
        file_name.append(".wikitext");
        ScanAction::Track(
            PageRecord {
                kind: if is_genre {
                    PageKind::Genre
                } else {
                    PageKind::Artist
                },
                page,
                timestamp: ts,
                id,
                text: st.text.clone(),
                file_name,
            },
        )
    }
}

/// Everything one scanned block denotes: the four partial maps, the records
/// of its tracked pages in order of discovery, and the pages whose redirect
/// targets could not be resolved.
pub struct BlockV {
    pub genre: Map<PageNameView, Seq<char>>,
    pub artist: Map<PageNameView, Seq<char>>,
    pub redirects: Map<PageNameView, PageNameView>,
    pub ids: Map<u64, PageNameView>,
    pub records: Seq<RecordV>,
    pub warnings: Seq<PageNameView>,
}

/// The empty block.
pub open spec fn spec_empty_block() -> BlockV {
    BlockV {
        genre: Map::empty(),
        artist: Map::empty(),
        redirects: Map::empty(),
        ids: Map::empty(),
        records: Seq::empty(),
        warnings: Seq::empty(),
    }
}

/// What one page's action adds to a block: a redirect enters the redirect
/// map; an unresolved redirect is recorded as a warning; a tracked page
/// enters its kind's map under its file name, its id enters the id map, and
/// its record is appended.
pub open spec fn spec_apply(acc: BlockV, a: ActionV) -> BlockV {
    match a {
        ActionV::Nothing => acc,
        ActionV::Fatal(k) => acc,
        ActionV::AddRedirect(p, t) => BlockV { redirects: acc.redirects.insert(p, t), ..acc },
        ActionV::WarnRedirect(p) => BlockV { warnings: acc.warnings.push(p), ..acc },
        ActionV::Track(r) => {
            let acc2 = match r.kind {
                PageKind::Genre => BlockV { genre: acc.genre.insert(r.page, r.file_name), ..acc },
                PageKind::Artist => BlockV {
                    artist: acc.artist.insert(r.page, r.file_name),
                    ..acc
                },
            };
            BlockV { ids: acc2.ids.insert(r.id, r.page), records: acc2.records.push(r), ..acc2 }
        },
    }
}

/// The block a sequence of events denotes: each event steps the scan, each
/// closed page's action is applied, and the scan stops at the document's
/// end, at a rejected document, or at the first fatal page.
pub open spec fn spec_scan(
    domain: Seq<char>,
    st: ScanStateV,
    events: Seq<EventV>,
    acc: BlockV,
) -> Result<BlockV, ScanFailure>
    decreases events.len(),
{
    if events.len() == 0 {
        Ok(acc)
    } else {
        match events[0] {
            EventV::Eof => Ok(acc),
            EventV::Malformed => Err(ScanFailure::Xml),
            _ => {
                let sa = spec_scan_step(domain, st, events[0]);
                match sa.1 {
                    ActionV::Fatal(k) => Err(k),
                    _ => spec_scan(domain, sa.0, events.drop_first(), spec_apply(acc, sa.1)),
                }
            },
        }
    }
}

/// A scanned block's data, as gathered by one worker: the partial maps, the
/// tracked pages to be persisted, and the pages whose redirect targets could
/// not be resolved (each with why, so a caller can log it and go on).
pub struct BlockData {
    pub data: IntermediateData,
    pub records: Vec<PageRecord>,
    pub warnings: Vec<(PageName, RedirectParseError)>,
}

impl BlockData {
    /// The block this data denotes.
    pub open spec fn block_view(&self) -> BlockV {
        BlockV {
            genre: self.data.genre_pages.map_view(),
            artist: self.data.artist_pages.map_view(),
            redirects: self.data.redirects.map_view(),
            ids: self.data.id_to_page_names.map_view(),
            records: self.records@.map_values(|r: PageRecord| r@),
            warnings: self.warnings@.map_values(|w: (PageName, RedirectParseError)| w.0@),
        }
    }

    /// The maps are well-formed.
    pub open spec fn wf(&self) -> bool {
        self.data.wf()
    }

    /// An empty block.
    pub fn new() -> (r: Self)
        ensures
            r.wf(),
            r.block_view() == spec_empty_block(),
    {
        let b = BlockData {
            data: IntermediateData::new(),
            records: Vec::new(),
            warnings: Vec::new(),
        };
        proof {
            assert(b.records@.map_values(|r: PageRecord| r@) =~= Seq::<RecordV>::empty());
            assert(b.warnings@.map_values(|w: (PageName, RedirectParseError)| w.0@) =~= Seq::<
                PageNameView,
            >::empty());
            assert(b.block_view() =~~= spec_empty_block()) by {
                assert(b.block_view().genre =~= spec_empty_block().genre);
                assert(b.block_view().artist =~= spec_empty_block().artist);
                assert(b.block_view().redirects =~= spec_empty_block().redirects);
                assert(b.block_view().ids =~= spec_empty_block().ids);
            }
        }
        b
    }
}

/// Scan the events of one decompressed block.
///
/// Which pages are recorded, which redirects and warnings are gathered, and
/// on which inputs the scan fails are all pinned by [`spec_scan`].
pub fn scan_events(wikipedia_domain: &str, events: &Vec<XmlEvent>) -> (r: Result<
    BlockData,
    ExtractError,
>)
    ensures
        match r {
            Ok(b) => b.wf() && spec_scan(
                wikipedia_domain@,
                spec_scan_init(),
                events_view(events@),
                spec_empty_block(),
            ) == Ok::<BlockV, ScanFailure>(b.block_view()),
            Err(e) => !(e is BadBlock) && spec_scan(
                wikipedia_domain@,
                spec_scan_init(),
                events_view(events@),
                spec_empty_block(),
            ) == Err::<BlockV, ScanFailure>(spec_err_kind(e)),
        },
{
    let ghost evs = events_view(events@);
    let mut st = ScanState {
        title: String::new(),
        recording_title: false,
        text: String::new(),
        recording_text: false,
        timestamp: String::new(),
        recording_timestamp: false,
        page_id: String::new(),
        recording_page_id: false,
    };
    let mut acc = BlockData::new();
    let n = events.len();
    let mut i: usize = 0;
    proof {
        assert(st@ == spec_scan_init());
        assert(evs.skip(0) =~= evs);
    }
    while i < n
        invariant
            n == events@.len(),
            evs == events_view(events@),
            i <= n,
            acc.wf(),
            spec_scan(wikipedia_domain@, st@, evs.skip(i as int), acc.block_view()) == spec_scan(
                wikipedia_domain@,
                spec_scan_init(),
                evs,
                spec_empty_block(),
            ),
        decreases n - i,
    {
        proof {
            assert(evs[i as int] == events@[i as int]@);
            assert(evs.skip(i as int)[0] == evs[i as int]);
            assert(evs.skip(i as int).drop_first() =~= evs.skip(i + 1));
        }
        let ev = &events[i];
        match ev {
            XmlEvent::Eof => {
                return Ok(acc);
            },
            XmlEvent::Malformed => {
                return Err(ExtractError::MalformedXml);
            },
            _ => {},
        }
        let (st2, action) = scan_step(wikipedia_domain, st, ev);
        st = st2;
        let ghost acc0 = acc.block_view();
        match action {
            ScanAction::Nothing => {},
            ScanAction::AddRedirect(p, t) => {
                acc.data.redirects.insert(p, t);
                proof {
                    assert(acc.block_view() =~~= spec_apply(acc0, ActionV::AddRedirect(p@, t@)))
                        by {
                        assert(acc.block_view().redirects == acc0.redirects.insert(p@, t@));
                    }
                }
            },
            ScanAction::WarnRedirect(p, e) => {
                let ghost pv = p@;
                acc.warnings.push((p, e));
                proof {
                    assert(acc.warnings@.map_values(|w: (PageName, RedirectParseError)| w.0@) =~=
                        acc0.warnings.push(pv));
                    assert(acc.block_view() =~~= spec_apply(acc0, ActionV::WarnRedirect(pv)));
                }
            },
            ScanAction::Track(rec) => {
                let ghost rv = rec@;
                let file_name_for_map = rec.file_name.clone();
                let page_for_ids = rec.page.clone();
                match rec.kind {
                    PageKind::Genre => {
                        acc.data.genre_pages.insert(rec.page.clone(), file_name_for_map);
                    },
                    PageKind::Artist => {
                        acc.data.artist_pages.insert(rec.page.clone(), file_name_for_map);
                    },
                }
                acc.data.id_to_page_names.insert(rec.id, page_for_ids);
                acc.records.push(rec);
                proof {
                    assert(acc.records@.map_values(|r: PageRecord| r@) =~= acc0.records.push(rv));
                    assert(acc.block_view() =~~= spec_apply(acc0, ActionV::Track(rv)));
                }
            },
            ScanAction::Fatal(e) => {
                return Err(e);
            },
        }
        i += 1;
    }
    proof {
        assert(evs.skip(n as int) =~= Seq::<EventV>::empty());
    }
    Ok(acc)
}

/// The block that one offset's compressed bytes denote: the bytes are
/// decompressed, their document's events are read, and the scan of those
/// events yields the block, or fails.
pub open spec fn spec_block_result(domain: Seq<char>, block: Seq<u8>) -> Result<
    BlockV,
    ScanFailure,
>
    recommends
        bunzip_of(block) is Some,
{
    spec_scan(
        domain,
        spec_scan_init(),
        crate::xml::xml_events_of(bunzip_of(block).unwrap()),
        spec_empty_block(),
    )
}

/// Scan one offset's compressed block of the dump.
///
/// The block is decompressed on its own — the decompressor recognizes the
/// logical end of the block and ignores the bytes of the blocks after it —
/// its document's events are read, and the pages are scanned. The block
/// that comes out of a given slice, and the failure kind when none does,
/// are pinned by [`spec_block_result`] over the bytes alone.
pub fn process_offset_slice(dump: &[u8], offset: usize, wikipedia_domain: &str) -> (r: Result<
    BlockData,
    ExtractError,
>)
    requires
        offset <= dump@.len(),
    ensures
        match r {
            Ok(b) => {
                &&& b.wf()
                &&& bunzip_of(dump@.subrange(offset as int, dump@.len() as int)) is Some
                &&& spec_block_result(
                    wikipedia_domain@,
                    dump@.subrange(offset as int, dump@.len() as int),
                ) == Ok::<BlockV, ScanFailure>(b.block_view())
            },
            Err(e) => match e {
                ExtractError::BadBlock => bunzip_of(
                    dump@.subrange(offset as int, dump@.len() as int),
                ) is None,
                _ => bunzip_of(dump@.subrange(offset as int, dump@.len() as int)) is Some
                    && spec_block_result(
                    wikipedia_domain@,
                    dump@.subrange(offset as int, dump@.len() as int),
                ) == Err::<BlockV, ScanFailure>(spec_err_kind(e)),
            },
        },
{
    let block = vstd::slice::slice_subrange(dump, offset, dump.len());
    let data = match bunzip(block) {
        Some(d) => d,
        None => {
            return Err(ExtractError::BadBlock);
        },
    };
    let events = read_all_events(data.as_slice());
    assert(events_view(events@) == crate::xml::xml_events_of(
        bunzip_of(dump@.subrange(offset as int, dump@.len() as int)).unwrap(),
    ));
    match scan_events(wikipedia_domain, &events) {
        Ok(b) => Ok(b),
        Err(e) => Err(e),
    }
}

/// Why the dump's header region could not be read.
#[derive(Debug)]
pub enum MetaError {
    /// The header block did not decompress.
    BadBlock,
    /// The header document was rejected by the reader.
    MalformedXml,
    /// The site's base URL holds no domain.
    DomainNotFound,
    /// The header names no domain.
    MissingDomain,
    /// The header names no database.
    MissingDbName,
}

/// The kind of a [`MetaError`], for the header-scan specification.
#[derive(Clone, Copy, Debug, PartialEq, Eq, Structural)]
pub enum MetaFailure {
    Xml,
    DomainNotFound,
    MissingDomain,
    MissingDbName,
}

/// The kind of a [`MetaError`] arising inside the header scan.
pub open spec fn spec_meta_err_kind(e: MetaError) -> MetaFailure {
    match e {
        MetaError::BadBlock => MetaFailure::Xml,
        MetaError::MalformedXml => MetaFailure::Xml,
        MetaError::DomainNotFound => MetaFailure::DomainNotFound,
        MetaError::MissingDomain => MetaFailure::MissingDomain,
        MetaError::MissingDbName => MetaFailure::MissingDbName,
    }
}

/// The header scan's accumulators: the site domain and database name seen so
/// far, and which of them an open tag is recording into.
pub struct MetaState {
    pub domain: String,
    pub recording_domain: bool,
    pub db_name: String,
    pub recording_db_name: bool,
}

/// The mathematical value of a [`MetaState`].
pub struct MetaStateV {
    pub domain: Seq<char>,
    pub recording_domain: bool,
    pub db_name: Seq<char>,
    pub recording_db_name: bool,
}

impl View for MetaState {
    type V = MetaStateV;

    open spec fn view(&self) -> MetaStateV {
        MetaStateV {
            domain: self.domain@,
            recording_domain: self.recording_domain,
            db_name: self.db_name@,
            recording_db_name: self.recording_db_name,
        }
    }
}

/// The header scan's state before any event.
pub open spec fn spec_meta_init() -> MetaStateV {
    MetaStateV {
        domain: Seq::empty(),
        recording_domain: false,
        db_name: Seq::empty(),
        recording_db_name: false,
    }
}

/// The transition of the header scan on one event: `base` records the
/// site's base URL, whose domain replaces the accumulator when the tag
/// closes (a URL with no domain is fatal); `dbname` records the database
/// name.
pub open spec fn spec_meta_step(st: MetaStateV, ev: EventV) -> Result<MetaStateV, MetaFailure> {
    match ev {
        EventV::Start(name) => {
            if name == "base"@ {
                Ok(MetaStateV { domain: Seq::empty(), recording_domain: true, ..st })
            } else if name == "dbname"@ {
                Ok(MetaStateV { db_name: Seq::empty(), recording_db_name: true, ..st })
            } else {
                Ok(st)
            }
        },
        EventV::Text(s) => {
            if st.recording_domain {
                Ok(MetaStateV { domain: st.domain + s, ..st })
            } else if st.recording_db_name {
                Ok(MetaStateV { db_name: st.db_name + s, ..st })
            } else {
                Ok(st)
            }
        },
        EventV::End(name) => {
            if name == "base"@ {
                match crate::redirect::spec_extract_domain(st.domain) {
                    Some(d) => Ok(MetaStateV { domain: d, recording_domain: false, ..st }),
                    None => Err(MetaFailure::DomainNotFound),
                }
            } else if name == "dbname"@ {
                Ok(MetaStateV { recording_db_name: false, ..st })
            } else {
                Ok(st)
            }
        },
        _ => Ok(st),
    }
}

/// The site domain and database name the header's events denote, or the
/// first failure: a rejected document, a base URL with no domain, or a
/// header that never names one of the two.
pub open spec fn spec_meta_scan(st: MetaStateV, events: Seq<EventV>) -> Result<
    (Seq<char>, Seq<char>),
    MetaFailure,
>
    decreases events.len(),
{
    if events.len() == 0 {
        if st.domain.len() == 0 {
            Err(MetaFailure::MissingDomain)
        } else if st.db_name.len() == 0 {
            Err(MetaFailure::MissingDbName)
        } else {
            Ok((st.domain, st.db_name))
        }
    } else {
        match events[0] {
            EventV::Eof => spec_meta_scan(st, Seq::empty()),
            EventV::Malformed => Err(MetaFailure::Xml),
            _ => match spec_meta_step(st, events[0]) {
                Ok(st2) => spec_meta_scan(st2, events.drop_first()),
                Err(k) => Err(k),
            },
        }
    }
}

/// Run one event through the header scan.
fn meta_step(st: MetaState, ev: &XmlEvent) -> (r: Result<MetaState, MetaError>)
    ensures
        match r {
            Ok(st2) => spec_meta_step(st@, ev@) == Ok::<MetaStateV, MetaFailure>(st2@),
            Err(e) => spec_meta_step(st@, ev@) == Err::<MetaStateV, MetaFailure>(
                spec_meta_err_kind(e),
            ) && !(e is BadBlock) && !(e is MalformedXml),
        },
{
    let mut st = st;
    match ev {
        XmlEvent::Start(name) => {
            if tag_is(name, "base") {
                st.domain = String::new();
                st.recording_domain = true;
            } else if tag_is(name, "dbname") {
                st.db_name = String::new();
                st.recording_db_name = true;
            }
            Ok(st)
        },
        XmlEvent::Text(s) => {
            if st.recording_domain {
                st.domain.append(s.as_str());
            } else if st.recording_db_name {
                st.db_name.append(s.as_str());
            }
            Ok(st)
        },
        XmlEvent::End(name) => {
            if tag_is(name, "base") {
                match crate::redirect::extract_domain(st.domain.as_str()) {
                    Some(d) => {
                        let owned = d.to_owned();
                        st.domain = owned;
                        st.recording_domain = false;
                        Ok(st)
                    },
                    None => Err(MetaError::DomainNotFound),
                }
            } else if tag_is(name, "dbname") {
                st.recording_db_name = false;
                Ok(st)
            } else {
                Ok(st)
            }
        },
        _ => Ok(st),
    }
}

/// Read the site domain and database name out of the header's events.
fn scan_meta_events(events: &Vec<XmlEvent>) -> (r: Result<(String, String), MetaError>)
    ensures
        match r {
            Ok(p) => spec_meta_scan(spec_meta_init(), events_view(events@)) == Ok::<
                (Seq<char>, Seq<char>),
                MetaFailure,
            >((p.0@, p.1@)),
            Err(e) => !(e is BadBlock) && spec_meta_scan(spec_meta_init(), events_view(events@))
                == Err::<(Seq<char>, Seq<char>), MetaFailure>(spec_meta_err_kind(e)),
        },
{
    let ghost evs = events_view(events@);
    let mut st = MetaState {
        domain: String::new(),
        recording_domain: false,
        db_name: String::new(),
        recording_db_name: false,
    };
    let n = events.len();
    let mut i: usize = 0;
    let mut saw_eof = false;
    proof {
        assert(st@ == spec_meta_init());
        assert(evs.skip(0) =~= evs);
    }
    while i < n && !saw_eof
        invariant
            n == events@.len(),
            evs == events_view(events@),
            i <= n,
            !saw_eof ==> spec_meta_scan(st@, evs.skip(i as int)) == spec_meta_scan(
                spec_meta_init(),
                evs,
            ),
            saw_eof ==> spec_meta_scan(st@, Seq::empty()) == spec_meta_scan(spec_meta_init(), evs),
        decreases n - i,
    {
        proof {
            assert(evs[i as int] == events@[i as int]@);
            assert(evs.skip(i as int)[0] == evs[i as int]);
            assert(evs.skip(i as int).drop_first() =~= evs.skip(i + 1));
        }
        let ev = &events[i];
        match ev {
            XmlEvent::Eof => {
                saw_eof = true;
            },
            XmlEvent::Malformed => {
                return Err(MetaError::MalformedXml);
            },
            _ => {
                match meta_step(st, ev) {
                    Ok(st2) => {
                        st = st2;
                    },
                    Err(e) => {
                        return Err(e);
                    },
                }
            },
        }
        i += 1;
    }
    proof {
        if !saw_eof {
            assert(evs.skip(n as int) =~= Seq::<EventV>::empty());
        }
    }
    if st.domain.as_str().unicode_len() == 0 {
        return Err(MetaError::MissingDomain);
    }
    if st.db_name.as_str().unicode_len() == 0 {
        return Err(MetaError::MissingDbName);
    }
    Ok((st.domain, st.db_name))
}

/// The site domain and database name that the header region's compressed
/// bytes denote: the bytes are decompressed, their document's events are
/// read, and the header scan of those events yields the pair, or fails.
pub open spec fn spec_meta_result(header: Seq<u8>) -> Result<(Seq<char>, Seq<char>), MetaFailure>
    recommends
        bunzip_of(header) is Some,
{
    spec_meta_scan(spec_meta_init(), crate::xml::xml_events_of(bunzip_of(header).unwrap()))
}

/// Read the dump's header region — the bytes before the first offset — for
/// the site domain and the database name.
///
/// The header block is decompressed, its document's events are read, and
/// the header scan runs over them. Which pair comes out of a given header,
/// and the failure kind when none does, are pinned by [`spec_meta_result`]
/// over the bytes alone.
pub fn extract_wikipedia_meta(dump: &[u8], first_offset: usize) -> (r: Result<
    (String, String),
    MetaError,
>)
    requires
        first_offset <= dump@.len(),
    ensures
        match r {
            Ok(p) => {
                &&& bunzip_of(dump@.subrange(0, first_offset as int)) is Some
                &&& p.0@.len() > 0
                &&& p.1@.len() > 0
                &&& spec_meta_result(dump@.subrange(0, first_offset as int)) == Ok::<
                    (Seq<char>, Seq<char>),
                    MetaFailure,
                >((p.0@, p.1@))
            },
            Err(e) => match e {
                MetaError::BadBlock => bunzip_of(dump@.subrange(0, first_offset as int)) is None,
                _ => bunzip_of(dump@.subrange(0, first_offset as int)) is Some
                    && spec_meta_result(dump@.subrange(0, first_offset as int)) == Err::<
                    (Seq<char>, Seq<char>),
                    MetaFailure,
                >(spec_meta_err_kind(e)),
            },
        },
{
    let block = vstd::slice::slice_subrange(dump, 0, first_offset);
    let data = match bunzip(block) {
        Some(d) => d,
        None => {
            return Err(MetaError::BadBlock);
        },
    };
    let events = read_all_events(data.as_slice());
    assert(events_view(events@) == crate::xml::xml_events_of(
        bunzip_of(dump@.subrange(0, first_offset as int)).unwrap(),
    ));
    match scan_meta_events(&events) {
        Ok(p) => {
            // The scan refuses an empty domain or database name.
            assert(p.0@.len() > 0 && p.1@.len() > 0) by {
                if spec_meta_scan(spec_meta_init(), events_view(events@)) is Ok {
                    lemma_meta_scan_nonempty(spec_meta_init(), events_view(events@));
                }
            }
            Ok(p)
        },
        Err(e) => Err(e),
    }
}

/// A successful header scan never yields an empty domain or database name.
proof fn lemma_meta_scan_nonempty(st: MetaStateV, events: Seq<EventV>)
    ensures
        spec_meta_scan(st, events) is Ok ==> {
            let p = spec_meta_scan(st, events).unwrap();
            p.0.len() > 0 && p.1.len() > 0
        },
    decreases events.len(),
{
    if events.len() > 0 {
        match events[0] {
            EventV::Eof => {
                lemma_meta_scan_nonempty(st, Seq::empty());
            },
            EventV::Malformed => {},
            _ => {
                match spec_meta_step(st, events[0]) {
                    Ok(st2) => {
                        lemma_meta_scan_nonempty(st2, events.drop_first());
                    },
                    Err(k) => {},
                }
            },
        }
    }
}

/// Extraction over two compressed blocks is order-independent: when both
/// blocks scan successfully and touch disjoint sets of pages and ids — as
/// blocks of a well-formed dump do — folding their results in either order
/// denotes the same four maps, whichever worker scanned which block first.
pub proof fn lemma_two_blocks_order_independent(domain: Seq<char>, b1: Seq<u8>, b2: Seq<u8>)
    requires
        spec_block_result(domain, b1) is Ok,
        spec_block_result(domain, b2) is Ok,
        spec_block_result(domain, b1).unwrap().genre.dom().disjoint(
            spec_block_result(domain, b2).unwrap().genre.dom(),
        ),
        spec_block_result(domain, b1).unwrap().artist.dom().disjoint(
            spec_block_result(domain, b2).unwrap().artist.dom(),
        ),
        spec_block_result(domain, b1).unwrap().redirects.dom().disjoint(
            spec_block_result(domain, b2).unwrap().redirects.dom(),
        ),
        spec_block_result(domain, b1).unwrap().ids.dom().disjoint(
            spec_block_result(domain, b2).unwrap().ids.dom(),
        ),
    ensures
        ({
            let v1 = spec_block_result(domain, b1).unwrap();
            let v2 = spec_block_result(domain, b2).unwrap();
            &&& v1.genre.union_prefer_right(v2.genre) == v2.genre.union_prefer_right(v1.genre)
            &&& v1.artist.union_prefer_right(v2.artist) == v2.artist.union_prefer_right(v1.artist)
            &&& v1.redirects.union_prefer_right(v2.redirects) == v2.redirects.union_prefer_right(
                v1.redirects,
            )
            &&& v1.ids.union_prefer_right(v2.ids) == v2.ids.union_prefer_right(v1.ids)
        }),
{
    let v1 = spec_block_result(domain, b1).unwrap();
    let v2 = spec_block_result(domain, b2).unwrap();
    lemma_union_disjoint_comm(v1.genre, v2.genre);
    lemma_union_disjoint_comm(v1.artist, v2.artist);
    lemma_union_disjoint_comm(v1.redirects, v2.redirects);
    lemma_union_disjoint_comm(v1.ids, v2.ids);
}

/// The reduction over per-worker partial results is order-independent:
/// when two partial results touch disjoint sets of pages and ids — as blocks
/// of a well-formed dump do — merging them in either order denotes the same
/// four maps.
pub proof fn lemma_merge_order_independent(a: IntermediateData, b: IntermediateData)
    requires
        a.genre_pages.map_view().dom().disjoint(b.genre_pages.map_view().dom()),
        a.artist_pages.map_view().dom().disjoint(b.artist_pages.map_view().dom()),
        a.redirects.map_view().dom().disjoint(b.redirects.map_view().dom()),
        a.id_to_page_names.map_view().dom().disjoint(b.id_to_page_names.map_view().dom()),
    ensures
        a.genre_pages.map_view().union_prefer_right(b.genre_pages.map_view())
            == b.genre_pages.map_view().union_prefer_right(a.genre_pages.map_view()),
        a.artist_pages.map_view().union_prefer_right(b.artist_pages.map_view())
            == b.artist_pages.map_view().union_prefer_right(a.artist_pages.map_view()),
        a.redirects.map_view().union_prefer_right(b.redirects.map_view())
            == b.redirects.map_view().union_prefer_right(a.redirects.map_view()),
        a.id_to_page_names.map_view().union_prefer_right(b.id_to_page_names.map_view())
            == b.id_to_page_names.map_view().union_prefer_right(a.id_to_page_names.map_view()),
{
    lemma_union_disjoint_comm(a.genre_pages.map_view(), b.genre_pages.map_view());
    lemma_union_disjoint_comm(a.artist_pages.map_view(), b.artist_pages.map_view());
    lemma_union_disjoint_comm(a.redirects.map_view(), b.redirects.map_view());
    lemma_union_disjoint_comm(a.id_to_page_names.map_view(), b.id_to_page_names.map_view());
}

} // verus!
