//! Types used throughout the pipeline that are not specific to any stage.
use vstd::prelude::*;

verus! {

/// The configuration of the pipeline: where its inputs live.
#[derive(Debug)]
pub struct Config {
    /// The path to the dump.
    pub wikipedia_dump_path: String,
    /// The path to the dump's offset index.
    pub wikipedia_index_path: String,
    /// The path to the link-target SQL dump.
    pub wikipedia_linktargets_path: String,
    /// The path to the page-link SQL dump.
    pub wikipedia_links_path: String,
    /// The key used by the mix-listing stage.
    pub youtube_api_key: String,
}

/// A newtype for an id assigned to a page for the graph.
#[derive(Clone, Copy, Debug, PartialEq, Eq, PartialOrd, Ord, Hash, Structural)]
pub struct PageDataId(pub usize);

/// A newtype for a genre name.
#[derive(Clone, Debug, PartialEq, Eq, PartialOrd, Ord, Hash)]
pub struct GenreName(pub String);

/// A newtype for an artist name.
#[derive(Clone, Debug, PartialEq, Eq, PartialOrd, Ord, Hash)]
pub struct ArtistName(pub String);

} // verus!
