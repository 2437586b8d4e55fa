//! Extraction of structured, page-addressable records from a periodic
//! encyclopedia content dump: the offset-indexed scan of the compressed XML
//! dump, the redirect target parser, the byte-level tuple stream parser for
//! the SQL table dumps, and the inbound-reference aggregation over them.
pub mod compress;
pub mod data_patches;
pub mod extract;
pub mod link_counts;
pub mod link_targets;
pub mod links;
pub mod maps;
pub mod mixes;
pub mod offsets;
pub mod page_name;
pub mod redirect;
pub mod text;
pub mod time;
pub mod tuples;
pub mod types;
pub mod xml;
