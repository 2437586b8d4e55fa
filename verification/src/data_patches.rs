//! Patches over the source data: pages that are known to redefine topics
//! that already have articles of their own, and so must not be tracked.
use vstd::prelude::*;

use crate::page_name::{PageName, PageNameView};

verus! {

/// The pages to leave out when processing the dump: each redefines a topic
/// that a dedicated article already covers.
pub fn pages_to_ignore() -> (r: Vec<PageName>)
    ensures
        r@.len() == 3,
        r@[0]@ == (PageNameView { name: "Outline of jazz"@, heading: None }),
        r@[1]@ == (PageNameView {
            name: "Styles of pop music"@,
            heading: Some("Pop soul / Motown"@),
        }),
        r@[2]@ == (PageNameView { name: "Styles of pop music"@, heading: Some("Street pop"@) }),
{
    let mut v: Vec<PageName> = Vec::new();
    v.push(PageName { name: "Outline of jazz".to_owned(), heading: None });
    v.push(
        PageName {
            name: "Styles of pop music".to_owned(),
            heading: Some("Pop soul / Motown".to_owned()),
        },
    );
    v.push(
        PageName { name: "Styles of pop music".to_owned(), heading: Some("Street pop".to_owned()) },
    );
    v
}

} // verus!
