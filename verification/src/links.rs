//! The map from link spellings to the articles they land on. The downstream
//! resolver builds it by closing the redirect map over the tracked pages;
//! here it is looked up by lower-cased spelling.
use vstd::prelude::*;

use crate::maps::assoc_view;
use crate::page_name::{PageName, PageNameView};

verus! {

/// What lower-casing a string yields. Lower-casing depends on the
/// characters alone.
pub uninterp spec fn lower_of(s: Seq<char>) -> Seq<char>;

/// Relies on `str::to_lowercase`: the result is a function of the
/// characters alone, and an empty string stays empty.
#[verifier::external_body]
fn to_lowercase(s: &str) -> (r: String)
    ensures
        r@ == lower_of(s@),
        s@.len() == 0 ==> r@.len() == 0,
{
    s.to_lowercase()
}

/// A map of lower-cased link spellings to the pages they resolve to.
pub struct LinksToArticles(pub Vec<(String, PageName)>);

impl LinksToArticles {
    /// The map this structure denotes.
    pub open spec fn map_view(&self) -> Map<Seq<char>, PageNameView> {
        assoc_view(self.0@)
    }

    /// Entries carry pairwise-distinct spellings.
    pub open spec fn wf(&self) -> bool {
        crate::maps::unique_keys(self.0@)
    }

    /// Get the page name for a link: the link's spelling is lower-cased and
    /// looked up.
    pub fn map(&self, link: &str) -> (r: Option<PageName>)
        requires
            self.wf(),
        ensures
            match r {
                Some(p) => self.map_view().dom().contains(lower_of(link@)) && self.map_view()[
                    lower_of(link@)
                ] == p@,
                None => !self.map_view().dom().contains(lower_of(link@)),
            },
    {
        let lowered = to_lowercase(link);
        let n = self.0.len();
        let mut i: usize = 0;
        proof {
            crate::maps::lemma_assoc_contains(self.0@, lowered@);
        }
        while i < n
            invariant
                n == self.0@.len(),
                self.wf(),
                lowered@ == lower_of(link@),
                i <= n,
                forall|j: int| 0 <= j < i ==> (#[trigger] self.0@[j]).0@ != lowered@,
            decreases n - i,
        {
            if self.0[i].0 == lowered {
                proof {
                    crate::maps::lemma_assoc_get(self.0@, i as int);
                }
                return Some(self.0[i].1.clone());
            }
            i += 1;
        }
        None
    }
}

} // verus!
