//! Page identities: a page's name together with an optional sub-heading, and
//! the reversible, filesystem-safe encoding of that identity.
//!
//! Structurally ambiguous characters (`/`, `:`, `*`, quotes, ...) are mapped to
//! visually similar but filesystem-legal substitute characters; the mapping is
//! exactly invertible on names that do not already use a substitute character.
use vstd::prelude::*;

use crate::text::{chars_to_string, find_char, lemma_find_complete, lemma_match_singleton,
    spec_find, str_to_chars};

verus! {

/// The mathematical value of a [`PageName`]: its characters, and the
/// characters of its heading when one is present.
pub struct PageNameView {
    pub name: Seq<char>,
    pub heading: Option<Seq<char>>,
}

/// A page identity: the page's name, and the heading of the section that
/// defines the topic when the topic does not own the whole page.
/// Two pages differ when either field differs.
#[derive(Debug)]
pub struct PageName {
    /// The name of the page.
    pub name: String,
    /// The heading under the page, if any.
    pub heading: Option<String>,
}

impl View for PageName {
    type V = PageNameView;

    open spec fn view(&self) -> PageNameView {
        PageNameView {
            name: self.name@,
            heading: match self.heading {
                Some(h) => Some(h@),
                None => None,
            },
        }
    }
}

impl Clone for PageName {
    fn clone(&self) -> (r: Self)
        ensures
            r@ == self@,
    {
        PageName {
            name: self.name.clone(),
            heading: match &self.heading {
                Some(h) => Some(h.clone()),
                None => None,
            },
        }
    }
}

impl PartialEq for PageName {
    fn eq(&self, other: &Self) -> (r: bool) {
        let names_eq = self.name == other.name;
        let headings_eq = match (&self.heading, &other.heading) {
            (Some(a), Some(b)) => *a == *b,
            (None, None) => true,
            _ => false,
        };
        proof {
            if names_eq && headings_eq {
                assert(self@.name == other@.name);
                assert(self@.heading == other@.heading);
            }
        }
        names_eq && headings_eq
    }
}

impl vstd::std_specs::cmp::PartialEqSpecImpl for PageName {
    open spec fn obeys_eq_spec() -> bool {
        true
    }

    open spec fn eq_spec(&self, other: &Self) -> bool {
        self@ == other@
    }
}

/// Maps a character that is unsafe in a file name to its substitute.
/// Every other character is left alone.
pub open spec fn sub_char(c: char) -> char {
    if c == '/' {
        '\u{29F8}'
    } else if c == '\\' {
        '\u{29F5}'
    } else if c == ':' {
        '\u{2236}'
    } else if c == '*' {
        '\u{2731}'
    } else if c == '?' {
        '\u{FF1F}'
    } else if c == '"' {
        '\u{275E}'
    } else if c == '<' {
        '\u{276E}'
    } else if c == '>' {
        '\u{276F}'
    } else if c == '|' {
        '\u{2758}'
    } else {
        c
    }
}

/// Maps a substitute character back to the character it stands for.
pub open spec fn unsub_char(c: char) -> char {
    if c == '\u{29F8}' {
        '/'
    } else if c == '\u{29F5}' {
        '\\'
    } else if c == '\u{2236}' {
        ':'
    } else if c == '\u{2731}' {
        '*'
    } else if c == '\u{FF1F}' {
        '?'
    } else if c == '\u{275E}' {
        '"'
    } else if c == '\u{276E}' {
        '<'
    } else if c == '\u{276F}' {
        '>'
    } else if c == '\u{2758}' {
        '|'
    } else {
        c
    }
}

/// True when `c` is one of the substitute characters of the encoding.
pub open spec fn is_substitute(c: char) -> bool {
    ||| c == '\u{29F8}'
    ||| c == '\u{29F5}'
    ||| c == '\u{2236}'
    ||| c == '\u{2731}'
    ||| c == '\u{FF1F}'
    ||| c == '\u{275E}'
    ||| c == '\u{276E}'
    ||| c == '\u{276F}'
    ||| c == '\u{2758}'
}

/// Every character of `s` mapped to its filesystem-safe substitute.
pub open spec fn map_sub(s: Seq<char>) -> Seq<char> {
    s.map_values(|c: char| sub_char(c))
}

/// Every character of `s` mapped back from its substitute.
pub open spec fn map_unsub(s: Seq<char>) -> Seq<char> {
    s.map_values(|c: char| unsub_char(c))
}

/// The filesystem-safe encoding of a page identity: the name, then `#` and
/// the heading when one is present, with unsafe characters substituted.
pub open spec fn spec_sanitize(p: PageNameView) -> Seq<char> {
    match p.heading {
        Some(h) => map_sub(p.name) + seq!['#'] + map_sub(h),
        None => map_sub(p.name),
    }
}

/// The inverse reading of the encoding: substitutes are mapped back, and the
/// text is split at its first `#` into name and heading.
pub open spec fn spec_unsanitize(t: Seq<char>) -> PageNameView {
    let u = map_unsub(t);
    match spec_find(u, seq!['#']) {
        Some(i) => PageNameView {
            name: u.subrange(0, i),
            heading: Some(u.subrange(i + 1, u.len() as int)),
        },
        None => PageNameView { name: u, heading: None },
    }
}

/// Executable form of [`sub_char`].
fn sub_char_exec(c: char) -> (r: char)
    ensures
        r == sub_char(c),
{
    if c == '/' {
        '\u{29F8}'
    } else if c == '\\' {
        '\u{29F5}'
    } else if c == ':' {
        '\u{2236}'
    } else if c == '*' {
        '\u{2731}'
    } else if c == '?' {
        '\u{FF1F}'
    } else if c == '"' {
        '\u{275E}'
    } else if c == '<' {
        '\u{276E}'
    } else if c == '>' {
        '\u{276F}'
    } else if c == '|' {
        '\u{2758}'
    } else {
        c
    }
}

/// Executable form of [`unsub_char`].
fn unsub_char_exec(c: char) -> (r: char)
    ensures
        r == unsub_char(c),
{
    if c == '\u{29F8}' {
        '/'
    } else if c == '\u{29F5}' {
        '\\'
    } else if c == '\u{2236}' {
        ':'
    } else if c == '\u{2731}' {
        '*'
    } else if c == '\u{FF1F}' {
        '?'
    } else if c == '\u{275E}' {
        '"'
    } else if c == '\u{276E}' {
        '<'
    } else if c == '\u{276F}' {
        '>'
    } else if c == '\u{2758}' {
        '|'
    } else {
        c
    }
}

/// Append every character of `src`, mapped by [`sub_char`], to `out`.
fn push_mapped_sub(out: &mut Vec<char>, src: &[char])
    ensures
        final(out)@ == old(out)@ + map_sub(src@),
{
    let n = src.len();
    let mut i: usize = 0;
    while i < n
        invariant
            n == src@.len(),
            i <= n,
            out@ =~= old(out)@ + map_sub(src@).subrange(0, i as int),
        decreases n - i,
    {
        out.push(sub_char_exec(src[i]));
        assert(out@ =~= old(out)@ + map_sub(src@).subrange(0, i + 1));
        i += 1;
    }
    assert(out@ =~= old(out)@ + map_sub(src@));
}

impl PageName {
    /// Create a new page identity.
    pub fn new(name: String, heading: Option<String>) -> (r: Self)
        ensures
            r.name == name,
            r.heading == heading,
    {
        PageName { name, heading }
    }

    /// The same page with its heading replaced (for topics whose defining
    /// marker stands under a heading rather than at the root of a page).
    pub fn with_opt_heading(&self, heading: Option<String>) -> (r: Self)
        ensures
            r.name == self.name,
            r.heading == heading,
    {
        PageName { name: self.name.clone(), heading }
    }

    /// A variant of the page identity usable as a link: spaces in the name
    /// become underscores.
    pub fn linksafe(&self) -> (r: Self)
        ensures
            r@.name == self@.name.map_values(|c: char| if c == ' ' { '_' } else { c }),
            r@.heading == self@.heading,
    {
        let chars = str_to_chars(self.name.as_str());
        let n = chars.len();
        let mut out: Vec<char> = Vec::new();
        let mut i: usize = 0;
        while i < n
            invariant
                n == chars@.len(),
                chars@ == self@.name,
                i <= n,
                out@ =~= self@.name.map_values(|c: char| if c == ' ' { '_' } else { c }).subrange(
                    0,
                    i as int,
                ),
            decreases n - i,
        {
            let c = chars[i];
            if c == ' ' {
                out.push('_');
            } else {
                out.push(c);
            }
            assert(out@ =~= self@.name.map_values(|c: char| if c == ' ' { '_' } else { c })
                .subrange(0, i + 1));
            i += 1;
        }
        assert(out@ =~= self@.name.map_values(|c: char| if c == ' ' { '_' } else { c }));
        PageName {
            name: chars_to_string(out.as_slice()),
            heading: match &self.heading {
                Some(h) => Some(h.clone()),
                None => None,
            },
        }
    }

    /// Encode the page identity as a filesystem-safe file name.
    pub fn sanitize(&self) -> (r: String)
        ensures
            r@ == spec_sanitize(self@),
    {
        let name_chars = str_to_chars(self.name.as_str());
        let mut out: Vec<char> = Vec::new();
        push_mapped_sub(&mut out, name_chars.as_slice());
        match &self.heading {
            Some(h) => {
                out.push('#');
                let head_chars = str_to_chars(h.as_str());
                push_mapped_sub(&mut out, head_chars.as_slice());
                assert(out@ =~= map_sub(self@.name) + seq!['#'] + map_sub(
                    self@.heading.unwrap(),
                ));
            },
            None => {},
        }
        chars_to_string(out.as_slice())
    }

    /// Decode a filesystem-safe file name back into the page identity
    /// it encodes. Reverses [`Self::sanitize`].
    pub fn unsanitize(title: &str) -> (r: PageName)
        ensures
            r@ == spec_unsanitize(title@),
    {
        let tc = str_to_chars(title);
        let n = tc.len();
        let mut u: Vec<char> = Vec::new();
        let mut i: usize = 0;
        while i < n
            invariant
                n == tc@.len(),
                tc@ == title@,
                i <= n,
                u@ =~= map_unsub(title@).subrange(0, i as int),
            decreases n - i,
        {
            u.push(unsub_char_exec(tc[i]));
            assert(u@ =~= map_unsub(title@).subrange(0, i + 1));
            i += 1;
        }
        assert(u@ =~= map_unsub(title@));
        match find_char(u.as_slice(), '#') {
            Some(i) => {
                proof {
                    crate::text::lemma_find_first(u@, seq!['#']);
                }
                assert(i < u@.len());
                let name_part = vstd::slice::slice_subrange(u.as_slice(), 0, i);
                let head_part = vstd::slice::slice_subrange(u.as_slice(), i + 1, u.len());
                PageName {
                    name: chars_to_string(name_part),
                    heading: Some(chars_to_string(head_part)),
                }
            },
            None => PageName { name: chars_to_string(u.as_slice()), heading: None },
        }
    }
}

/// Encode a page identity as a filesystem-safe file name.
pub fn sanitize_page_name(title: &PageName) -> (r: String)
    ensures
        r@ == spec_sanitize(title@),
{
    title.sanitize()
}

/// Decode a filesystem-safe file name back into the page identity it encodes.
pub fn unsanitize_page_name(title: &str) -> (r: PageName)
    ensures
        r@ == spec_unsanitize(title@),
{
    PageName::unsanitize(title)
}

/// Mapping a character to its substitute and back restores it, as long as the
/// character is not itself one of the substitutes.
proof fn lemma_unsub_sub(c: char)
    requires
        !is_substitute(c),
    ensures
        unsub_char(sub_char(c)) == c,
{
}

/// The encoding round-trips: decoding the encoding of any page identity
/// restores it exactly, provided the name holds no `#` and neither the name
/// nor the heading holds a substitute character.
///
/// The provisos are necessary: a name such as `a#b` without a heading decodes
/// into name `a` with heading `b`, and a name that already holds a substitute
/// character decodes into the character that the substitute stands for.
pub proof fn lemma_sanitize_round_trip(p: PageNameView)
    requires
        forall|i: int| 0 <= i < p.name.len() ==> p.name[i] != '#' && !is_substitute(p.name[i]),
        p.heading is Some ==> forall|i: int|
            0 <= i < p.heading.unwrap().len() ==> !is_substitute(p.heading.unwrap()[i]),
    ensures
        spec_unsanitize(spec_sanitize(p)) == p,
{
    let t = spec_sanitize(p);
    let u = map_unsub(t);
    match p.heading {
        None => {
            assert(u =~= p.name) by {
                assert forall|i: int| 0 <= i < p.name.len() implies u[i] == p.name[i] by {
                    lemma_unsub_sub(p.name[i]);
                }
            }
            assert forall|j: int| !crate::text::is_match_at(u, seq!['#'], j) by {
                lemma_match_singleton(u, '#', j);
                if 0 <= j < u.len() {
                    assert(u[j] == p.name[j]);
                }
            }
            crate::text::lemma_find_first(u, seq!['#']);
            if spec_find(u, seq!['#']) is Some {
                let k = spec_find(u, seq!['#']).unwrap();
                lemma_match_singleton(u, '#', k);
            }
            assert(spec_unsanitize(t) == PageNameView { name: u, heading: None });
        },
        Some(h) => {
            let nl = p.name.len() as int;
            assert(u.len() == nl + 1 + h.len());
            assert forall|i: int| 0 <= i < nl implies u[i] == p.name[i] && u[i] != '#' by {
                assert(t[i] == sub_char(p.name[i]));
                lemma_unsub_sub(p.name[i]);
            }
            assert(u[nl] == '#') by {
                assert(t[nl] == '#');
            }
            assert forall|i: int| 0 <= i < h.len() implies u[nl + 1 + i] == h[i] by {
                assert(t[nl + 1 + i] == sub_char(h[i]));
                lemma_unsub_sub(h[i]);
            }
            assert(crate::text::is_match_at(u, seq!['#'], nl)) by {
                lemma_match_singleton(u, '#', nl);
            }
            assert forall|j: int| 0 <= j < nl implies !crate::text::is_match_at(
                u,
                seq!['#'],
                j,
            ) by {
                lemma_match_singleton(u, '#', j);
            }
            lemma_find_complete(u, seq!['#'], nl);
            assert(u.subrange(0, nl) =~= p.name);
            assert(u.subrange(nl + 1, u.len() as int) =~= h);
        },
    }
}

} // verus!
