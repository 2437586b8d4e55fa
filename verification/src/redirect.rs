//! The redirect target parser: given the raw text of a page that begins with
//! a redirect directive, extract the canonical target page name and optional
//! section heading.
use vstd::prelude::*;
use vstd::slice::slice_subrange;
use vstd::string::{StrSliceExecFns, StringExecFns};

use crate::page_name::{PageName, PageNameView};
use crate::text::{chars_eq, find_char, find_sub, chars_to_string, spec_find, str_to_chars};

verus! {

/// Why a redirect page's text could not be resolved to a target.
#[derive(Debug)]
pub enum RedirectParseError {
    /// The text holds no recognizable link opener, or the link is not closed.
    InvalidRedirect { text: String },
    /// The text redirects to an external URL that does not belong to the
    /// configured site.
    ExternalLinkNotOnThisWiki { text: String },
}

impl RedirectParseError {
    /// A short description of the failure, with the offending text.
    pub fn message(&self) -> (r: String)
        ensures
            match self {
                RedirectParseError::InvalidRedirect { text } => r@ == "Invalid redirect format: "@
                    + text@,
                RedirectParseError::ExternalLinkNotOnThisWiki { text } => r@
                    == "External link not on this wiki: "@ + text@,
            },
    {
        match self {
            RedirectParseError::InvalidRedirect { text } => {
                let mut s = "Invalid redirect format: ".to_owned();
                s.append(text.as_str());
                s
            },
            RedirectParseError::ExternalLinkNotOnThisWiki { text } => {
                let mut s = "External link not on this wiki: ".to_owned();
                s.append(text.as_str());
                s
            },
        }
    }
}

/// The two kinds of redirect-parse failure, without the offending text.
pub enum RedirectErrorKind {
    Invalid,
    OffWiki,
}

/// The domain of a URL: the characters between `://` and the next `/`.
pub open spec fn spec_extract_domain(url: Seq<char>) -> Option<Seq<char>> {
    match spec_find(url, seq![':', '/', '/']) {
        Some(p) => {
            let rest = url.subrange(p + 3, url.len() as int);
            match spec_find(rest, seq!['/']) {
                Some(de) => Some(rest.subrange(0, de)),
                None => None,
            }
        },
        None => None,
    }
}

/// What parsing an external (`[http...]`) redirect link found at `pos` yields:
/// the link must close with `]`, hold a URL up to the first space, name a URL
/// on the configured site, and carry the target page between `title=` and `&`.
pub open spec fn spec_parse_external(
    domain: Seq<char>,
    text: Seq<char>,
    pos: int,
) -> Result<PageNameView, RedirectErrorKind> {
    let tail = text.subrange(pos, text.len() as int);
    match spec_find(tail, seq![']']) {
        None => Err(RedirectErrorKind::Invalid),
        Some(le) => {
            let link = text.subrange(pos + 1, pos + le);
            match spec_find(link, seq![' ']) {
                None => Err(RedirectErrorKind::Invalid),
                Some(ue) => {
                    let url = link.subrange(0, ue);
                    match spec_extract_domain(url) {
                        None => Err(RedirectErrorKind::OffWiki),
                        Some(d) => if d != domain {
                            Err(RedirectErrorKind::OffWiki)
                        } else {
                            match spec_find(url, seq!['t', 'i', 't', 'l', 'e', '=']) {
                                None => Err(RedirectErrorKind::OffWiki),
                                Some(t0) => {
                                    let after = url.subrange(t0 + 6, url.len() as int);
                                    match spec_find(after, seq!['&']) {
                                        None => Err(RedirectErrorKind::OffWiki),
                                        Some(te) => Ok(PageNameView {
                                            name: after.subrange(0, te),
                                            heading: None,
                                        }),
                                    }
                                },
                            }
                        },
                    }
                },
            }
        },
    }
}

/// What parsing a redirect page's text yields: the target of the first
/// internal (`[[...]]`) link if one opens anywhere in the text, split at `#`
/// into name and heading; otherwise the target of the first external
/// (`[http...]`) link; otherwise the invalid-redirect failure.
pub open spec fn spec_parse_redirect(domain: Seq<char>, text: Seq<char>) -> Result<
    PageNameView,
    RedirectErrorKind,
> {
    match spec_find(text, seq!['[', '[']) {
        Some(pos) => {
            let rest = text.subrange(pos + 2, text.len() as int);
            match spec_find(rest, seq![']', ']']) {
                Some(e) => {
                    let link = rest.subrange(0, e);
                    match spec_find(link, seq!['#']) {
                        Some(h) => Ok(PageNameView {
                            name: link.subrange(0, h),
                            heading: Some(link.subrange(h + 1, link.len() as int)),
                        }),
                        None => Ok(PageNameView { name: link, heading: None }),
                    }
                },
                None => Err(RedirectErrorKind::Invalid),
            }
        },
        None => match spec_find(text, seq!['[', 'h', 't', 't', 'p']) {
            Some(pos) => spec_parse_external(domain, text, pos),
            None => Err(RedirectErrorKind::Invalid),
        },
    }
}

/// Extracts the domain from a URL.
pub fn extract_domain<'a>(url: &'a str) -> (r: Option<&'a str>)
    ensures
        match r {
            Some(d) => spec_extract_domain(url@) == Some(d@),
            None => spec_extract_domain(url@) is None,
        },
{
    let uc = str_to_chars(url);
    let sep = str_to_chars("://");
    proof {
        reveal_strlit("://");
        assert(sep@ =~= seq![':', '/', '/']);
    }
    match find_sub(uc.as_slice(), sep.as_slice()) {
        Some(p) => {
            proof {
                crate::text::lemma_find_first(url@, seq![':', '/', '/']);
            }
            let n = uc.len();
            let rest = slice_subrange(uc.as_slice(), p + 3, n);
            match find_char(rest, '/') {
                Some(de) => {
                    proof {
                        crate::text::lemma_find_first(rest@, seq!['/']);
                    }
                    let d = url.substring_char(p + 3, p + 3 + de);
                    assert(d@ =~= url@.subrange(p + 3, url@.len() as int).subrange(0, de as int));
                    Some(d)
                },
                None => None,
            }
        },
        None => None,
    }
}

/// Resolve the target of a redirect page.
///
/// `text` is the raw page text, already known to begin with the redirect
/// marker; `wikipedia_domain` is the domain of the site the dump describes.
/// On failure the offending text is carried in the error, and which failure
/// comes out is pinned by [`spec_parse_redirect`].
pub fn parse_redirect_text(wikipedia_domain: &str, text: &str) -> (r: Result<
    PageName,
    RedirectParseError,
>)
    ensures
        match r {
            Ok(p) => spec_parse_redirect(wikipedia_domain@, text@) == Ok::<
                PageNameView,
                RedirectErrorKind,
            >(p@),
            Err(e) => match e {
                RedirectParseError::InvalidRedirect { text: t } => t@ == text@
                    && spec_parse_redirect(wikipedia_domain@, text@) == Err::<
                    PageNameView,
                    RedirectErrorKind,
                >(RedirectErrorKind::Invalid),
                RedirectParseError::ExternalLinkNotOnThisWiki { text: t } => t@ == text@
                    && spec_parse_redirect(wikipedia_domain@, text@) == Err::<
                    PageNameView,
                    RedirectErrorKind,
                >(RedirectErrorKind::OffWiki),
            },
        },
{
    let tc = str_to_chars(text);
    let n = tc.len();
    let open_internal = str_to_chars("[[");
    let close_internal = str_to_chars("]]");
    let open_external = str_to_chars("[http");
    proof {
        reveal_strlit("[[");
        reveal_strlit("]]");
        reveal_strlit("[http");
        assert(open_internal@ =~= seq!['[', '[']);
        assert(close_internal@ =~= seq![']', ']']);
        assert(open_external@ =~= seq!['[', 'h', 't', 't', 'p']);
    }
    match find_sub(tc.as_slice(), open_internal.as_slice()) {
        Some(pos) => {
            proof {
                crate::text::lemma_find_first(text@, seq!['[', '[']);
            }
            let rest = slice_subrange(tc.as_slice(), pos + 2, n);
            match find_sub(rest, close_internal.as_slice()) {
                Some(e) => {
                    proof {
                        crate::text::lemma_find_first(rest@, seq![']', ']']);
                    }
                    let link = slice_subrange(rest, 0, e);
                    match find_char(link, '#') {
                        Some(h) => {
                            proof {
                                crate::text::lemma_find_first(link@, seq!['#']);
                            }
                            let name = slice_subrange(link, 0, h);
                            let heading = slice_subrange(link, h + 1, link.len());
                            Ok(PageName {
                                name: chars_to_string(name),
                                heading: Some(chars_to_string(heading)),
                            })
                        },
                        None => Ok(PageName { name: chars_to_string(link), heading: None }),
                    }
                },
                None => Err(RedirectParseError::InvalidRedirect { text: text.to_owned() }),
            }
        },
        None => {
            match find_sub(tc.as_slice(), open_external.as_slice()) {
                Some(pos) => {
                    proof {
                        crate::text::lemma_find_first(text@, seq!['[', 'h', 't', 't', 'p']);
                    }
                    parse_external(wikipedia_domain, text, tc.as_slice(), pos)
                },
                None => Err(RedirectParseError::InvalidRedirect { text: text.to_owned() }),
            }
        },
    }
}

/// Resolve an external (`[http...]`) redirect link found at `pos`.
fn parse_external(wikipedia_domain: &str, text: &str, tc: &[char], pos: usize) -> (r: Result<
    PageName,
    RedirectParseError,
>)
    requires
        tc@ == text@,
        crate::text::is_match_at(text@, seq!['[', 'h', 't', 't', 'p'], pos as int),
    ensures
        match r {
            Ok(p) => spec_parse_external(wikipedia_domain@, text@, pos as int) == Ok::<
                PageNameView,
                RedirectErrorKind,
            >(p@),
            Err(e) => match e {
                RedirectParseError::InvalidRedirect { text: t } => t@ == text@
                    && spec_parse_external(wikipedia_domain@, text@, pos as int) == Err::<
                    PageNameView,
                    RedirectErrorKind,
                >(RedirectErrorKind::Invalid),
                RedirectParseError::ExternalLinkNotOnThisWiki { text: t } => t@ == text@
                    && spec_parse_external(wikipedia_domain@, text@, pos as int) == Err::<
                    PageNameView,
                    RedirectErrorKind,
                >(RedirectErrorKind::OffWiki),
            },
        },
{
    let n = tc.len();
    let tail = slice_subrange(tc, pos, n);
    let le = match find_char(tail, ']') {
        Some(le) => le,
        None => {
            return Err(RedirectParseError::InvalidRedirect { text: text.to_owned() });
        },
    };
    proof {
        crate::text::lemma_find_first(tail@, seq![']']);
        crate::text::lemma_match_chars(text@, seq!['[', 'h', 't', 't', 'p'], pos as int);
        crate::text::lemma_match_singleton(tail@, ']', 0);
        // The character at `pos` opens the link, so the closing `]` is not at it.
        assert(tail@[0] == text@[pos as int]);
        assert(le != 0);
    }
    let link = slice_subrange(tc, pos + 1, pos + le);
    let ue = match find_char(link, ' ') {
        Some(ue) => ue,
        None => {
            return Err(RedirectParseError::InvalidRedirect { text: text.to_owned() });
        },
    };
    proof {
        crate::text::lemma_find_first(link@, seq![' ']);
    }
    let url = slice_subrange(link, 0, ue);
    let url_s = chars_to_string(url);
    let domain = match extract_domain(url_s.as_str()) {
        Some(d) => d,
        None => {
            return Err(RedirectParseError::ExternalLinkNotOnThisWiki { text: text.to_owned() });
        },
    };
    let dc = str_to_chars(domain);
    let wc = str_to_chars(wikipedia_domain);
    if !chars_eq(dc.as_slice(), wc.as_slice()) {
        return Err(RedirectParseError::ExternalLinkNotOnThisWiki { text: text.to_owned() });
    }
    let title_pat = str_to_chars("title=");
    proof {
        reveal_strlit("title=");
        assert(title_pat@ =~= seq!['t', 'i', 't', 'l', 'e', '=']);
    }
    let t0 = match find_sub(url, title_pat.as_slice()) {
        Some(t0) => t0,
        None => {
            return Err(RedirectParseError::ExternalLinkNotOnThisWiki { text: text.to_owned() });
        },
    };
    proof {
        crate::text::lemma_find_first(url@, seq!['t', 'i', 't', 'l', 'e', '=']);
    }
    let after = slice_subrange(url, t0 + 6, url.len());
    let te = match find_char(after, '&') {
        Some(te) => te,
        None => {
            return Err(RedirectParseError::ExternalLinkNotOnThisWiki { text: text.to_owned() });
        },
    };
    proof {
        crate::text::lemma_find_first(after@, seq!['&']);
    }
    let name = slice_subrange(after, 0, te);
    Ok(PageName { name: chars_to_string(name), heading: None })
}

/// True when `s` holds two adjacent `]` characters.
pub open spec fn has_double_close(s: Seq<char>) -> bool {
    exists|j: int| 0 <= j < s.len() - 1 && #[trigger] s[j] == ']' && s[j + 1] == ']'
}

/// Every valid internal redirect resolves to its target, with no heading:
/// for any page text made of a prefix free of `[`, then `[[`, a target name
/// `a`, `]]`, and arbitrary trailing markup, the parser yields the target
/// `a` with no heading. The target must hold no `#` (which would mark a
/// heading), no `]]`, and must not end in `]` (which would close the link
/// early).
pub proof fn lemma_redirect_internal(
    domain: Seq<char>,
    pre: Seq<char>,
    a: Seq<char>,
    tail: Seq<char>,
)
    requires
        forall|i: int| 0 <= i < pre.len() ==> pre[i] != '[',
        forall|i: int| 0 <= i < a.len() ==> a[i] != '#',
        !has_double_close(a),
        a.len() == 0 || a[a.len() - 1] != ']',
    ensures
        spec_parse_redirect(domain, pre + seq!['[', '['] + a + seq![']', ']'] + tail) == Ok::<
            PageNameView,
            RedirectErrorKind,
        >(PageNameView { name: a, heading: None }),
{
    let text = pre + seq!['[', '['] + a + seq![']', ']'] + tail;
    let pl = pre.len() as int;
    let al = a.len() as int;
    assert(text.len() == pl + 2 + al + 2 + tail.len());
    assert forall|i: int| 0 <= i < pl implies text[i] == pre[i] by {}
    assert(text[pl] == '[');
    assert(text[pl + 1] == '[');
    assert(crate::text::is_match_at(text, seq!['[', '['], pl)) by {
        crate::text::lemma_match_chars(text, seq!['[', '['], pl);
    }
    assert forall|j: int| 0 <= j < pl implies !crate::text::is_match_at(
        text,
        seq!['[', '['],
        j,
    ) by {
        crate::text::lemma_match_chars(text, seq!['[', '['], j);
        if j < pl - 1 {
            assert(text[j] == pre[j]);
        } else {
            assert(text[j] == pre[j]);
        }
    }
    crate::text::lemma_find_complete(text, seq!['[', '['], pl);
    let rest = text.subrange(pl + 2, text.len() as int);
    assert(rest =~= a + seq![']', ']'] + tail);
    assert(crate::text::is_match_at(rest, seq![']', ']'], al)) by {
        crate::text::lemma_match_chars(rest, seq![']', ']'], al);
    }
    assert forall|j: int| 0 <= j < al implies !crate::text::is_match_at(
        rest,
        seq![']', ']'],
        j,
    ) by {
        crate::text::lemma_match_chars(rest, seq![']', ']'], j);
        if j == al - 1 {
            assert(rest[j] == a[j]);
        } else {
            if rest[j] == ']' && rest[j + 1] == ']' {
                assert(a[j] == ']' && a[j + 1] == ']');
                assert(has_double_close(a));
            }
        }
    }
    crate::text::lemma_find_complete(rest, seq![']', ']'], al);
    let link = rest.subrange(0, al);
    assert(link =~= a);
    assert forall|j: int| !crate::text::is_match_at(link, seq!['#'], j) by {
        crate::text::lemma_match_singleton(link, '#', j);
    }
    crate::text::lemma_find_first(link, seq!['#']);
    if spec_find(link, seq!['#']) is Some {
        let k = spec_find(link, seq!['#']).unwrap();
        assert(crate::text::is_match_at(link, seq!['#'], k));
    }
}

/// A valid internal redirect whose target carries a section heading resolves
/// to the target name and that heading: the link text `a#b` splits at its
/// first `#`. The name `a` must hold no `#`; neither part may hold `]]`, and
/// the heading must not end in `]` (which would close the link early). The
/// name may end in `]`: the `#` that follows it keeps the link open.
#[verifier::rlimit(60)]
#[verifier::spinoff_prover]
pub proof fn lemma_redirect_internal_heading(
    domain: Seq<char>,
    pre: Seq<char>,
    a: Seq<char>,
    b: Seq<char>,
    tail: Seq<char>,
)
    requires
        forall|i: int| 0 <= i < pre.len() ==> pre[i] != '[',
        forall|i: int| 0 <= i < a.len() ==> a[i] != '#',
        !has_double_close(a),
        !has_double_close(b),
        b.len() == 0 || b[b.len() - 1] != ']',
    ensures
        spec_parse_redirect(
            domain,
            pre + seq!['[', '['] + a + seq!['#'] + b + seq![']', ']'] + tail,
        ) == Ok::<PageNameView, RedirectErrorKind>(
            PageNameView { name: a, heading: Some(b) },
        ),
{
    let text = pre + seq!['[', '['] + a + seq!['#'] + b + seq![']', ']'] + tail;
    let pl = pre.len() as int;
    let al = a.len() as int;
    let bl = b.len() as int;
    assert(text[pl] == '[');
    assert(text[pl + 1] == '[');
    assert(crate::text::is_match_at(text, seq!['[', '['], pl)) by {
        crate::text::lemma_match_chars(text, seq!['[', '['], pl);
    }
    assert forall|j: int| 0 <= j < pl implies !crate::text::is_match_at(
        text,
        seq!['[', '['],
        j,
    ) by {
        crate::text::lemma_match_chars(text, seq!['[', '['], j);
        assert(text[j] == pre[j]);
    }
    crate::text::lemma_find_complete(text, seq!['[', '['], pl);
    let rest = text.subrange(pl + 2, text.len() as int);
    assert(rest =~= a + seq!['#'] + b + seq![']', ']'] + tail);
    let close_at = al + 1 + bl;
    assert(crate::text::is_match_at(rest, seq![']', ']'], close_at)) by {
        crate::text::lemma_match_chars(rest, seq![']', ']'], close_at);
    }
    assert forall|j: int| 0 <= j < close_at implies !crate::text::is_match_at(
        rest,
        seq![']', ']'],
        j,
    ) by {
        crate::text::lemma_match_chars(rest, seq![']', ']'], j);
        if rest[j] == ']' && rest[j + 1] == ']' {
            if j < al - 1 {
                assert(a[j] == ']' && a[j + 1] == ']');
                assert(has_double_close(a));
            } else if j == al - 1 {
                assert(rest[j + 1] == '#');
            } else if j == al {
                assert(rest[j] == '#');
            } else if j < al + bl {
                assert(b[j - al - 1] == ']' && b[j - al] == ']');
                assert(has_double_close(b));
            } else {
                assert(rest[j] == b[bl - 1]);
            }
        }
    }
    crate::text::lemma_find_complete(rest, seq![']', ']'], close_at);
    let link = rest.subrange(0, close_at);
    assert(link =~= a + seq!['#'] + b);
    assert(crate::text::is_match_at(link, seq!['#'], al)) by {
        crate::text::lemma_match_singleton(link, '#', al);
    }
    assert forall|j: int| 0 <= j < al implies !crate::text::is_match_at(link, seq!['#'], j) by {
        crate::text::lemma_match_singleton(link, '#', j);
        assert(link[j] == a[j]);
    }
    crate::text::lemma_find_complete(link, seq!['#'], al);
    assert(link.subrange(0, al) =~= a);
    assert(link.subrange(al + 1, link.len() as int) =~= b);
}

/// A page text with no link opener at all (no `[` anywhere) fails with the
/// invalid-redirect error.
pub proof fn lemma_redirect_no_opener(domain: Seq<char>, text: Seq<char>)
    requires
        forall|i: int| 0 <= i < text.len() ==> text[i] != '[',
    ensures
        spec_parse_redirect(domain, text) == Err::<PageNameView, RedirectErrorKind>(
            RedirectErrorKind::Invalid,
        ),
{
    assert forall|j: int| !crate::text::is_match_at(text, seq!['[', '['], j) by {
        crate::text::lemma_match_chars(text, seq!['[', '['], j);
    }
    crate::text::lemma_find_first(text, seq!['[', '[']);
    if spec_find(text, seq!['[', '[']) is Some {
        let k = spec_find(text, seq!['[', '[']).unwrap();
        assert(crate::text::is_match_at(text, seq!['[', '['], k));
    }
    assert forall|j: int| !crate::text::is_match_at(text, seq!['[', 'h', 't', 't', 'p'], j) by {
        crate::text::lemma_match_chars(text, seq!['[', 'h', 't', 't', 'p'], j);
    }
    crate::text::lemma_find_first(text, seq!['[', 'h', 't', 't', 'p']);
    if spec_find(text, seq!['[', 'h', 't', 't', 'p']) is Some {
        let k = spec_find(text, seq!['[', 'h', 't', 't', 'p']).unwrap();
        assert(crate::text::is_match_at(text, seq!['[', 'h', 't', 't', 'p'], k));
    }
}

/// Any redirect text with no internal link opener whose first external
/// (`[http...]`) link is not on the configured site fails off-wiki: the
/// text holds no `[[` anywhere, its first `[http` link closes with `]` and
/// holds a space-delimited URL, and that URL's domain is absent or differs
/// from the site domain. Stated over the text as found, not over how it
/// was put together.
pub proof fn lemma_redirect_first_external_off_wiki(domain: Seq<char>, text: Seq<char>)
    requires
        spec_find(text, seq!['[', '[']) is None,
        spec_find(text, seq!['[', 'h', 't', 't', 'p']) is Some,
        ({
            let pos = spec_find(text, seq!['[', 'h', 't', 't', 'p']).unwrap();
            let tail = text.subrange(pos, text.len() as int);
            &&& spec_find(tail, seq![']']) is Some
            &&& {
                let le = spec_find(tail, seq![']']).unwrap();
                let link = text.subrange(pos + 1, pos + le);
                &&& spec_find(link, seq![' ']) is Some
                &&& {
                    let ue = spec_find(link, seq![' ']).unwrap();
                    let url = link.subrange(0, ue);
                    match spec_extract_domain(url) {
                        Some(d) => d != domain,
                        None => true,
                    }
                }
            }
        }),
    ensures
        spec_parse_redirect(domain, text) == Err::<PageNameView, RedirectErrorKind>(
            RedirectErrorKind::OffWiki,
        ),
{
}

/// An external redirect link whose URL is not on the configured site fails
/// with the off-wiki error: for any text made of a prefix free of `[`, a
/// bracketed link `[<url> <label>]` whose URL starts with `http`, and
/// arbitrary trailing text free of `[[`, if the URL's domain is absent or
/// differs from the site domain the parser rejects the redirect as off-wiki.
pub proof fn lemma_redirect_external_off_wiki(
    domain: Seq<char>,
    pre: Seq<char>,
    url: Seq<char>,
    label: Seq<char>,
    tail: Seq<char>,
)
    requires
        forall|i: int| 0 <= i < pre.len() ==> pre[i] != '[',
        url.len() >= 4,
        url[0] == 'h' && url[1] == 't' && url[2] == 't' && url[3] == 'p',
        forall|i: int| 0 <= i < url.len() ==> url[i] != '[' && url[i] != ']' && url[i] != ' ',
        forall|i: int| 0 <= i < label.len() ==> label[i] != '[' && label[i] != ']',
        forall|i: int| 0 <= i < tail.len() - 1 ==> !(#[trigger] tail[i] == '[' && tail[i + 1]
            == '['),
        match spec_extract_domain(url) {
            Some(d) => d != domain,
            None => true,
        },
    ensures
        spec_parse_redirect(domain, pre + seq!['['] + url + seq![' '] + label + seq![']'] + tail)
            == Err::<PageNameView, RedirectErrorKind>(RedirectErrorKind::OffWiki),
{
    let text = pre + seq!['['] + url + seq![' '] + label + seq![']'] + tail;
    let pl = pre.len() as int;
    let ul = url.len() as int;
    let ll = label.len() as int;
    let close_at = pl + 1 + ul + 1 + ll;
    assert(text[pl] == '[');
    assert(text[close_at] == ']');
    // Characters by region, for the searches below.
    assert forall|i: int| 0 <= i < pl implies text[i] == pre[i] by {}
    assert forall|i: int| 0 <= i < ul implies text[pl + 1 + i] == url[i] by {}
    assert(text[pl + 1 + ul] == ' ');
    assert forall|i: int| 0 <= i < ll implies text[pl + 1 + ul + 1 + i] == label[i] by {}
    assert forall|i: int| 0 <= i < tail.len() implies text[close_at + 1 + i] == tail[i] by {}
    // No internal link opens anywhere.
    assert forall|j: int| !crate::text::is_match_at(text, seq!['[', '['], j) by {
        crate::text::lemma_match_chars(text, seq!['[', '['], j);
        if 0 <= j && j + 2 <= text.len() && text[j] == '[' && text[j + 1] == '[' {
            if j < pl {
                assert(text[j] == pre[j]);
            } else if j == pl {
                assert(text[j + 1] == url[0]);
            } else if j < pl + 1 + ul {
                assert(text[j] == url[j - pl - 1]);
            } else if j == pl + 1 + ul {
                assert(text[j] == ' ');
            } else if j < close_at {
                assert(text[j] == label[j - pl - 2 - ul]);
            } else if j == close_at {
                assert(text[j] == ']');
            } else {
                assert(text[j] == tail[j - close_at - 1]);
                if j + 1 < text.len() {
                    assert(text[j + 1] == tail[j - close_at]);
                }
            }
        }
    }
    crate::text::lemma_find_first(text, seq!['[', '[']);
    if spec_find(text, seq!['[', '[']) is Some {
        let k = spec_find(text, seq!['[', '[']).unwrap();
        assert(crate::text::is_match_at(text, seq!['[', '['], k));
    }
    // The external link opens at the end of the prefix and nowhere earlier.
    assert(crate::text::is_match_at(text, seq!['[', 'h', 't', 't', 'p'], pl)) by {
        crate::text::lemma_match_chars(text, seq!['[', 'h', 't', 't', 'p'], pl);
        assert(text[pl + 1] == url[0]);
        assert(text[pl + 2] == url[1]);
        assert(text[pl + 3] == url[2]);
        assert(text[pl + 4] == url[3]);
    }
    assert forall|j: int| 0 <= j < pl implies !crate::text::is_match_at(
        text,
        seq!['[', 'h', 't', 't', 'p'],
        j,
    ) by {
        crate::text::lemma_match_chars(text, seq!['[', 'h', 't', 't', 'p'], j);
        assert(text[j] == pre[j]);
    }
    crate::text::lemma_find_complete(text, seq!['[', 'h', 't', 't', 'p'], pl);
    // The first closing bracket after the opener ends the link.
    let tail0 = text.subrange(pl, text.len() as int);
    assert(tail0 =~= seq!['['] + url + seq![' '] + label + seq![']'] + tail.subrange(
        0,
        tail.len() as int,
    ));
    let le = 1 + ul + 1 + ll;
    assert(tail0[le] == ']');
    assert(crate::text::is_match_at(tail0, seq![']'], le)) by {
        crate::text::lemma_match_singleton(tail0, ']', le);
    }
    assert forall|j: int| 0 <= j < le implies !crate::text::is_match_at(tail0, seq![']'], j) by {
        crate::text::lemma_match_singleton(tail0, ']', j);
        if tail0[j] == ']' {
            if j == 0 {
                assert(tail0[j] == '[');
            } else if j < 1 + ul {
                assert(tail0[j] == url[j - 1]);
            } else if j == 1 + ul {
                assert(tail0[j] == ' ');
            } else {
                assert(tail0[j] == label[j - 2 - ul]);
            }
        }
    }
    crate::text::lemma_find_complete(tail0, seq![']'], le);
    // The link body splits at its first space into URL and label.
    let link = text.subrange(pl + 1, pl + le);
    assert(link =~= url + seq![' '] + label);
    assert(crate::text::is_match_at(link, seq![' '], ul)) by {
        crate::text::lemma_match_singleton(link, ' ', ul);
    }
    assert forall|j: int| 0 <= j < ul implies !crate::text::is_match_at(link, seq![' '], j) by {
        crate::text::lemma_match_singleton(link, ' ', j);
        assert(link[j] == url[j]);
    }
    crate::text::lemma_find_complete(link, seq![' '], ul);
    assert(link.subrange(0, ul) =~= url);
}

} // verus!
