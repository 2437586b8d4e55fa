//! Curated mix lists: a block of text holds either a plea for help (with an
//! optional reason) or one mix per line, each a playlist or video URL with
//! an optional `#`-introduced note.
use vstd::prelude::*;

use crate::text::{chars_eq, chars_to_string, find_char, find_sub, lemma_find_first, spec_find,
    spec_lines, spec_starts_with, lines_of, starts_with_chars, str_to_chars};

verus! {

/// A mix for a genre: a playlist or a video.
#[derive(Debug, PartialEq, Eq)]
pub enum GenreMix {
    /// A playlist mix.
    Playlist { playlist: String, note: Option<String> },
    /// A video mix.
    Video { video: String, note: Option<String> },
}

/// The mathematical value of a [`GenreMix`].
pub enum GenreMixV {
    Playlist { playlist: Seq<char>, note: Option<Seq<char>> },
    Video { video: Seq<char>, note: Option<Seq<char>> },
}

impl View for GenreMix {
    type V = GenreMixV;

    open spec fn view(&self) -> GenreMixV {
        match self {
            GenreMix::Playlist { playlist, note } => GenreMixV::Playlist {
                playlist: playlist@,
                note: match note {
                    Some(n) => Some(n@),
                    None => None,
                },
            },
            GenreMix::Video { video, note } => GenreMixV::Video {
                video: video@,
                note: match note {
                    Some(n) => Some(n@),
                    None => None,
                },
            },
        }
    }
}

/// A list of mixes for a genre, or the reason none is listed yet.
#[derive(Debug, PartialEq, Eq)]
pub enum GenreMixes {
    /// A mix was not available; this is why.
    Help { help_reason: Option<String> },
    /// A list of mixes.
    Mixes(Vec<GenreMix>),
}

/// The mathematical value of a [`GenreMixes`].
pub enum GenreMixesV {
    Help { help_reason: Option<Seq<char>> },
    Mixes(Seq<GenreMixV>),
}

impl View for GenreMixes {
    type V = GenreMixesV;

    open spec fn view(&self) -> GenreMixesV {
        match self {
            GenreMixes::Help { help_reason } => GenreMixesV::Help {
                help_reason: match help_reason {
                    Some(n) => Some(n@),
                    None => None,
                },
            },
            GenreMixes::Mixes(v) => GenreMixesV::Mixes(v@.map_values(|m: GenreMix| m@)),
        }
    }
}

/// True when `c` separates words in a mix list.
pub open spec fn spec_is_space(c: char) -> bool {
    c == ' ' || c == '\t' || c == '\n' || c == '\r'
}

/// `s` without its leading spaces.
pub open spec fn spec_trim_start(s: Seq<char>) -> Seq<char>
    decreases s.len(),
{
    if s.len() > 0 && spec_is_space(s[0]) {
        spec_trim_start(s.drop_first())
    } else {
        s
    }
}

/// `s` without its trailing spaces.
pub open spec fn spec_trim_end(s: Seq<char>) -> Seq<char>
    decreases s.len(),
{
    if s.len() > 0 && spec_is_space(s.last()) {
        spec_trim_end(s.drop_last())
    } else {
        s
    }
}

/// `s` without its leading and trailing spaces.
pub open spec fn spec_trim(s: Seq<char>) -> Seq<char> {
    spec_trim_end(spec_trim_start(s))
}

/// Executable form of [`spec_is_space`].
fn is_space(c: char) -> (r: bool)
    ensures
        r == spec_is_space(c),
{
    c == ' ' || c == '\t' || c == '\n' || c == '\r'
}

/// Strip leading and trailing spaces.
fn trim_slice<'a>(s: &'a [char]) -> (r: &'a [char])
    ensures
        r@ == spec_trim(s@),
{
    let n = s.len();
    let mut a: usize = 0;
    proof {
        assert(s@.skip(0) =~= s@);
    }
    while a < n && is_space(s[a])
        invariant
            n == s@.len(),
            a <= n,
            spec_trim_start(s@) == spec_trim_start(s@.skip(a as int)),
        decreases n - a,
    {
        proof {
            assert(s@.skip(a as int).drop_first() =~= s@.skip(a + 1));
        }
        a += 1;
    }
    proof {
        if a < n {
            assert(spec_trim_start(s@.skip(a as int)) == s@.skip(a as int));
        } else {
            assert(s@.skip(a as int) =~= Seq::<char>::empty());
        }
    }
    let mut b: usize = n;
    while b > a && is_space(s[b - 1])
        invariant
            n == s@.len(),
            a <= b <= n,
            spec_trim_start(s@) == s@.skip(a as int),
            spec_trim_end(s@.skip(a as int)) == spec_trim_end(s@.subrange(a as int, b as int)),
        decreases b,
    {
        proof {
            assert(s@.subrange(a as int, b as int).last() == s@[b - 1]);
            assert(s@.subrange(a as int, b as int).drop_last() =~= s@.subrange(a as int, b - 1));
        }
        b -= 1;
    }
    proof {
        if b > a {
            assert(s@.subrange(a as int, b as int).last() == s@[b - 1]);
            assert(spec_trim_end(s@.subrange(a as int, b as int)) == s@.subrange(
                a as int,
                b as int,
            ));
        } else {
            assert(s@.subrange(a as int, b as int) =~= Seq::<char>::empty());
        }
        assert(s@.skip(a as int) =~= s@.subrange(a as int, n as int));
    }
    vstd::slice::slice_subrange(s, a, b)
}

/// True when `c` ends an id read out of a URL.
pub open spec fn spec_is_stop(c: char) -> bool {
    c == '&' || c == '#'
}

/// The number of characters before the first `&` or `#` of `s`.
pub open spec fn spec_stop_idx(s: Seq<char>) -> int
    decreases s.len(),
{
    if s.len() == 0 {
        0
    } else if spec_is_stop(s[0]) {
        0
    } else {
        1 + spec_stop_idx(s.drop_first())
    }
}

/// The characters of `s` before its first `&` or `#`.
pub open spec fn spec_split_prefix(s: Seq<char>) -> Seq<char> {
    s.subrange(0, spec_stop_idx(s))
}

/// Take the characters before the first `&` or `#`.
fn split_prefix<'a>(s: &'a [char]) -> (r: &'a [char])
    ensures
        r@ == spec_split_prefix(s@),
{
    let n = s.len();
    let mut i: usize = 0;
    proof {
        assert(s@.skip(0) =~= s@);
    }
    while i < n && !(s[i] == '&' || s[i] == '#')
        invariant
            n == s@.len(),
            i <= n,
            spec_stop_idx(s@) == i + spec_stop_idx(s@.skip(i as int)),
        decreases n - i,
    {
        proof {
            assert(s@.skip(i as int)[0] == s@[i as int]);
            assert(s@.skip(i as int).drop_first() =~= s@.skip(i + 1));
        }
        i += 1;
    }
    proof {
        if i < n {
            assert(s@.skip(i as int)[0] == s@[i as int]);
            assert(spec_stop_idx(s@.skip(i as int)) == 0);
        } else {
            assert(s@.skip(i as int) =~= Seq::<char>::empty());
        }
    }
    vstd::slice::slice_subrange(s, 0, i)
}

/// The characters of `s` after its last `/`, or all of `s` when it has none.
pub open spec fn spec_after_last_slash(s: Seq<char>) -> Seq<char>
    decreases s.len(),
{
    match spec_find(s, seq!['/']) {
        Some(i) => {
            if 0 <= i < s.len() {
                spec_after_last_slash(s.subrange(i + 1, s.len() as int))
            } else {
                s
            }
        },
        None => s,
    }
}

/// Take the characters after the last `/`.
fn after_last_slash<'a>(s: &'a [char]) -> (r: &'a [char])
    ensures
        r@ == spec_after_last_slash(s@),
{
    let n = s.len();
    let mut pos: usize = 0;
    proof {
        assert(s@.skip(0) =~= s@);
    }
    loop
        invariant
            n == s@.len(),
            pos <= n,
            spec_after_last_slash(s@) == spec_after_last_slash(s@.skip(pos as int)),
        decreases n - pos,
    {
        let rest = vstd::slice::slice_subrange(s, pos, n);
        match find_char(rest, '/') {
            Some(i) => {
                proof {
                    lemma_find_first(rest@, seq!['/']);
                    assert(rest@.subrange(i + 1, rest@.len() as int) =~= s@.skip(pos + i + 1));
                }
                pos = pos + i + 1;
            },
            None => {
                proof {
                    assert(spec_after_last_slash(s@.skip(pos as int)) == s@.skip(pos as int));
                    assert(s@.skip(pos as int) =~= s@.subrange(pos as int, n as int));
                }
                return vstd::slice::slice_subrange(s, pos, n);
            },
        }
    }
}

/// What one line of a mix list denotes: nothing when it is blank or names
/// no recognizable URL; otherwise the playlist id after `list=`, or the
/// video id after `v=` or after the last `/` of a `youtu.be/` URL, each id
/// running to the next `&` or `#`, with the text after a `#` kept as the
/// mix's note.
pub open spec fn spec_parse_mix_line(l: Seq<char>) -> Option<GenreMixV> {
    let t = spec_trim(l);
    if t.len() == 0 {
        None
    } else {
        let h = spec_find(t, seq!['#']);
        let url = match h {
            Some(i) => if 0 <= i <= t.len() {
                spec_trim(t.subrange(0, i))
            } else {
                t
            },
            None => t,
        };
        let note = match h {
            Some(i) => if 0 <= i <= t.len() {
                Some(spec_trim(t.subrange(i + 1, t.len() as int)))
            } else {
                None
            },
            None => None,
        };
        match spec_find(url, "list="@) {
            Some(i) => {
                if 0 <= i && i + 5 <= url.len() {
                    Some(
                        GenreMixV::Playlist {
                            playlist: spec_split_prefix(url.subrange(i + 5, url.len() as int)),
                            note,
                        },
                    )
                } else {
                    None
                }
            },
            None => match spec_find(url, "v="@) {
                Some(i) => {
                    if 0 <= i && i + 2 <= url.len() {
                        Some(
                            GenreMixV::Video {
                                video: spec_split_prefix(url.subrange(i + 2, url.len() as int)),
                                note,
                            },
                        )
                    } else {
                        None
                    }
                },
                None => {
                    if spec_find(url, "youtu.be/"@) is Some {
                        Some(
                            GenreMixV::Video {
                                video: spec_split_prefix(spec_after_last_slash(url)),
                                note,
                            },
                        )
                    } else {
                        None
                    }
                },
            },
        }
    }
}

/// The mixes the lines of a list denote, in order, blank and unrecognized
/// lines contributing nothing.
pub open spec fn spec_collect_mixes(lines: Seq<Seq<char>>) -> Seq<GenreMixV>
    decreases lines.len(),
{
    if lines.len() == 0 {
        Seq::empty()
    } else {
        match spec_parse_mix_line(lines[0]) {
            Some(m) => seq![m] + spec_collect_mixes(lines.drop_first()),
            None => spec_collect_mixes(lines.drop_first()),
        }
    }
}

/// What a mix list's text denotes: `help:` with a reason, the bare word
/// `help`, or the mixes of its lines.
pub open spec fn spec_parse_mixes(input: Seq<char>) -> GenreMixesV {
    let t = spec_trim(input);
    if spec_starts_with(t, "help:"@) {
        GenreMixesV::Help { help_reason: Some(spec_trim(t.subrange(5, t.len() as int))) }
    } else if t == "help"@ {
        GenreMixesV::Help { help_reason: None }
    } else {
        GenreMixesV::Mixes(spec_collect_mixes(spec_lines(t)))
    }
}

/// Parse one line of a mix list.
fn parse_mix_line(l: &[char]) -> (r: Option<GenreMix>)
    ensures
        match r {
            Some(m) => spec_parse_mix_line(l@) == Some(m@),
            None => spec_parse_mix_line(l@) is None,
        },
{
    let t = trim_slice(l);
    if t.len() == 0 {
        return None;
    }
    let (url, note) = match find_char(t, '#') {
        Some(h) => {
            proof {
                lemma_find_first(t@, seq!['#']);
            }
            let url = trim_slice(vstd::slice::slice_subrange(t, 0, h));
            let note_part = trim_slice(vstd::slice::slice_subrange(t, h + 1, t.len()));
            (url, Some(chars_to_string(note_part)))
        },
        None => (t, None),
    };
    let list_pat = str_to_chars("list=");
    let v_pat = str_to_chars("v=");
    let yb_pat = str_to_chars("youtu.be/");
    match find_sub(url, list_pat.as_slice()) {
        Some(i) => {
            proof {
                reveal_strlit("list=");
                lemma_find_first(url@, "list="@);
            }
            let m = url.len();
            assert(i + 5 <= m);
            let id = split_prefix(vstd::slice::slice_subrange(url, i + 5, m));
            Some(GenreMix::Playlist { playlist: chars_to_string(id), note })
        },
        None => {
            match find_sub(url, v_pat.as_slice()) {
                Some(i) => {
                    proof {
                        reveal_strlit("v=");
                        lemma_find_first(url@, "v="@);
                    }
                    let m = url.len();
                    assert(i + 2 <= m);
                    let id = split_prefix(vstd::slice::slice_subrange(url, i + 2, m));
                    Some(GenreMix::Video { video: chars_to_string(id), note })
                },
                None => {
                    match find_sub(url, yb_pat.as_slice()) {
                        Some(i) => {
                            let id = split_prefix(after_last_slash(url));
                            Some(GenreMix::Video { video: chars_to_string(id), note })
                        },
                        None => None,
                    }
                },
            }
        },
    }
}

impl GenreMixes {
    /// Parse a list of mixes from a string. What comes out of each shape of
    /// input is pinned by [`spec_parse_mixes`].
    pub fn parse(input: &str) -> (r: Self)
        ensures
            r@ == spec_parse_mixes(input@),
    {
        let chars = str_to_chars(input);
        let t = trim_slice(chars.as_slice());
        let help_marker = str_to_chars("help:");
        if starts_with_chars(t, help_marker.as_slice()) {
            proof {
                reveal_strlit("help:");
                assert(t@.len() >= 5);
            }
            let reason = trim_slice(vstd::slice::slice_subrange(t, 5, t.len()));
            return GenreMixes::Help { help_reason: Some(chars_to_string(reason)) };
        }
        let help_word = str_to_chars("help");
        if chars_eq(t, help_word.as_slice()) {
            return GenreMixes::Help { help_reason: None };
        }
        let lines = lines_of(t);
        let ghost linesv = spec_lines(t@);
        let n = lines.len();
        let mut out: Vec<GenreMix> = Vec::new();
        let mut i: usize = 0;
        proof {
            assert(out@.map_values(|m: GenreMix| m@) =~= Seq::<GenreMixV>::empty());
            assert(linesv.skip(0) =~= linesv);
            assert(Seq::<GenreMixV>::empty() + spec_collect_mixes(linesv) =~= spec_collect_mixes(
                linesv,
            ));
        }
        while i < n
            invariant
                n == lines@.len(),
                lines@.map_values(|l: Vec<char>| l@) == linesv,
                i <= n,
                out@.map_values(|m: GenreMix| m@) + spec_collect_mixes(linesv.skip(i as int))
                    == spec_collect_mixes(linesv),
            decreases n - i,
        {
            proof {
                assert(linesv.skip(i as int)[0] == linesv[i as int]);
                assert(linesv[i as int] == lines@[i as int]@);
                assert(linesv.skip(i as int).drop_first() =~= linesv.skip(i + 1));
            }
            match parse_mix_line(lines[i].as_slice()) {
                Some(m) => {
                    let ghost mv = m@;
                    let ghost o0 = out@;
                    out.push(m);
                    proof {
                        assert(out@.map_values(|m: GenreMix| m@) =~= o0.map_values(
                            |m: GenreMix| m@,
                        ).push(mv));
                        assert(o0.map_values(|m: GenreMix| m@) + (seq![mv] + spec_collect_mixes(
                            linesv.skip(i + 1),
                        )) =~= out@.map_values(|m: GenreMix| m@) + spec_collect_mixes(
                            linesv.skip(i + 1),
                        ));
                    }
                },
                None => {},
            }
            i += 1;
        }
        proof {
            assert(linesv.skip(n as int) =~= Seq::<Seq<char>>::empty());
            assert(out@.map_values(|m: GenreMix| m@) + Seq::<GenreMixV>::empty() =~= out@
                .map_values(|m: GenreMix| m@));
        }
        GenreMixes::Mixes(out)
    }
}

} // verus!
