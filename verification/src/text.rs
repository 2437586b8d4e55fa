//! Character-sequence utilities shared by the parsers: substring search,
//! decimal-digit parsing, and conversions between `str` and `Vec<char>`.
use vstd::prelude::*;
use vstd::string::StrSliceExecFns;

verus! {

/// True when `pat` occurs in `s` starting at index `i`.
pub open spec fn is_match_at<T>(s: Seq<T>, pat: Seq<T>, i: int) -> bool {
    &&& 0 <= i
    &&& i + pat.len() <= s.len()
    &&& s.subrange(i, i + pat.len() as int) == pat
}

/// The index of the first occurrence of `pat` in `s`, if any.
pub open spec fn spec_find<T>(s: Seq<T>, pat: Seq<T>) -> Option<int>
    decreases s.len(),
{
    if pat.len() > s.len() {
        None
    } else if s.subrange(0, pat.len() as int) == pat {
        Some(0)
    } else if s.len() == 0 {
        None
    } else {
        match spec_find(s.drop_first(), pat) {
            Some(i) => Some(i + 1),
            None => None,
        }
    }
}

/// `spec_find` returns the first match: a match at its result, none before it,
/// and `None` exactly when no index matches.
pub proof fn lemma_find_first<T>(s: Seq<T>, pat: Seq<T>)
    ensures
        match spec_find(s, pat) {
            Some(i) => is_match_at(s, pat, i) && (forall|j: int|
                0 <= j < i ==> !is_match_at(s, pat, j)),
            None => forall|j: int| !is_match_at(s, pat, j),
        },
    decreases s.len(),
{
    if pat.len() > s.len() {
        assert forall|j: int| !is_match_at(s, pat, j) by {}
    } else if s.subrange(0, pat.len() as int) == pat {
        assert(is_match_at(s, pat, 0));
    } else if s.len() == 0 {
        assert forall|j: int| !is_match_at(s, pat, j) by {}
    } else {
        lemma_find_first(s.drop_first(), pat);
        let t = s.drop_first();
        assert forall|j: int| 1 <= j && is_match_at(s, pat, j) implies is_match_at(
            t,
            pat,
            j - 1,
        ) by {
            assert(t.subrange(j - 1, j - 1 + pat.len() as int) =~= s.subrange(
                j,
                j + pat.len() as int,
            ));
        }
        assert forall|j: int| is_match_at(t, pat, j) implies is_match_at(s, pat, j + 1) by {
            assert(s.subrange(j + 1, j + 1 + pat.len() as int) =~= t.subrange(
                j,
                j + pat.len() as int,
            ));
        }
        assert(!is_match_at(s, pat, 0));
    }
}

/// If a match stands at `i` and no index below `i` matches, the first match is `i`.
pub proof fn lemma_find_complete<T>(s: Seq<T>, pat: Seq<T>, i: int)
    requires
        is_match_at(s, pat, i),
        forall|j: int| 0 <= j < i ==> !is_match_at(s, pat, j),
    ensures
        spec_find(s, pat) == Some(i),
{
    lemma_find_first(s, pat);
    match spec_find(s, pat) {
        Some(k) => {
            if k < i {
                assert(is_match_at(s, pat, k));
            } else if i < k {
                assert(!is_match_at(s, pat, i));
            }
        },
        None => {
            assert(!is_match_at(s, pat, i));
        },
    }
}

/// A single-character pattern matches at `j` exactly when the character
/// stands at `j`.
pub proof fn lemma_match_singleton<T>(s: Seq<T>, c: T, j: int)
    ensures
        is_match_at(s, seq![c], j) <==> (0 <= j < s.len() && s[j] == c),
{
    if 0 <= j < s.len() {
        if s[j] == c {
            assert(s.subrange(j, j + 1) =~= seq![c]);
        }
        if is_match_at(s, seq![c], j) {
            assert(s.subrange(j, j + 1)[0] == c);
        }
    }
}

/// A pattern matches at `j` exactly when each of its characters stands at
/// the corresponding offset from `j`.
pub proof fn lemma_match_chars<T>(s: Seq<T>, pat: Seq<T>, j: int)
    ensures
        is_match_at(s, pat, j) <==> (0 <= j && j + pat.len() <= s.len() && (forall|k: int|
            0 <= k < pat.len() ==> s[j + k] == pat[k])),
{
    if 0 <= j && j + pat.len() <= s.len() {
        if is_match_at(s, pat, j) {
            assert forall|k: int| 0 <= k < pat.len() implies s[j + k] == pat[k] by {
                assert(s.subrange(j, j + pat.len() as int)[k] == pat[k]);
            }
        }
        if forall|k: int| 0 <= k < pat.len() ==> s[j + k] == pat[k] {
            assert(s.subrange(j, j + pat.len() as int) =~= pat);
        }
    }
}

/// Whether `a` and `b` hold the same characters.
pub fn chars_eq(a: &[char], b: &[char]) -> (r: bool)
    ensures
        r == (a@ == b@),
{
    if a.len() != b.len() {
        assert(a@.len() != b@.len());
        return false;
    }
    let n = a.len();
    let mut i: usize = 0;
    while i < n
        invariant
            n == a@.len() == b@.len(),
            i <= n,
            forall|j: int| 0 <= j < i ==> a@[j] == b@[j],
        decreases n - i,
    {
        if a[i] != b[i] {
            return false;
        }
        i += 1;
    }
    assert(a@ =~= b@);
    true
}

/// True when `pat` occurs in `hay` at index `i` (executable check).
fn match_at(hay: &[char], pat: &[char], i: usize) -> (r: bool)
    requires
        i + pat@.len() <= hay@.len(),
    ensures
        r == is_match_at(hay@, pat@, i as int),
{
    let n = hay.len();
    let m = pat.len();
    let mut k: usize = 0;
    while k < m
        invariant
            n == hay@.len(),
            m == pat@.len(),
            i + m <= n,
            k <= m,
            forall|j: int| 0 <= j < k ==> hay@[i + j] == pat@[j],
        decreases m - k,
    {
        if hay[i + k] != pat[k] {
            assert(hay@.subrange(i as int, i + m as int)[k as int] != pat@[k as int]);
            return false;
        }
        k += 1;
    }
    assert(hay@.subrange(i as int, i + m as int) =~= pat@);
    true
}

/// True when `s` begins with `prefix`.
pub open spec fn spec_starts_with<T>(s: Seq<T>, prefix: Seq<T>) -> bool {
    s.len() >= prefix.len() && s.subrange(0, prefix.len() as int) == prefix
}

/// Whether the two strings hold the same characters.
pub fn str_eq(a: &str, b: &str) -> (r: bool)
    ensures
        r == (a@ == b@),
{
    let ac = str_to_chars(a);
    let bc = str_to_chars(b);
    chars_eq(ac.as_slice(), bc.as_slice())
}

/// Whether `s` begins with `prefix`.
pub fn starts_with_chars(s: &[char], prefix: &[char]) -> (r: bool)
    ensures
        r == (s@.len() >= prefix@.len() && s@.subrange(0, prefix@.len() as int) == prefix@),
{
    if prefix.len() > s.len() {
        return false;
    }
    match_at(s, prefix, 0)
}

/// Find the first occurrence of `pat` in `hay`.
pub fn find_sub(hay: &[char], pat: &[char]) -> (r: Option<usize>)
    ensures
        match r {
            Some(i) => spec_find(hay@, pat@) == Some(i as int),
            None => spec_find(hay@, pat@) is None,
        },
{
    let n = hay.len();
    let m = pat.len();
    if m > n {
        proof {
            lemma_find_first(hay@, pat@);
            if spec_find(hay@, pat@) is Some {
                assert(is_match_at(hay@, pat@, spec_find(hay@, pat@).unwrap()));
            }
        }
        return None;
    }
    if m == 0 {
        proof {
            assert(hay@.subrange(0, 0) =~= pat@);
            lemma_find_complete(hay@, pat@, 0);
        }
        return Some(0);
    }
    let mut i: usize = 0;
    while i <= n - m
        invariant
            n == hay@.len(),
            m == pat@.len(),
            1 <= m <= n,
            i <= n - m + 1,
            forall|j: int| 0 <= j < i ==> !is_match_at(hay@, pat@, j),
        decreases n - i,
    {
        if match_at(hay, pat, i) {
            proof {
                lemma_find_complete(hay@, pat@, i as int);
            }
            return Some(i);
        }
        i += 1;
    }
    proof {
        lemma_find_first(hay@, pat@);
        if spec_find(hay@, pat@) is Some {
            let k = spec_find(hay@, pat@).unwrap();
            assert(is_match_at(hay@, pat@, k));
        }
    }
    None
}

/// Find the first occurrence of the character `c` in `hay`.
pub fn find_char(hay: &[char], c: char) -> (r: Option<usize>)
    ensures
        match r {
            Some(i) => spec_find(hay@, seq![c]) == Some(i as int),
            None => spec_find(hay@, seq![c]) is None,
        },
{
    let n = hay.len();
    let mut i: usize = 0;
    while i < n
        invariant
            n == hay@.len(),
            forall|j: int| 0 <= j < i ==> !is_match_at(hay@, seq![c], j),
        decreases n - i,
    {
        if hay[i] == c {
            proof {
                assert(hay@.subrange(i as int, i + 1) =~= seq![c]);
                lemma_find_complete(hay@, seq![c], i as int);
            }
            return Some(i);
        }
        proof {
            if is_match_at(hay@, seq![c], i as int) {
                assert(hay@.subrange(i as int, i + 1)[0] == seq![c][0]);
                assert(hay@[i as int] == c);
            }
        }
        i += 1;
    }
    proof {
        lemma_find_first(hay@, seq![c]);
        if spec_find(hay@, seq![c]) is Some {
            let k = spec_find(hay@, seq![c]).unwrap();
            assert(is_match_at(hay@, seq![c], k));
        }
    }
    None
}

/// True when `pat` occurs in `hay` at index `i` (executable check on bytes).
fn match_at_bytes(hay: &[u8], pat: &[u8], i: usize) -> (r: bool)
    requires
        i + pat@.len() <= hay@.len(),
    ensures
        r == is_match_at(hay@, pat@, i as int),
{
    let n = hay.len();
    let m = pat.len();
    let mut k: usize = 0;
    while k < m
        invariant
            n == hay@.len(),
            m == pat@.len(),
            i + m <= n,
            k <= m,
            forall|j: int| 0 <= j < k ==> hay@[i + j] == pat@[j],
        decreases m - k,
    {
        if hay[i + k] != pat[k] {
            assert(hay@.subrange(i as int, i + m as int)[k as int] != pat@[k as int]);
            return false;
        }
        k += 1;
    }
    assert(hay@.subrange(i as int, i + m as int) =~= pat@);
    true
}

/// Find the first occurrence of `pat` in the byte stream `hay`.
pub fn find_sub_bytes(hay: &[u8], pat: &[u8]) -> (r: Option<usize>)
    ensures
        match r {
            Some(i) => spec_find(hay@, pat@) == Some(i as int),
            None => spec_find(hay@, pat@) is None,
        },
{
    let n = hay.len();
    let m = pat.len();
    if m > n {
        proof {
            lemma_find_first(hay@, pat@);
            if spec_find(hay@, pat@) is Some {
                assert(is_match_at(hay@, pat@, spec_find(hay@, pat@).unwrap()));
            }
        }
        return None;
    }
    if m == 0 {
        proof {
            assert(hay@.subrange(0, 0) =~= pat@);
            lemma_find_complete(hay@, pat@, 0);
        }
        return Some(0);
    }
    let mut i: usize = 0;
    while i <= n - m
        invariant
            n == hay@.len(),
            m == pat@.len(),
            1 <= m <= n,
            i <= n - m + 1,
            forall|j: int| 0 <= j < i ==> !is_match_at(hay@, pat@, j),
        decreases n - i,
    {
        if match_at_bytes(hay, pat, i) {
            proof {
                lemma_find_complete(hay@, pat@, i as int);
            }
            return Some(i);
        }
        i += 1;
    }
    proof {
        lemma_find_first(hay@, pat@);
        if spec_find(hay@, pat@) is Some {
            let k = spec_find(hay@, pat@).unwrap();
            assert(is_match_at(hay@, pat@, k));
        }
    }
    None
}

/// True when `c` is an ASCII decimal digit.
pub open spec fn spec_is_digit_char(c: char) -> bool {
    '0' <= c <= '9'
}

/// The value of a sequence of decimal digits, most significant first.
pub open spec fn digits_val(s: Seq<char>) -> nat
    decreases s.len(),
{
    if s.len() == 0 {
        0
    } else {
        digits_val(s.drop_last()) * 10 + (s.last() as int - '0' as int) as nat
    }
}

/// True when every character of `s` is a decimal digit.
pub open spec fn all_digits(s: Seq<char>) -> bool {
    forall|i: int| 0 <= i < s.len() ==> spec_is_digit_char(s[i])
}

/// Parse a non-empty run of decimal digits as a `u64`.
/// Returns `None` when `s` is empty, holds a non-digit, or overflows `u64`.
pub fn parse_u64_chars(s: &[char]) -> (r: Option<u64>)
    ensures
        match r {
            Some(v) => s@.len() > 0 && all_digits(s@) && digits_val(s@) == v,
            None => s@.len() == 0 || !all_digits(s@) || digits_val(s@) > u64::MAX,
        },
{
    let n = s.len();
    if n == 0 {
        return None;
    }
    let mut acc: u64 = 0;
    let mut i: usize = 0;
    while i < n
        invariant
            n == s@.len(),
            i <= n,
            all_digits(s@.subrange(0, i as int)),
            acc == digits_val(s@.subrange(0, i as int)),
        decreases n - i,
    {
        let c = s[i];
        if !('0' <= c && c <= '9') {
            assert(!spec_is_digit_char(s@[i as int]));
            return None;
        }
        let d: u64 = (c as u32 as u64) - ('0' as u32 as u64);
        let wide: u128 = (acc as u128) * 10 + (d as u128);
        if wide > u64::MAX as u128 {
            proof {
                let t = s@.subrange(0, i + 1);
                assert(t.drop_last() =~= s@.subrange(0, i as int));
                assert(digits_val(t) == wide);
                lemma_digits_val_prefix_le(s@, i + 1);
            }
            return None;
        }
        proof {
            let t = s@.subrange(0, i + 1);
            assert(t.drop_last() =~= s@.subrange(0, i as int));
            assert(t.last() == s@[i as int]);
        }
        acc = wide as u64;
        i += 1;
    }
    assert(s@.subrange(0, n as int) =~= s@);
    Some(acc)
}

/// The value of a digit string is at least the value of any of its prefixes.
proof fn lemma_digits_val_prefix_le(s: Seq<char>, i: int)
    requires
        0 <= i <= s.len(),
    ensures
        digits_val(s.subrange(0, i)) <= digits_val(s),
    decreases s.len() - i,
{
    if i == s.len() {
        assert(s.subrange(0, i) =~= s);
    } else {
        lemma_digits_val_prefix_le(s, i + 1);
        let t = s.subrange(0, i + 1);
        assert(t.drop_last() =~= s.subrange(0, i));
        assert(digits_val(s.subrange(0, i)) <= digits_val(t));
    }
}

/// Collect the characters of a string slice into a vector.
pub fn str_to_chars(s: &str) -> (v: Vec<char>)
    ensures
        v@ == s@,
{
    let n = s.unicode_len();
    let mut v: Vec<char> = Vec::new();
    let mut i: usize = 0;
    while i < n
        invariant
            n == s@.len(),
            i <= n,
            v@ =~= s@.subrange(0, i as int),
        decreases n - i,
    {
        v.push(s.get_char(i));
        assert(v@ =~= s@.subrange(0, i + 1));
        i += 1;
    }
    assert(v@ =~= s@);
    v
}

/// The lines of a text: split at each `\n`, one `\r` directly before a
/// `\n` stripped, and no empty line after a final `\n`.
pub open spec fn spec_lines(s: Seq<char>) -> Seq<Seq<char>>
    decreases s.len(),
{
    if s.len() == 0 {
        seq![]
    } else {
        match spec_find(s, seq!['\n']) {
            Some(i) => {
                if 0 <= i < s.len() {
                    let raw = s.subrange(0, i);
                    let line = if raw.len() > 0 && raw.last() == '\r' {
                        raw.drop_last()
                    } else {
                        raw
                    };
                    seq![line] + spec_lines(s.subrange(i + 1, s.len() as int))
                } else {
                    seq![s]
                }
            },
            None => seq![s],
        }
    }
}

/// Split a text into its lines.
pub fn lines_of(s: &[char]) -> (r: Vec<Vec<char>>)
    ensures
        r@.map_values(|l: Vec<char>| l@) == spec_lines(s@),
    decreases s@.len(),
{
    let mut out: Vec<Vec<char>> = Vec::new();
    if s.len() == 0 {
        proof {
            assert(out@.map_values(|l: Vec<char>| l@) =~= spec_lines(s@));
        }
        return out;
    }
    let mut pos: usize = 0;
    let n = s.len();
    proof {
        assert(out@.map_values(|l: Vec<char>| l@) =~= Seq::<Seq<char>>::empty());
        assert(s@.skip(0) =~= s@);
        assert(Seq::<Seq<char>>::empty() + spec_lines(s@) =~= spec_lines(s@));
    }
    while pos < n
        invariant
            n == s@.len(),
            pos <= n,
            spec_lines(s@) == out@.map_values(|l: Vec<char>| l@) + spec_lines(
                s@.skip(pos as int),
            ),
        decreases n - pos,
    {
        let ghost rem = s@.skip(pos as int);
        let rest = slice_subrange_chars(s, pos, n);
        match find_char(rest, '\n') {
            Some(i) => {
                proof {
                    lemma_find_first(rem, seq!['\n']);
                }
                let raw_end = if i > 0 && rest[i - 1] == '\r' {
                    i - 1
                } else {
                    i
                };
                let line_slice = slice_subrange_chars(rest, 0, raw_end);
                let mut line: Vec<char> = Vec::new();
                line.extend_from_slice(line_slice);
                proof {
                    let raw = rem.subrange(0, i as int);
                    if raw.len() > 0 && raw.last() == '\r' {
                        assert(line@ =~= raw.drop_last());
                    } else {
                        assert(line@ =~= raw);
                    }
                    assert(rem.subrange(i + 1, rem.len() as int) =~= s@.skip(pos + i + 1));
                    assert((out@.map_values(|l: Vec<char>| l@).push(line@)) =~= out@.push(
                        line,
                    ).map_values(|l: Vec<char>| l@));
                    assert(out@.map_values(|l: Vec<char>| l@) + (seq![line@] + spec_lines(
                        s@.skip(pos + i + 1),
                    )) =~= out@.push(line).map_values(|l: Vec<char>| l@) + spec_lines(
                        s@.skip(pos + i + 1),
                    ));
                }
                out.push(line);
                pos = pos + i + 1;
            },
            None => {
                proof {
                    lemma_find_first(rem, seq!['\n']);
                }
                let mut line: Vec<char> = Vec::new();
                line.extend_from_slice(rest);
                proof {
                    assert(line@ =~= rem);
                    assert(out@.map_values(|l: Vec<char>| l@) + seq![line@] =~= out@.push(
                        line,
                    ).map_values(|l: Vec<char>| l@));
                    assert(s@.skip(n as int) =~= Seq::<char>::empty());
                    assert(out@.push(line).map_values(|l: Vec<char>| l@) + spec_lines(
                        s@.skip(n as int),
                    ) =~= out@.push(line).map_values(|l: Vec<char>| l@));
                }
                out.push(line);
                pos = n;
            },
        }
    }
    proof {
        assert(s@.skip(n as int) =~= Seq::<char>::empty());
        assert(out@.map_values(|l: Vec<char>| l@) + spec_lines(Seq::<char>::empty()) =~= out@
            .map_values(|l: Vec<char>| l@));
    }
    out
}

/// Take a sub-slice of a character slice.
fn slice_subrange_chars<'a>(s: &'a [char], i: usize, j: usize) -> (r: &'a [char])
    requires
        0 <= i <= j <= s@.len(),
    ensures
        r@ == s@.subrange(i as int, j as int),
{
    vstd::slice::slice_subrange(s, i, j)
}

/// Decode a byte vector into an owned string.
///
/// Relies on `String::from_utf8`: it succeeds exactly on well-formed UTF-8
/// and decodes the bytes into their characters.
#[verifier::external_body]
pub fn utf8_to_string(b: &Vec<u8>) -> (r: Option<String>)
    ensures
        match r {
            Some(s) => vstd::utf8::valid_utf8(b@) && s@ == vstd::utf8::decode_utf8(b@),
            None => !vstd::utf8::valid_utf8(b@),
        },
{
    String::from_utf8(b.clone()).ok()
}

/// Build an owned `String` from a sequence of characters.
///
/// Relies on `String`'s `FromIterator` impl: collecting characters yields the
/// string of exactly those characters in order.
#[verifier::external_body]
pub fn chars_to_string(v: &[char]) -> (s: String)
    ensures
        s@ == v@,
{
    v.iter().collect()
}

} // verus!
