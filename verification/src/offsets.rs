//! The offset index: the byte positions at which the dump's independently
//! compressed blocks begin. The index arrives either as a compressed,
//! line-oriented `offset:rest` file, or as a previously saved plain list of
//! one offset per line; either way the result is a strictly ascending
//! sequence of offsets, and any unparsable line is fatal, because
//! extraction cannot proceed without a complete index.
use vstd::prelude::*;
use vstd::utf8::{decode_utf8, valid_utf8};

use crate::compress::{bunzip, bunzip_of};
use crate::text::{all_digits, digits_val, find_char, lemma_find_first, parse_u64_chars,
    spec_find, spec_lines, lines_of, str_to_chars, utf8_to_string};

verus! {

/// Why an offset index could not be read.
#[derive(Clone, Copy, Debug, PartialEq, Eq, Structural)]
pub enum OffsetError {
    /// The compressed index did not decompress.
    BadCompression,
    /// The decompressed index is not text.
    BadEncoding,
    /// A line holds no `:` separator.
    MissingSeparator,
    /// An offset failed to parse as an integer.
    UnparsableOffset,
}

/// True when a line is a well-formed decimal offset.
pub open spec fn spec_offset_line_ok(l: Seq<char>) -> bool {
    l.len() > 0 && all_digits(l) && digits_val(l) <= u64::MAX
}

/// Strictly ascending.
pub open spec fn spec_ascending(v: Seq<u64>) -> bool {
    forall|i: int, j: int| 0 <= i < j < v.len() ==> v[i] < v[j]
}

/// Parse a previously saved offsets file: one offset per line, in the order
/// the lines stand. Any unparsable line is fatal.
pub fn parse_offsets_file(text: &str) -> (r: Result<Vec<u64>, OffsetError>)
    ensures
        match r {
            Ok(v) => {
                &&& v@.len() == spec_lines(text@).len()
                &&& forall|i: int|
                    0 <= i < v@.len() ==> spec_offset_line_ok(#[trigger] spec_lines(text@)[i])
                        && v@[i] == digits_val(spec_lines(text@)[i])
            },
            Err(e) => e == OffsetError::UnparsableOffset && exists|i: int|
                0 <= i < spec_lines(text@).len() && !spec_offset_line_ok(
                    #[trigger] spec_lines(text@)[i],
                ),
        },
{
    let chars = str_to_chars(text);
    let lines = lines_of(chars.as_slice());
    let n = lines.len();
    let mut out: Vec<u64> = Vec::new();
    let mut i: usize = 0;
    while i < n
        invariant
            n == lines@.len(),
            lines@.map_values(|l: Vec<char>| l@) == spec_lines(text@),
            i <= n,
            out@.len() == i,
            forall|j: int|
                0 <= j < i ==> spec_offset_line_ok(#[trigger] spec_lines(text@)[j]) && out@[j]
                    == digits_val(spec_lines(text@)[j]),
        decreases n - i,
    {
        proof {
            assert(spec_lines(text@)[i as int] == lines@[i as int]@);
        }
        match parse_u64_chars(lines[i].as_slice()) {
            Some(v) => {
                out.push(v);
            },
            None => {
                return Err(OffsetError::UnparsableOffset);
            },
        }
        i += 1;
    }
    Ok(out)
}

/// The offset a line of the compressed index denotes: the digits before its
/// first `:`.
pub open spec fn spec_index_line_offset(l: Seq<char>) -> Option<u64> {
    match spec_find(l, seq![':']) {
        Some(c) => {
            let digits = l.subrange(0, c);
            if spec_offset_line_ok(digits) {
                Some(digits_val(digits) as u64)
            } else {
                None
            }
        },
        None => None,
    }
}

/// Insert an offset into an ascending list, keeping it ascending; an
/// offset already present is left alone.
fn insert_ascending(v: &mut Vec<u64>, x: u64)
    requires
        spec_ascending(old(v)@),
    ensures
        spec_ascending(final(v)@),
        forall|y: u64| #[trigger] final(v)@.contains(y) <==> (old(v)@.contains(y) || y == x),
{
    let n = v.len();
    let mut i: usize = 0;
    while i < n && v[i] < x
        invariant
            n == v@.len(),
            spec_ascending(v@),
            i <= n,
            forall|j: int| 0 <= j < i ==> v@[j] < x,
        decreases n - i,
    {
        i += 1;
    }
    if i < n && v[i] == x {
        proof {
            assert(v@.contains(x)) by {
                assert(v@[i as int] == x);
            }
        }
        return;
    }
    let ghost v0 = v@;
    v.insert(i, x);
    proof {
        assert(v@ =~= v0.subrange(0, i as int) + seq![x] + v0.subrange(i as int, v0.len() as int));
        assert forall|a: int, b: int| 0 <= a < b < v@.len() implies v@[a] < v@[b] by {
            if b < i {
                assert(v@[a] == v0[a] && v@[b] == v0[b]);
            } else if a > i {
                assert(v@[a] == v0[a - 1] && v@[b] == v0[b - 1]);
            } else if a < i && b == i {
                assert(v@[a] == v0[a]);
            } else if a == i && b > i {
                assert(v@[b] == v0[b - 1]);
                if i < v0.len() {
                    if b - 1 == i {
                        assert(v0[b - 1] >= x);
                        assert(v0[i as int] != x);
                    } else {
                        assert(v0[i as int] < v0[b - 1]);
                        assert(v0[i as int] >= x);
                        assert(v0[i as int] != x);
                    }
                }
            } else if a < i && b > i {
                assert(v@[a] == v0[a] && v@[b] == v0[b - 1]);
                if b - 1 == a {
                } else {
                    assert(v0[a] < v0[b - 1]);
                }
            }
        }
        assert forall|y: u64| #[trigger] v@.contains(y) implies (v0.contains(y) || y == x) by {
            let k = choose|k: int| 0 <= k < v@.len() && v@[k] == y;
            if k < i {
                assert(v0[k] == y);
            } else if k > i {
                assert(v0[k - 1] == y);
            }
        }
        assert forall|y: u64| (v0.contains(y) || y == x) implies #[trigger] v@.contains(y) by {
            if v0.contains(y) {
                let k = choose|k: int| 0 <= k < v0.len() && v0[k] == y;
                if k < i {
                    assert(v@[k] == y);
                } else {
                    assert(v@[k + 1] == y);
                }
            } else {
                assert(v@[i as int] == y);
            }
        }
    }
}

/// Parse the compressed index's text: each line holds `offset:rest`, and
/// the sorted, deduplicated set of the offsets comes back, ascending. A
/// line without a separator, or whose offset does not parse, is fatal.
pub fn parse_index_offsets(text: &str) -> (r: Result<Vec<u64>, OffsetError>)
    ensures
        match r {
            Ok(v) => {
                &&& spec_ascending(v@)
                &&& forall|i: int|
                    0 <= i < spec_lines(text@).len() ==> spec_index_line_offset(
                        #[trigger] spec_lines(text@)[i],
                    ) is Some
                &&& forall|y: u64| #[trigger]
                    v@.contains(y) <==> exists|i: int|
                        0 <= i < spec_lines(text@).len() && spec_index_line_offset(
                            #[trigger] spec_lines(text@)[i],
                        ) == Some(y)
            },
            Err(e) => (e == OffsetError::MissingSeparator || e == OffsetError::UnparsableOffset)
                && exists|i: int|
                0 <= i < spec_lines(text@).len() && spec_index_line_offset(
                    #[trigger] spec_lines(text@)[i],
                ) is None,
        },
{
    let chars = str_to_chars(text);
    let lines = lines_of(chars.as_slice());
    let n = lines.len();
    let mut out: Vec<u64> = Vec::new();
    let mut i: usize = 0;
    while i < n
        invariant
            n == lines@.len(),
            lines@.map_values(|l: Vec<char>| l@) == spec_lines(text@),
            i <= n,
            spec_ascending(out@),
            forall|j: int|
                0 <= j < i ==> spec_index_line_offset(#[trigger] spec_lines(text@)[j]) is Some,
            forall|y: u64| #[trigger]
                out@.contains(y) <==> exists|j: int|
                    0 <= j < i && spec_index_line_offset(#[trigger] spec_lines(text@)[j]) == Some(
                        y,
                    ),
        decreases n - i,
    {
        proof {
            assert(spec_lines(text@)[i as int] == lines@[i as int]@);
        }
        let line = &lines[i];
        let c = match find_char(line.as_slice(), ':') {
            Some(c) => {
                proof {
                    lemma_find_first(line@, seq![':']);
                }
                c
            },
            None => {
                return Err(OffsetError::MissingSeparator);
            },
        };
        let digits = vstd::slice::slice_subrange(line.as_slice(), 0, c);
        let v = match parse_u64_chars(digits) {
            Some(v) => v,
            None => {
                return Err(OffsetError::UnparsableOffset);
            },
        };
        insert_ascending(&mut out, v);
        i += 1;
    }
    Ok(out)
}

/// Load the offset index from the compressed index file's bytes: decompress
/// it, read it as text, and parse the sorted, deduplicated offsets out of
/// its `offset:rest` lines.
pub fn load_offsets_from_index(compressed: &[u8]) -> (r: Result<Vec<u64>, OffsetError>)
    ensures
        match r {
            Ok(v) => {
                &&& bunzip_of(compressed@) is Some
                &&& valid_utf8(bunzip_of(compressed@).unwrap())
                &&& spec_ascending(v@)
                &&& forall|y: u64| #[trigger]
                    v@.contains(y) <==> exists|i: int|
                        0 <= i < spec_lines(
                            decode_utf8(bunzip_of(compressed@).unwrap()),
                        ).len() && spec_index_line_offset(
                            #[trigger] spec_lines(
                                decode_utf8(bunzip_of(compressed@).unwrap()),
                            )[i],
                        ) == Some(y)
            },
            Err(e) => match e {
                OffsetError::BadCompression => bunzip_of(compressed@) is None,
                OffsetError::BadEncoding => bunzip_of(compressed@) is Some && !valid_utf8(
                    bunzip_of(compressed@).unwrap(),
                ),
                _ => bunzip_of(compressed@) is Some && valid_utf8(
                    bunzip_of(compressed@).unwrap(),
                ) && (exists|i: int|
                    0 <= i < spec_lines(decode_utf8(bunzip_of(compressed@).unwrap())).len()
                        && spec_index_line_offset(
                        #[trigger] spec_lines(decode_utf8(bunzip_of(compressed@).unwrap()))[i],
                    ) is None),
            },
        },
{
    let data = match bunzip(compressed) {
        Some(d) => d,
        None => {
            return Err(OffsetError::BadCompression);
        },
    };
    let text = match utf8_to_string(&data) {
        Some(t) => t,
        None => {
            return Err(OffsetError::BadEncoding);
        },
    };
    match parse_index_offsets(text.as_str()) {
        Ok(v) => Ok(v),
        Err(e) => Err(e),
    }
}

} // verus!
