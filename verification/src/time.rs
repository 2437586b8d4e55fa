//! Calendar values read from the dump: the timestamp of a page revision and
//! the date encoded in a dump's file name. Both are held as plain fields and
//! parsed by the library itself, so that the logic that carries them is
//! verified; nothing here asks the clock for anything.
use vstd::prelude::*;

use crate::text::{all_digits, digits_val, parse_u64_chars, spec_is_digit_char, str_to_chars};

verus! {

/// A calendar date.
#[derive(Clone, Copy, Debug, PartialEq, Eq, Structural)]
pub struct Date {
    pub year: u16,
    pub month: u8,
    pub day: u8,
}

/// A page revision's timestamp, to second precision, in UTC.
#[derive(Clone, Copy, Debug, PartialEq, Eq, Structural)]
pub struct Timestamp {
    pub date: Date,
    pub hour: u8,
    pub minute: u8,
    pub second: u8,
}

/// The ranges a date's fields must lie in.
pub open spec fn spec_date_wf(d: Date) -> bool {
    &&& 1 <= d.month <= 12
    &&& 1 <= d.day <= 31
}

/// The ranges a timestamp's fields must lie in.
pub open spec fn spec_timestamp_wf(t: Timestamp) -> bool {
    &&& spec_date_wf(t.date)
    &&& t.hour <= 23
    &&& t.minute <= 59
    &&& t.second <= 59
}

/// A run of digits is bounded by the power of ten of its length, up to the
/// four digits the calendar fields use.
proof fn lemma_digits_val_bound(s: Seq<char>)
    requires
        all_digits(s),
    ensures
        s.len() <= 1 ==> digits_val(s) < 10,
        s.len() <= 2 ==> digits_val(s) < 100,
        s.len() <= 3 ==> digits_val(s) < 1000,
        s.len() <= 4 ==> digits_val(s) < 10000,
    decreases s.len(),
{
    if s.len() > 0 {
        assert(all_digits(s.drop_last())) by {
            assert forall|i: int| 0 <= i < s.len() - 1 implies spec_is_digit_char(
                s.drop_last()[i],
            ) by {
                assert(s.drop_last()[i] == s[i]);
            }
        }
        lemma_digits_val_bound(s.drop_last());
        assert(spec_is_digit_char(s.last()));
    }
}

/// What a revision timestamp's text must look like, and the timestamp it
/// then denotes: exactly `YYYY-MM-DDThh:mm:ssZ`, with every calendar field
/// in range.
pub open spec fn spec_parse_timestamp(s: Seq<char>) -> Option<Timestamp> {
    if s.len() == 20 && s[4] == '-' && s[7] == '-' && s[10] == 'T' && s[13] == ':' && s[16] == ':'
        && s[19] == 'Z' && all_digits(s.subrange(0, 4)) && all_digits(s.subrange(5, 7))
        && all_digits(s.subrange(8, 10)) && all_digits(s.subrange(11, 13)) && all_digits(
        s.subrange(14, 16),
    ) && all_digits(s.subrange(17, 19)) {
        let t = Timestamp {
            date: Date {
                year: digits_val(s.subrange(0, 4)) as u16,
                month: digits_val(s.subrange(5, 7)) as u8,
                day: digits_val(s.subrange(8, 10)) as u8,
            },
            hour: digits_val(s.subrange(11, 13)) as u8,
            minute: digits_val(s.subrange(14, 16)) as u8,
            second: digits_val(s.subrange(17, 19)) as u8,
        };
        if spec_timestamp_wf(t) {
            Some(t)
        } else {
            None
        }
    } else {
        None
    }
}

/// Parse a two-digit field out of `s`.
fn parse_field_2(s: &[char], at: usize) -> (r: Option<u8>)
    requires
        at + 2 <= s@.len(),
    ensures
        match r {
            Some(v) => all_digits(s@.subrange(at as int, at + 2)) && v == digits_val(
                s@.subrange(at as int, at + 2),
            ),
            None => !all_digits(s@.subrange(at as int, at + 2)),
        },
{
    let n = s.len();
    assert(at + 2 <= n);
    let part = vstd::slice::slice_subrange(s, at, at + 2);
    match parse_u64_chars(part) {
        Some(v) => {
            proof {
                lemma_digits_val_bound(part@);
            }
            Some(v as u8)
        },
        None => {
            proof {
                if all_digits(part@) {
                    lemma_digits_val_bound(part@);
                }
            }
            None
        },
    }
}

/// Parse a revision timestamp.
///
/// Accepts exactly the dump's timestamp shape, `YYYY-MM-DDThh:mm:ssZ` with
/// each field in range, and returns `None` for anything else.
pub fn parse_timestamp(s: &str) -> (r: Option<Timestamp>)
    ensures
        r == spec_parse_timestamp(s@),
{
    let sc = str_to_chars(s);
    if sc.len() != 20 {
        return None;
    }
    if !(sc[4] == '-' && sc[7] == '-' && sc[10] == 'T' && sc[13] == ':' && sc[16] == ':' && sc[19]
        == 'Z') {
        return None;
    }
    let year_part = vstd::slice::slice_subrange(sc.as_slice(), 0, 4);
    let year = match parse_u64_chars(year_part) {
        Some(v) => {
            proof {
                lemma_digits_val_bound(year_part@);
            }
            v as u16
        },
        None => {
            proof {
                if all_digits(year_part@) {
                    lemma_digits_val_bound(year_part@);
                }
            }
            return None;
        },
    };
    let month = match parse_field_2(sc.as_slice(), 5) {
        Some(v) => v,
        None => {
            return None;
        },
    };
    let day = match parse_field_2(sc.as_slice(), 8) {
        Some(v) => v,
        None => {
            return None;
        },
    };
    let hour = match parse_field_2(sc.as_slice(), 11) {
        Some(v) => v,
        None => {
            return None;
        },
    };
    let minute = match parse_field_2(sc.as_slice(), 14) {
        Some(v) => v,
        None => {
            return None;
        },
    };
    let second = match parse_field_2(sc.as_slice(), 17) {
        Some(v) => v,
        None => {
            return None;
        },
    };
    let t = Timestamp {
        date: Date { year, month, day },
        hour,
        minute,
        second,
    };
    if 1 <= t.date.month && t.date.month <= 12 && 1 <= t.date.day && t.date.day <= 31 && t.hour
        <= 23 && t.minute <= 59 && t.second <= 59 {
        Some(t)
    } else {
        None
    }
}

/// What a dump file name must look like for a date to be read out of it:
/// `enwiki-` followed by a segment of exactly eight digits, the segment
/// ending at the next `-` or at the end of the name, the digits giving
/// year, month and day, each in range.
pub open spec fn spec_parse_wiki_dump_date(s: Seq<char>) -> Option<Date> {
    let marker = "enwiki-"@;
    let ml = marker.len() as int;
    if s.len() >= ml + 8 && s.subrange(0, ml) == marker && (s.len() == ml + 8 || s[ml + 8] == '-')
        && all_digits(s.subrange(ml, ml + 8)) {
        let d = Date {
            year: digits_val(s.subrange(ml, ml + 4)) as u16,
            month: digits_val(s.subrange(ml + 4, ml + 6)) as u8,
            day: digits_val(s.subrange(ml + 6, ml + 8)) as u8,
        };
        if spec_date_wf(d) {
            Some(d)
        } else {
            None
        }
    } else {
        None
    }
}

/// Parse a dump file name such as `enwiki-20250123-pages-articles` into the
/// date of the dump. Returns `None` when the name does not match the
/// expected shape.
pub fn parse_wiki_dump_date(filename: &str) -> (r: Option<Date>)
    ensures
        r == spec_parse_wiki_dump_date(filename@),
{
    let sc = str_to_chars(filename);
    let marker = str_to_chars("enwiki-");
    proof {
        reveal_strlit("enwiki-");
        assert(marker@.len() == 7);
    }
    let n = sc.len();
    if n < 7 + 8 {
        return None;
    }
    if !crate::text::starts_with_chars(sc.as_slice(), marker.as_slice()) {
        return None;
    }
    if n > 15 && sc[15] != '-' {
        return None;
    }
    let year_part = vstd::slice::slice_subrange(sc.as_slice(), 7, 11);
    let year = match parse_u64_chars(year_part) {
        Some(v) => {
            proof {
                lemma_digits_val_bound(year_part@);
            }
            v as u16
        },
        None => {
            proof {
                if all_digits(year_part@) {
                    lemma_digits_val_bound(year_part@);
                }
                assert(!all_digits(filename@.subrange(7, 15))) by {
                    if all_digits(filename@.subrange(7, 15)) {
                        assert forall|i: int| 0 <= i < 4 implies spec_is_digit_char(
                            year_part@[i],
                        ) by {
                            assert(year_part@[i] == filename@.subrange(7, 15)[i]);
                        }
                    }
                }
            }
            return None;
        },
    };
    let month = match parse_field_2(sc.as_slice(), 11) {
        Some(v) => v,
        None => {
            proof {
                assert(!all_digits(filename@.subrange(7, 15))) by {
                    if all_digits(filename@.subrange(7, 15)) {
                        assert forall|i: int| 0 <= i < 2 implies spec_is_digit_char(
                            filename@.subrange(11, 13)[i],
                        ) by {
                            assert(filename@.subrange(11, 13)[i] == filename@.subrange(7, 15)[i
                                + 4]);
                        }
                    }
                }
            }
            return None;
        },
    };
    let day = match parse_field_2(sc.as_slice(), 13) {
        Some(v) => v,
        None => {
            proof {
                assert(!all_digits(filename@.subrange(7, 15))) by {
                    if all_digits(filename@.subrange(7, 15)) {
                        assert forall|i: int| 0 <= i < 2 implies spec_is_digit_char(
                            filename@.subrange(13, 15)[i],
                        ) by {
                            assert(filename@.subrange(13, 15)[i] == filename@.subrange(7, 15)[i
                                + 6]);
                        }
                    }
                }
            }
            return None;
        },
    };
    proof {
        assert(all_digits(filename@.subrange(7, 15))) by {
            assert forall|i: int| 0 <= i < 8 implies spec_is_digit_char(
                filename@.subrange(7, 15)[i],
            ) by {
                if i < 4 {
                    assert(filename@.subrange(7, 15)[i] == filename@.subrange(7, 11)[i]);
                } else if i < 6 {
                    assert(filename@.subrange(7, 15)[i] == filename@.subrange(11, 13)[i - 4]);
                } else {
                    assert(filename@.subrange(7, 15)[i] == filename@.subrange(13, 15)[i - 6]);
                }
            }
        }
        assert(filename@.subrange(7, 11) =~= filename@.subrange(7, 15).subrange(0, 4));
        assert(filename@.subrange(11, 13) =~= filename@.subrange(7, 15).subrange(4, 6));
        assert(filename@.subrange(13, 15) =~= filename@.subrange(7, 15).subrange(6, 8));
    }
    let d = Date { year, month, day };
    if 1 <= d.month && d.month <= 12 && 1 <= d.day && d.day <= 31 {
        Some(d)
    } else {
        None
    }
}

} // verus!
