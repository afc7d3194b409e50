//! The line grammar of the external build system's report.
//!
//! The report is semi-structured text, scanned line by line. Three line
//! shapes matter: the `BUILD: <nvr> [<digits>]` line naming the canonical
//! identifier and the numeric build id, the literal `RPMs:` header opening
//! the artifact section, and the artifact lines whose first
//! whitespace-delimited token is a slash-delimited relative path ending in
//! `<arch>/<filename>`. Everything else is ignored, to stay forward
//! compatible with unrecognized report fields.

use vstd::prelude::*;

use crate::errors::ScrapeError;
use crate::text::{
    digit_value, is_ascii_digit_char, lemma_scan_from, lemma_scan_from_unique, scan, scan_from,
    CharClass,
};

verus! {

// ------------------------------------------------------------------
// Lines
// ------------------------------------------------------------------

/// One trailing carriage return dropped, for a line ended by `\n`.
pub open spec fn strip_cr(l: Seq<char>) -> Seq<char> {
    if l.len() > 0 && l[l.len() - 1] == '\r' {
        l.drop_last()
    } else {
        l
    }
}

/// The lines of `s` from position `i` on: split at each `\n`, a `\r`
/// standing right before the `\n` dropped, the final line ending optional —
/// the reading `str::lines` gives text.
pub open spec fn lines_from(s: Seq<char>, i: int) -> Seq<Seq<char>>
    decreases s.len() - i,
        via lines_from_decreases
{
    if i < 0 || i >= s.len() {
        seq![]
    } else {
        let j = scan_from(CharClass::Newline, s, i);
        if j < s.len() {
            seq![strip_cr(s.subrange(i, j))] + lines_from(s, j + 1)
        } else {
            seq![s.subrange(i, s.len() as int)]
        }
    }
}

#[via_fn]
proof fn lines_from_decreases(s: Seq<char>, i: int) {
    if 0 <= i < s.len() {
        lemma_scan_from(CharClass::Newline, s, i);
    }
}

/// Splits a report into its lines, exactly as `lines_from` reads it.
pub fn split_lines<'a>(s: &'a str) -> (r: Vec<&'a str>)
    ensures
        r.deep_view() == lines_from(s@, 0),
{
    let n = s.unicode_len();
    let mut out: Vec<&'a str> = Vec::new();
    let mut i: usize = 0;
    while i < n
        invariant
            i <= n,
            n == s@.len(),
            out.deep_view() + lines_from(s@, i as int) == lines_from(s@, 0),
        decreases n - i,
    {
        let j = scan(CharClass::Newline, s, i);
        proof {
            lemma_scan_from(CharClass::Newline, s@, i as int);
        }
        let ghost prev = out.deep_view();
        if j < n {
            let line = if j > i && s.get_char(j - 1) == '\r' {
                s.substring_char(i, j - 1)
            } else {
                s.substring_char(i, j)
            };
            proof {
                assert(line@ =~= strip_cr(s@.subrange(i as int, j as int)));
            }
            out.push(line);
            proof {
                assert(out.deep_view() =~= prev.push(line@));
                assert(prev.push(line@) + lines_from(s@, j + 1) =~= prev + lines_from(
                    s@,
                    i as int,
                ));
            }
            i = j + 1;
        } else {
            let line = s.substring_char(i, n);
            out.push(line);
            proof {
                assert(out.deep_view() =~= prev.push(line@));
                assert(prev.push(line@) + lines_from(s@, n as int) =~= prev + lines_from(
                    s@,
                    i as int,
                ));
            }
            i = n;
        }
    }
    proof {
        assert(out.deep_view() + lines_from(s@, n as int) =~= out.deep_view());
    }
    out
}

// ------------------------------------------------------------------
// Decimal digits
// ------------------------------------------------------------------

/// The value of a run of ASCII decimal digits.
pub open spec fn digits_val(ds: Seq<char>) -> int
    decreases ds.len(),
{
    if ds.len() == 0 {
        0
    } else {
        10 * digits_val(ds.drop_last()) + digit_value(ds.last())
    }
}

/// The value of a digit run is never negative.
pub proof fn lemma_digits_val_nonneg(ds: Seq<char>)
    requires
        forall|m: int| 0 <= m < ds.len() ==> is_ascii_digit_char(ds[m]),
    ensures
        digits_val(ds) >= 0,
    decreases ds.len(),
{
    if ds.len() > 0 {
        lemma_digits_val_nonneg(ds.drop_last());
    }
}

/// Extending a digit run never shrinks its value.
pub proof fn lemma_digits_val_grows(ds: Seq<char>, k: int)
    requires
        0 <= k <= ds.len(),
        forall|m: int| 0 <= m < ds.len() ==> is_ascii_digit_char(ds[m]),
    ensures
        digits_val(ds) >= digits_val(ds.take(k)),
    decreases ds.len() - k,
{
    if k == ds.len() {
        assert(ds.take(k) =~= ds);
    } else {
        lemma_digits_val_grows(ds, k + 1);
        assert(ds.take(k + 1).drop_last() =~= ds.take(k));
        assert(forall|m: int| 0 <= m < ds.take(k).len() ==> is_ascii_digit_char(
            ds.take(k)[m],
        ));
        lemma_digits_val_nonneg(ds.take(k));
    }
}

/// Reads the digit run `s[from..to]` as an unsigned 64-bit integer, or
/// reports that its value does not fit one.
fn digits_to_u64(s: &str, from: usize, to: usize) -> (r: Option<u64>)
    requires
        from <= to <= s@.len(),
        forall|k: int| from <= k < to ==> is_ascii_digit_char(s@[k]),
    ensures
        (match r {
            Some(v) => v as int == digits_val(s@.subrange(from as int, to as int)),
            None => digits_val(s@.subrange(from as int, to as int)) > u64::MAX as int,
        }),
{
    let ghost ds = s@.subrange(from as int, to as int);
    let mut acc: u64 = 0;
    let mut k = from;
    while k < to
        invariant
            from <= k <= to <= s@.len(),
            ds == s@.subrange(from as int, to as int),
            forall|m: int| from <= m < to ==> is_ascii_digit_char(s@[m]),
            acc as int == digits_val(ds.take(k - from)),
        decreases to - k,
    {
        let c = s.get_char(k);
        let d: u64 = (c as u32 - 0x30) as u64;
        proof {
            assert(ds.take(k - from + 1).drop_last() =~= ds.take(k - from));
            assert(ds.take(k - from + 1).last() == s@[k as int]);
        }
        if acc > 1844674407370955161u64 || (acc == 1844674407370955161u64 && d > 5) {
            proof {
                assert(digits_val(ds.take(k - from + 1)) > u64::MAX as int);
                lemma_digits_val_grows(ds, k - from + 1);
            }
            return None;
        }
        acc = acc * 10 + d;
        k = k + 1;
    }
    proof {
        assert(ds.take(to - from) =~= ds);
    }
    Some(acc)
}

// ------------------------------------------------------------------
// The BUILD line
// ------------------------------------------------------------------

/// The literal marker opening a build line.
pub open spec fn build_marker() -> Seq<char> {
    seq!['B', 'U', 'I', 'L', 'D', ':']
}

/// The build line grammar: the marker, one or more spaces, a non-empty run
/// of non-space characters (the canonical nvr), one or more spaces, `[`, a
/// non-empty run of ASCII digits, `]`, then anything. Returns the nvr token
/// and the digit run, or nothing for a line of any other shape.
pub open spec fn build_line_parts(line: Seq<char>) -> Option<(Seq<char>, Seq<char>)> {
    if line.len() <= 6 || line.take(6) != build_marker() || line[6] != ' ' {
        None
    } else {
        let ts = scan_from(CharClass::NonSpace, line, 6);
        if ts >= line.len() {
            None
        } else {
            let te = scan_from(CharClass::Space, line, ts);
            if te >= line.len() {
                None
            } else {
                let br = scan_from(CharClass::NonSpace, line, te);
                if br >= line.len() || line[br] != '[' {
                    None
                } else {
                    let de = scan_from(CharClass::NonDigit, line, br + 1);
                    if de == br + 1 || de >= line.len() || line[de] != ']' {
                        None
                    } else {
                        Some((line.subrange(ts, te), line.subrange(br + 1, de)))
                    }
                }
            }
        }
    }
}

/// Matches one line against the build line grammar: no match is not an
/// error, a match whose digits overflow an unsigned 64-bit integer is.
pub fn parse_build_line<'a>(line: &'a str) -> (r: Result<Option<(&'a str, u64)>, ScrapeError>)
    ensures
        (match build_line_parts(line@) {
            Option::None => r == Ok::<Option<(&'a str, u64)>, ScrapeError>(
                Option::<(&'a str, u64)>::None,
            ),
            Option::Some(p) => {
                if digits_val(p.1) > u64::MAX as int {
                    r == Err::<Option<(&'a str, u64)>, ScrapeError>(ScrapeError::BuildIdOverflow)
                } else {
                    &&& r matches Ok(Some(q))
                    &&& q.0@ == p.0
                    &&& q.1 as int == digits_val(p.1)
                }
            },
        }),
{
    let n = line.unicode_len();
    if n <= 6 {
        return Ok(None);
    }
    if line.get_char(0) != 'B' || line.get_char(1) != 'U' || line.get_char(2) != 'I'
        || line.get_char(3) != 'L' || line.get_char(4) != 'D' || line.get_char(5) != ':'
        || line.get_char(6) != ' ' {
        proof {
            if line@.take(6) == build_marker() {
                assert(line@[0] == line@.take(6)[0]);
                assert(line@[1] == line@.take(6)[1]);
                assert(line@[2] == line@.take(6)[2]);
                assert(line@[3] == line@.take(6)[3]);
                assert(line@[4] == line@.take(6)[4]);
                assert(line@[5] == line@.take(6)[5]);
            }
        }
        return Ok(None);
    }
    proof {
        assert(line@.take(6) =~= build_marker());
    }
    let ts = scan(CharClass::NonSpace, line, 6);
    proof {
        lemma_scan_from(CharClass::NonSpace, line@, 6);
    }
    if ts >= n {
        return Ok(None);
    }
    let te = scan(CharClass::Space, line, ts);
    proof {
        lemma_scan_from(CharClass::Space, line@, ts as int);
    }
    if te >= n {
        return Ok(None);
    }
    let br = scan(CharClass::NonSpace, line, te);
    proof {
        lemma_scan_from(CharClass::NonSpace, line@, te as int);
    }
    if br >= n || line.get_char(br) != '[' {
        return Ok(None);
    }
    let de = scan(CharClass::NonDigit, line, br + 1);
    proof {
        lemma_scan_from(CharClass::NonDigit, line@, br as int + 1);
    }
    if de == br + 1 || de >= n || line.get_char(de) != ']' {
        return Ok(None);
    }
    let tok = line.substring_char(ts, te);
    match digits_to_u64(line, br + 1, de) {
        None => Err(ScrapeError::BuildIdOverflow),
        Some(v) => Ok(Some((tok, v))),
    }
}

// ------------------------------------------------------------------
// The artifact section
// ------------------------------------------------------------------

/// The literal marker opening the artifact section.
pub open spec fn rpms_marker() -> Seq<char> {
    seq!['R', 'P', 'M', 's', ':']
}

/// Whether a line opens the artifact section: it starts with `RPMs:`.
pub open spec fn is_rpms_header(line: Seq<char>) -> bool {
    line.len() >= 5 && line.take(5) == rpms_marker()
}

/// Whether `line` opens the artifact section.
pub fn parse_rpms_header(line: &str) -> (r: bool)
    ensures
        r == is_rpms_header(line@),
{
    let n = line.unicode_len();
    if n < 5 {
        return false;
    }
    if line.get_char(0) == 'R' && line.get_char(1) == 'P' && line.get_char(2) == 'M'
        && line.get_char(3) == 's' && line.get_char(4) == ':' {
        proof {
            assert(line@.take(5) =~= rpms_marker());
        }
        true
    } else {
        proof {
            if line@.take(5) == rpms_marker() {
                assert(line@[0] == line@.take(5)[0]);
                assert(line@[1] == line@.take(5)[1]);
                assert(line@[2] == line@.take(5)[2]);
                assert(line@[3] == line@.take(5)[3]);
                assert(line@[4] == line@.take(5)[4]);
            }
        }
        false
    }
}

/// The non-empty `/`-separated segments of a path, in order. Empty segments
/// (from doubled, leading or trailing slashes) contribute nothing, the way
/// path normalization reads them.
pub open spec fn segments_from(s: Seq<char>, i: int) -> Seq<Seq<char>>
    decreases s.len() - i,
        via segments_from_decreases
{
    if i < 0 || i >= s.len() {
        seq![]
    } else if s[i] == '/' {
        segments_from(s, i + 1)
    } else {
        let j = scan_from(CharClass::Slash, s, i);
        if j < s.len() {
            seq![s.subrange(i, j)] + segments_from(s, j + 1)
        } else {
            seq![s.subrange(i, s.len() as int)]
        }
    }
}

#[via_fn]
proof fn segments_from_decreases(s: Seq<char>, i: int) {
    if 0 <= i < s.len() && s[i] != '/' {
        lemma_scan_from(CharClass::Slash, s, i);
    }
}

/// The non-empty slash-separated segments of `s`.
fn split_segments<'a>(s: &'a str) -> (r: Vec<&'a str>)
    ensures
        r.deep_view() == segments_from(s@, 0),
{
    let n = s.unicode_len();
    let mut out: Vec<&'a str> = Vec::new();
    let mut i: usize = 0;
    while i < n
        invariant
            i <= n,
            n == s@.len(),
            out.deep_view() + segments_from(s@, i as int) == segments_from(s@, 0),
        decreases n - i,
    {
        let c = s.get_char(i);
        if c == '/' {
            i = i + 1;
        } else {
            let j = scan(CharClass::Slash, s, i);
            proof {
                lemma_scan_from(CharClass::Slash, s@, i as int);
            }
            let ghost prev = out.deep_view();
            if j < n {
                let seg = s.substring_char(i, j);
                out.push(seg);
                proof {
                    assert(out.deep_view() =~= prev.push(seg@));
                    assert(prev.push(seg@) + segments_from(s@, j + 1) =~= prev + segments_from(
                        s@,
                        i as int,
                    ));
                }
                i = j + 1;
            } else {
                let seg = s.substring_char(i, n);
                out.push(seg);
                proof {
                    assert(out.deep_view() =~= prev.push(seg@));
                    assert(prev.push(seg@) + segments_from(s@, n as int) =~= prev + segments_from(
                        s@,
                        i as int,
                    ));
                }
                i = n;
            }
        }
    }
    proof {
        assert(out.deep_view() + segments_from(s@, n as int) =~= out.deep_view());
    }
    out
}

/// An artifact line read as `(architecture, filename)`: the line's first
/// whitespace-delimited token is a relative path whose final segment is the
/// filename and whose parent segment is the architecture; a missing segment
/// is the corresponding error.
pub open spec fn artifact_parse(line: Seq<char>) -> Result<(Seq<char>, Seq<char>), ScrapeError> {
    let ts = scan_from(CharClass::NonWhitespace, line, 0);
    if ts >= line.len() {
        Err(ScrapeError::MissingArtifactName)
    } else {
        let te = scan_from(CharClass::Whitespace, line, ts);
        let segs = segments_from(line.subrange(ts, te), 0);
        if segs.len() == 0 {
            Err(ScrapeError::MissingArtifactName)
        } else if segs.len() == 1 {
            Err(ScrapeError::MissingArtifactArch)
        } else {
            Ok((segs[segs.len() - 2], segs[segs.len() - 1]))
        }
    }
}

/// Reads one artifact line, exactly as `artifact_parse` fixes it.
pub fn parse_artifact<'a>(line: &'a str) -> (r: Result<(&'a str, &'a str), ScrapeError>)
    ensures
        (match r {
            Ok(p) => artifact_parse(line@) == Ok::<(Seq<char>, Seq<char>), ScrapeError>(
                (p.0@, p.1@),
            ),
            Err(e) => artifact_parse(line@) == Err::<(Seq<char>, Seq<char>), ScrapeError>(e),
        }),
{
    let n = line.unicode_len();
    let ts = scan(CharClass::NonWhitespace, line, 0);
    proof {
        lemma_scan_from(CharClass::NonWhitespace, line@, 0);
    }
    if ts >= n {
        return Err(ScrapeError::MissingArtifactName);
    }
    let te = scan(CharClass::Whitespace, line, ts);
    proof {
        lemma_scan_from(CharClass::Whitespace, line@, ts as int);
    }
    let token = line.substring_char(ts, te);
    let segs = split_segments(token);
    let m = segs.len();
    if m == 0 {
        Err(ScrapeError::MissingArtifactName)
    } else if m == 1 {
        Err(ScrapeError::MissingArtifactArch)
    } else {
        proof {
            assert(segs.deep_view()[m - 2] == segs@[m - 2]@);
            assert(segs.deep_view()[m - 1] == segs@[m - 1]@);
        }
        Ok((segs[m - 2], segs[m - 1]))
    }
}

} // verus!
