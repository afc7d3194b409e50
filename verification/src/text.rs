//! Character classes and linear text scanning.
//!
//! Every parser in the library walks a string from some position to the next
//! character of interest. This module defines the character classes those
//! walks stop at, a single spec-level scan function with its characterizing
//! lemmas, and the verified executable scan all parsers share.

use vstd::prelude::*;

verus! {

/// The Unicode `White_Space` set, the set `str::split_whitespace` splits on.
pub open spec fn is_ws_char(c: char) -> bool {
    let u = c as u32;
    u == 0x20 || (0x9 <= u && u <= 0xD) || u == 0x85 || u == 0xA0 || u == 0x1680
        || (0x2000 <= u && u <= 0x200A) || u == 0x2028 || u == 0x2029 || u == 0x202F
        || u == 0x205F || u == 0x3000
}

/// An ASCII decimal digit, `0` through `9`.
pub open spec fn is_ascii_digit_char(c: char) -> bool {
    let u = c as u32;
    0x30 <= u && u <= 0x39
}

/// The numeric value of an ASCII decimal digit.
pub open spec fn digit_value(c: char) -> int {
    c as u32 - 0x30
}

/// What a scan stops at: the first character of the given class.
#[derive(Debug, Clone, Copy, PartialEq, Eq)]
pub enum CharClass {
    Space,
    NonSpace,
    Whitespace,
    NonWhitespace,
    NonDigit,
    Slash,
    Newline,
}

/// Whether a scan for `class` stops at the character `c`.
pub open spec fn stops_at(class: CharClass, c: char) -> bool {
    match class {
        CharClass::Space => c == ' ',
        CharClass::NonSpace => c != ' ',
        CharClass::Whitespace => is_ws_char(c),
        CharClass::NonWhitespace => !is_ws_char(c),
        CharClass::NonDigit => !is_ascii_digit_char(c),
        CharClass::Slash => c == '/',
        CharClass::Newline => c == '\n',
    }
}

/// The first position `j >= from` where `s[j]` is of class `class`, or
/// `s.len()` when no such position exists.
pub open spec fn scan_from(class: CharClass, s: Seq<char>, from: int) -> int
    decreases s.len() - from,
{
    if from < 0 || from >= s.len() {
        s.len() as int
    } else if stops_at(class, s[from]) {
        from
    } else {
        scan_from(class, s, from + 1)
    }
}

/// What `scan_from` returns: a position no earlier than `from`, at a
/// character of the class if within the string, with no such character
/// before it.
pub proof fn lemma_scan_from(class: CharClass, s: Seq<char>, from: int)
    requires
        0 <= from <= s.len(),
    ensures
        from <= scan_from(class, s, from) <= s.len(),
        scan_from(class, s, from) < s.len() ==> stops_at(class, s[scan_from(class, s, from)]),
        forall|k: int| from <= k < scan_from(class, s, from) ==> !stops_at(class, s[k]),
    decreases s.len() - from,
{
    if from < s.len() && !stops_at(class, s[from]) {
        lemma_scan_from(class, s, from + 1);
    }
}

/// `scan_from` is the only position with the properties above.
pub proof fn lemma_scan_from_unique(class: CharClass, s: Seq<char>, from: int, j: int)
    requires
        0 <= from <= j <= s.len(),
        forall|k: int| from <= k < j ==> !stops_at(class, s[k]),
        j < s.len() ==> stops_at(class, s[j]),
    ensures
        scan_from(class, s, from) == j,
    decreases j - from,
{
    if from < j {
        assert(!stops_at(class, s[from]));
        lemma_scan_from_unique(class, s, from + 1, j);
    }
}

/// Whether `c` is of class `class`.
pub fn stops_at_exec(class: CharClass, c: char) -> (r: bool)
    ensures
        r == stops_at(class, c),
{
    let u = c as u32;
    match class {
        CharClass::Space => u == 0x20,
        CharClass::NonSpace => u != 0x20,
        CharClass::Whitespace => char_is_ws(c),
        CharClass::NonWhitespace => !char_is_ws(c),
        CharClass::NonDigit => !(0x30 <= u && u <= 0x39),
        CharClass::Slash => u == 0x2F,
        CharClass::Newline => u == 0xA,
    }
}

/// Whether `c` is in the Unicode `White_Space` set.
fn char_is_ws(c: char) -> (r: bool)
    ensures
        r == is_ws_char(c),
{
    let u = c as u32;
    u == 0x20 || (0x9 <= u && u <= 0xD) || u == 0x85 || u == 0xA0 || u == 0x1680
        || (0x2000 <= u && u <= 0x200A) || u == 0x2028 || u == 0x2029 || u == 0x202F
        || u == 0x205F || u == 0x3000
}

/// The executable scan: the first position at or after `from` whose
/// character is of class `class`, or the length when none is.
pub fn scan(class: CharClass, s: &str, from: usize) -> (j: usize)
    requires
        from <= s@.len(),
    ensures
        j as int == scan_from(class, s@, from as int),
{
    let n = s.unicode_len();
    let mut j = from;
    while j < n
        invariant
            from <= j <= n,
            n == s@.len(),
            forall|k: int| from <= k < j ==> !stops_at(class, s@[k]),
        decreases n - j,
    {
        let c = s.get_char(j);
        if stops_at_exec(class, c) {
            proof {
                lemma_scan_from_unique(class, s@, from as int, j as int);
            }
            return j;
        }
        j = j + 1;
    }
    proof {
        lemma_scan_from_unique(class, s@, from as int, n as int);
    }
    n
}

/// The last position strictly before `end` holding a `-`, or `-1` when
/// there is none.
pub open spec fn last_dash_before(s: Seq<char>, end: int) -> int
    decreases end,
{
    if end <= 0 {
        -1
    } else if s[end - 1] == '-' {
        end - 1
    } else {
        last_dash_before(s, end - 1)
    }
}

/// What `last_dash_before` returns: a dash position with no later dash
/// before `end`, or `-1` when no dash stands before `end`.
pub proof fn lemma_last_dash_before(s: Seq<char>, end: int)
    requires
        0 <= end <= s.len(),
    ensures
        -1 <= last_dash_before(s, end) < end,
        last_dash_before(s, end) >= 0 ==> s[last_dash_before(s, end)] == '-',
        forall|k: int| last_dash_before(s, end) < k < end ==> s[k] != '-',
    decreases end,
{
    if end > 0 && s[end - 1] != '-' {
        lemma_last_dash_before(s, end - 1);
    }
}

/// `last_dash_before` is the only position with the properties above.
pub proof fn lemma_last_dash_before_unique(s: Seq<char>, end: int, j: int)
    requires
        0 <= end <= s.len(),
        -1 <= j < end,
        j >= 0 ==> s[j] == '-',
        forall|k: int| j < k < end ==> s[k] != '-',
    ensures
        last_dash_before(s, end) == j,
    decreases end,
{
    if end > 0 && j < end - 1 {
        assert(s[end - 1] != '-');
        lemma_last_dash_before_unique(s, end - 1, j);
    }
}

/// The executable backward search for the last `-` before `end`.
pub fn rfind_dash(s: &str, end: usize) -> (r: Option<usize>)
    requires
        end <= s@.len(),
    ensures
        match r {
            Some(j) => j as int == last_dash_before(s@, end as int),
            None => last_dash_before(s@, end as int) == -1,
        },
{
    let mut j = end;
    while j > 0
        invariant
            j <= end <= s@.len(),
            forall|k: int| j <= k < end ==> s@[k] != '-',
        decreases j,
    {
        let c = s.get_char(j - 1);
        if c == '-' {
            proof {
                lemma_last_dash_before_unique(s@, end as int, j - 1);
            }
            return Some(j - 1);
        }
        j = j - 1;
    }
    proof {
        lemma_last_dash_before_unique(s@, end as int, -1);
    }
    None
}

/// Character-for-character string equality, stated over the views.
pub fn str_eq(a: &str, b: &str) -> (r: bool)
    ensures
        r == (a@ == b@),
{
    let na = a.unicode_len();
    let nb = b.unicode_len();
    if na != nb {
        return false;
    }
    let mut i: usize = 0;
    while i < na
        invariant
            i <= na,
            na == a@.len(),
            na == b@.len(),
            forall|k: int| 0 <= k < i ==> a@[k] == b@[k],
        decreases na - i,
    {
        if a.get_char(i) != b.get_char(i) {
            return false;
        }
        i = i + 1;
    }
    proof {
        assert(a@ =~= b@);
    }
    true
}

} // verus!
