//! The identifier validator: a conservative gate run before an identifier
//! reaches a subprocess argument or a URL path.
//!
//! The rule set is deliberately minimal: non-empty, ASCII only, and a
//! leading ASCII alphanumeric character (which blocks leading `-` and `.`
//! tokens). Structural validation is the decomposer's job.

use vstd::prelude::*;

use crate::errors::ValidationError;

verus! {

/// A character in the ASCII range.
pub open spec fn is_ascii_char(c: char) -> bool {
    c as u32 <= 0x7F
}

/// An ASCII alphanumeric character: a digit or a letter of either case.
pub open spec fn is_ascii_alnum_char(c: char) -> bool {
    let u = c as u32;
    (0x30 <= u && u <= 0x39) || (0x41 <= u && u <= 0x5A) || (0x61 <= u && u <= 0x7A)
}

/// Every character of `s` is ASCII.
pub open spec fn all_ascii(s: Seq<char>) -> bool {
    forall|i: int| 0 <= i < s.len() ==> is_ascii_char(s[i])
}

/// An identifier the validator accepts: non-empty, all ASCII, first
/// character alphanumeric.
pub open spec fn valid_buildid(s: Seq<char>) -> bool {
    s.len() > 0 && all_ascii(s) && is_ascii_alnum_char(s[0])
}

/// What validation returns on the identifier `s`, with the checks applied
/// in order and the first failure winning: an empty identifier, then the
/// first non-ASCII character, then a non-alphanumeric leading character.
pub open spec fn validate_post(s: Seq<char>, r: Result<(), ValidationError>) -> bool {
    match r {
        Ok(()) => valid_buildid(s),
        Err(ValidationError::EmptyIdentifier) => s.len() == 0,
        Err(ValidationError::NonAsciiCharacter(c)) => !is_ascii_char(c) && (exists|i: int|
            0 <= i < s.len() && s[i] == c && (forall|k: int| 0 <= k < i ==> is_ascii_char(s[k]))),
        Err(ValidationError::InvalidLeadingCharacter(c)) => s.len() > 0 && all_ascii(s) && c
            == s[0] && !is_ascii_alnum_char(c),
    }
}

/// Rejects unsafe or malformed identifier strings before any external use:
/// succeeds exactly on the identifiers `valid_buildid` describes, and
/// reports the first failing check otherwise.
pub fn validate_buildid(s: &str) -> (r: Result<(), ValidationError>)
    ensures
        validate_post(s@, r),
        r is Ok <==> valid_buildid(s@),
{
    let n = s.unicode_len();
    if n == 0 {
        return Err(ValidationError::EmptyIdentifier);
    }
    let mut i: usize = 0;
    while i < n
        invariant
            i <= n,
            n == s@.len(),
            forall|k: int| 0 <= k < i ==> is_ascii_char(s@[k]),
        decreases n - i,
    {
        let c = s.get_char(i);
        if c as u32 > 0x7F {
            return Err(ValidationError::NonAsciiCharacter(c));
        }
        i = i + 1;
    }
    let c0 = s.get_char(0);
    let u = c0 as u32;
    if (0x30 <= u && u <= 0x39) || (0x41 <= u && u <= 0x5A) || (0x61 <= u && u <= 0x7A) {
        Ok(())
    } else {
        Err(ValidationError::InvalidLeadingCharacter(c0))
    }
}

/// A build identifier that has passed the validator. Holding this type is
/// proof that the wrapped string satisfies `valid_buildid`, so functions
/// that hand an identifier to the external tool can demand it by type.
pub struct ValidatedBuildId {
    id: String,
}

impl View for ValidatedBuildId {
    type V = Seq<char>;

    closed spec fn view(&self) -> Seq<char> {
        self.id@
    }
}

impl ValidatedBuildId {
    #[verifier::type_invariant]
    spec fn inv(self) -> bool {
        valid_buildid(self.id@)
    }

    /// Validates `s` and wraps it; fails exactly as `validate_buildid`
    /// does.
    pub fn new(s: &str) -> (r: Result<ValidatedBuildId, ValidationError>)
        ensures
            match r {
                Ok(v) => v@ == s@ && valid_buildid(s@),
                Err(e) => validate_post(s@, Err(e)) && !valid_buildid(s@),
            },
    {
        match validate_buildid(s) {
            Ok(()) => Ok(ValidatedBuildId { id: s.to_owned() }),
            Err(e) => Err(e),
        }
    }

    /// The wrapped identifier, known valid.
    pub fn as_str(&self) -> (r: &str)
        ensures
            r@ == self@,
            valid_buildid(self@),
    {
        proof {
            use_type_invariant(self);
        }
        self.id.as_str()
    }
}

} // verus!
