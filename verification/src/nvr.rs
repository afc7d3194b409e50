//! The identifier decomposer: splitting a name-version-release string into
//! its three components, and deriving the artifact-repository URL prefix.
//!
//! The grammar is ambiguous (the name may itself hold dashes), so the split
//! is fixed by rule: the release is everything after the last `-`, the
//! version everything after the last `-` of what remains. This right-to-left
//! heuristic is a deliberate, documented approximation: an identifier whose
//! version or release legitimately holds an embedded dash is misparsed, and
//! callers depend on exactly this splitting.

use vstd::prelude::*;

use crate::errors::DecompositionError;
use crate::text::{
    last_dash_before, lemma_last_dash_before, lemma_last_dash_before_unique, rfind_dash,
};

verus! {

/// No character of `s` is a `-`.
pub open spec fn dash_free(s: Seq<char>) -> bool {
    forall|i: int| 0 <= i < s.len() ==> s[i] != '-'
}

/// `s` reads as `n`, `-`, `v`, `-`, `r` with no dash inside `v` or `r`
/// (while `n` may hold dashes). At most one such reading exists.
pub open spec fn nvr_parts(s: Seq<char>, n: Seq<char>, v: Seq<char>, r: Seq<char>) -> bool {
    &&& s == n + seq!['-'] + v + seq!['-'] + r
    &&& dash_free(v)
    &&& dash_free(r)
}

/// The decomposition of `s`: split at the last `-`, then split the front at
/// its last `-`, rejecting a missing separator or an empty component. The
/// checks run in this order and the first failure wins.
pub open spec fn spec_split_nvr(s: Seq<char>) -> Result<
    (Seq<char>, Seq<char>, Seq<char>),
    DecompositionError,
> {
    let j = last_dash_before(s, s.len() as int);
    if j < 0 {
        Err(DecompositionError::MissingReleaseSeparator)
    } else if j == s.len() - 1 {
        Err(DecompositionError::EmptyRelease)
    } else {
        let i = last_dash_before(s, j);
        if i < 0 {
            Err(DecompositionError::MissingVersionSeparator)
        } else if i == 0 {
            Err(DecompositionError::EmptyName)
        } else if i + 1 == j {
            Err(DecompositionError::EmptyVersion)
        } else {
            Ok((s.take(i), s.subrange(i + 1, j), s.subrange(j + 1, s.len() as int)))
        }
    }
}

/// The declarative reading of `spec_split_nvr`: success returns the unique
/// non-empty parts, and each error kind names the exact shape of input it
/// comes from.
pub open spec fn split_nvr_post(
    s: Seq<char>,
    r: Result<(Seq<char>, Seq<char>, Seq<char>), DecompositionError>,
) -> bool {
    match r {
        Ok(p) => nvr_parts(s, p.0, p.1, p.2) && p.0.len() > 0 && p.1.len() > 0 && p.2.len() > 0,
        Err(DecompositionError::MissingReleaseSeparator) => dash_free(s),
        Err(DecompositionError::EmptyRelease) => s.len() > 0 && s[s.len() - 1] == '-',
        Err(DecompositionError::MissingVersionSeparator) => exists|p: Seq<char>, rel: Seq<char>|
            s == p + seq!['-'] + rel && dash_free(p) && dash_free(rel) && rel.len() > 0,
        Err(DecompositionError::EmptyName) => exists|v: Seq<char>, rel: Seq<char>|
            s == seq!['-'] + v + seq!['-'] + rel && dash_free(v) && dash_free(rel) && rel.len()
                > 0,
        Err(DecompositionError::EmptyVersion) => exists|n: Seq<char>, rel: Seq<char>|
            s == n + seq!['-', '-'] + rel && n.len() > 0 && dash_free(rel) && rel.len() > 0,
    }
}

/// The decomposition of any string satisfies its declarative reading.
pub proof fn lemma_split_nvr_post(s: Seq<char>)
    ensures
        split_nvr_post(s, spec_split_nvr(s)),
{
    let len = s.len() as int;
    lemma_last_dash_before(s, len);
    let j = last_dash_before(s, len);
    if j < 0 {
        assert(dash_free(s));
    } else if j == len - 1 {
        // s[len - 1] == '-'
    } else {
        lemma_last_dash_before(s, j);
        let i = last_dash_before(s, j);
        let rel = s.subrange(j + 1, len);
        assert(dash_free(rel));
        if i < 0 {
            let p = s.take(j);
            assert(s =~= p + seq!['-'] + rel);
            assert(dash_free(p));
        } else if i == 0 {
            let v = s.subrange(1, j);
            assert(s =~= seq!['-'] + v + seq!['-'] + rel);
            assert(dash_free(v));
        } else if i + 1 == j {
            let n = s.take(i);
            assert(s =~= n + seq!['-', '-'] + rel);
        } else {
            let n = s.take(i);
            let v = s.subrange(i + 1, j);
            assert(s =~= n + seq!['-'] + v + seq!['-'] + rel);
            assert(dash_free(v));
        }
    }
}

/// Law: decomposition inverts composition. For any components with the
/// name, version and release all non-empty and no dash inside the version
/// or the release, decomposing `name-version-release` returns exactly
/// those components.
pub proof fn lemma_split_nvr_round_trip(n: Seq<char>, v: Seq<char>, rel: Seq<char>)
    requires
        n.len() > 0,
        v.len() > 0,
        rel.len() > 0,
        dash_free(v),
        dash_free(rel),
    ensures
        spec_split_nvr(n + seq!['-'] + v + seq!['-'] + rel) == Ok::<
            (Seq<char>, Seq<char>, Seq<char>),
            DecompositionError,
        >((n, v, rel)),
{
    let s = n + seq!['-'] + v + seq!['-'] + rel;
    let len = s.len() as int;
    let j0 = n.len() + 1 + v.len();
    assert(s[j0 as int] == '-');
    assert forall|k: int| j0 < k < len implies s[k] != '-' by {
        assert(s[k] == rel[k - j0 - 1]);
    }
    lemma_last_dash_before_unique(s, len, j0 as int);
    let i0 = n.len() as int;
    assert(s[i0] == '-');
    assert forall|k: int| i0 < k < j0 implies s[k] != '-' by {
        assert(s[k] == v[k - i0 - 1]);
    }
    lemma_last_dash_before_unique(s, j0 as int, i0);
    assert(s.take(i0) =~= n);
    assert(s.subrange(i0 + 1, j0 as int) =~= v);
    assert(s.subrange(j0 as int + 1, len) =~= rel);
}

/// Law: a string holding no `-` at all fails with the missing release
/// separator.
pub proof fn lemma_split_nvr_no_dash(s: Seq<char>)
    requires
        dash_free(s),
    ensures
        spec_split_nvr(s) == Err::<(Seq<char>, Seq<char>, Seq<char>), DecompositionError>(
            DecompositionError::MissingReleaseSeparator,
        ),
{
    lemma_last_dash_before_unique(s, s.len() as int, -1);
}

/// The view of an executable decomposition result.
pub open spec fn split_view(r: Result<(&str, &str, &str), DecompositionError>) -> Result<
    (Seq<char>, Seq<char>, Seq<char>),
    DecompositionError,
> {
    match r {
        Ok(p) => Ok((p.0@, p.1@, p.2@)),
        Err(e) => Err(e),
    }
}

/// Splits a validated or discovered identifier into its name, version and
/// release, as `spec_split_nvr` fixes them.
pub fn split_nvr<'a>(pkg: &'a str) -> (r: Result<(&'a str, &'a str, &'a str), DecompositionError>)
    ensures
        split_view(r) == spec_split_nvr(pkg@),
        split_nvr_post(pkg@, split_view(r)),
{
    proof {
        lemma_split_nvr_post(pkg@);
    }
    let n = pkg.unicode_len();
    proof {
        lemma_last_dash_before(pkg@, n as int);
    }
    match rfind_dash(pkg, n) {
        None => Err(DecompositionError::MissingReleaseSeparator),
        Some(j) => {
            if j + 1 == n {
                Err(DecompositionError::EmptyRelease)
            } else {
                proof {
                    lemma_last_dash_before(pkg@, j as int);
                }
                match rfind_dash(pkg, j) {
                    None => Err(DecompositionError::MissingVersionSeparator),
                    Some(i) => {
                        if i == 0 {
                            Err(DecompositionError::EmptyName)
                        } else if i + 1 == j {
                            Err(DecompositionError::EmptyVersion)
                        } else {
                            let name = pkg.substring_char(0, i);
                            let version = pkg.substring_char(i + 1, j);
                            let release = pkg.substring_char(j + 1, n);
                            Ok((name, version, release))
                        }
                    },
                }
            }
        },
    }
}

/// The base URL under which the external repository publishes artifacts.
pub open spec fn kojipkgs_base_url() -> Seq<char> {
    "https://kojipkgs.fedoraproject.org/packages"@
}

/// The URL prefix derived from a decomposable identifier:
/// `<base>/<name>/<version>/<release>`; a decomposition failure propagates.
pub open spec fn spec_url_prefix(nvr: Seq<char>) -> Result<Seq<char>, DecompositionError> {
    match spec_split_nvr(nvr) {
        Ok(p) => Ok(
            kojipkgs_base_url() + seq!['/'] + p.0 + seq!['/'] + p.1 + seq!['/'] + p.2,
        ),
        Err(e) => Err(e),
    }
}

/// Derives the artifact download URL prefix for `buildid`, exactly as
/// `spec_url_prefix` fixes it.
pub fn get_kojipkgs_url_prefix(buildid: &str) -> (r: Result<String, DecompositionError>)
    ensures
        (match r {
            Ok(u) => spec_url_prefix(buildid@) == Ok::<Seq<char>, DecompositionError>(u@),
            Err(e) => spec_url_prefix(buildid@) == Err::<Seq<char>, DecompositionError>(e),
        }),
{
    match split_nvr(buildid) {
        Err(e) => Err(e),
        Ok((name, version, release)) => {
            let mut u = String::from_str("https://kojipkgs.fedoraproject.org/packages");
            u.append("/");
            u.append(name);
            u.append("/");
            u.append(version);
            u.append("/");
            u.append(release);
            proof {
                reveal_strlit("/");
                assert("/"@ =~= seq!['/']);
                assert(u@ =~= kojipkgs_base_url() + seq!['/'] + name@ + seq!['/'] + version@
                    + seq!['/'] + release@);
            }
            Ok(u)
        },
    }
}

} // verus!
