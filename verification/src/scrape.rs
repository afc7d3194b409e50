//! The report scraper: a two-phase line scan over the raw report text that
//! produces the normalized build record, all or nothing.
//!
//! The scan starts in the header phase, where a `BUILD:` line records the
//! canonical identifier and build id and an `RPMs:` line makes the single,
//! irreversible transition to the artifact phase; there, every line is read
//! as an artifact path. After the scan the record is complete only if a
//! `BUILD:` line was seen, the artifact section was opened, and the
//! canonical identifier decomposes.

use vstd::prelude::*;

use crate::errors::ScrapeError;
use crate::nvr::{get_kojipkgs_url_prefix, spec_url_prefix};
use crate::report::{
    artifact_parse, build_line_parts, digits_val, is_rpms_header, lines_from, parse_artifact,
    parse_build_line, parse_rpms_header, split_lines,
};
use crate::text::str_eq;

verus! {

/// One architecture with its artifact filenames, in report order.
#[derive(Debug, PartialEq, Eq)]
pub struct ArchRpms {
    pub arch: String,
    pub files: Vec<String>,
}

impl View for ArchRpms {
    type V = (Seq<char>, Seq<Seq<char>>);

    open spec fn view(&self) -> (Seq<char>, Seq<Seq<char>>) {
        (self.arch@, self.files.deep_view())
    }
}

/// The normalized structured record for one build: the canonical
/// name-version-release, the numeric build id, the derived download URL
/// prefix, and the artifacts grouped by architecture.
#[derive(Debug, PartialEq, Eq)]
pub struct KojiBuildInfo {
    pub nvr: String,
    pub id: u64,
    pub kojipkgs_url_prefix: String,
    pub rpms: Vec<ArchRpms>,
}

/// The mathematical content of a build record.
pub struct BuildModel {
    pub nvr: Seq<char>,
    pub id: u64,
    pub url_prefix: Seq<char>,
    pub rpms: Seq<(Seq<char>, Seq<Seq<char>>)>,
}

/// The view of an architecture grouping.
pub open spec fn rpms_view(rpms: Seq<ArchRpms>) -> Seq<(Seq<char>, Seq<Seq<char>>)> {
    rpms.map_values(|a: ArchRpms| a@)
}

impl View for KojiBuildInfo {
    type V = BuildModel;

    open spec fn view(&self) -> BuildModel {
        BuildModel {
            nvr: self.nvr@,
            id: self.id,
            url_prefix: self.kojipkgs_url_prefix@,
            rpms: rpms_view(self.rpms@),
        }
    }
}

/// The two phases of the line scan. The only legal transition is from
/// `Header` to `Artifacts`, taken when the `RPMs:` header is passed, and it
/// is irreversible.
#[derive(Debug, Clone, Copy, PartialEq, Eq)]
pub enum ScanPhase {
    /// Before the `RPMs:` header: build lines are recognized, other lines
    /// ignored.
    Header,
    /// After the `RPMs:` header: every line is read as an artifact path.
    Artifacts,
}

/// The scraper's scan state: what has been read so far, and which of the
/// two phases the scan is in.
pub struct ScanState {
    /// The canonical nvr and build id of the last `BUILD:` line seen.
    pub build: Option<(Seq<char>, u64)>,
    /// The phase the scan is in.
    pub phase: ScanPhase,
    /// The artifacts grouped by architecture, in order of first sighting.
    pub rpms: Seq<(Seq<char>, Seq<Seq<char>>)>,
}

/// The state before any line is read.
pub open spec fn initial_scan_state() -> ScanState {
    ScanState { build: None, phase: ScanPhase::Header, rpms: seq![] }
}

/// The first index at or after `i` whose group is named `arch`, or the
/// length when no group is.
pub open spec fn find_arch_from(
    rpms: Seq<(Seq<char>, Seq<Seq<char>>)>,
    arch: Seq<char>,
    i: int,
) -> int
    decreases rpms.len() - i,
{
    if i < 0 || i >= rpms.len() {
        rpms.len() as int
    } else if rpms[i].0 == arch {
        i
    } else {
        find_arch_from(rpms, arch, i + 1)
    }
}

/// `find_arch_from` is the only index with the first-match properties.
pub proof fn lemma_find_arch_from_unique(
    rpms: Seq<(Seq<char>, Seq<Seq<char>>)>,
    arch: Seq<char>,
    i: int,
    j: int,
)
    requires
        0 <= i <= j <= rpms.len(),
        forall|k: int| i <= k < j ==> rpms[k].0 != arch,
        j < rpms.len() ==> rpms[j].0 == arch,
    ensures
        find_arch_from(rpms, arch, i) == j,
    decreases j - i,
{
    if i < j {
        assert(rpms[i].0 != arch);
        lemma_find_arch_from_unique(rpms, arch, i + 1, j);
    }
}

/// One artifact appended: to its architecture's group if one exists, else
/// as a new group at the end.
pub open spec fn rpms_insert(
    rpms: Seq<(Seq<char>, Seq<Seq<char>>)>,
    arch: Seq<char>,
    name: Seq<char>,
) -> Seq<(Seq<char>, Seq<Seq<char>>)> {
    let k = find_arch_from(rpms, arch, 0);
    if k < rpms.len() {
        rpms.update(k, (arch, rpms[k].1.push(name)))
    } else {
        rpms.push((arch, seq![name]))
    }
}

/// One line of the scan. In the artifact phase every line must parse as an
/// artifact; in the header phase a build line records identifier and id
/// (digits beyond the 64-bit range fail), an `RPMs:` header switches
/// phases, and any other line is ignored.
pub open spec fn scan_step(st: ScanState, line: Seq<char>) -> Result<ScanState, ScrapeError> {
    if st.phase is Artifacts {
        match artifact_parse(line) {
            Ok(p) => Ok(ScanState { rpms: rpms_insert(st.rpms, p.0, p.1), ..st }),
            Err(e) => Err(e),
        }
    } else {
        match build_line_parts(line) {
            Some(p) => if digits_val(p.1) > u64::MAX as int {
                Err(ScrapeError::BuildIdOverflow)
            } else {
                Ok(ScanState { build: Some((p.0, digits_val(p.1) as u64)), ..st })
            },
            None => if is_rpms_header(line) {
                Ok(ScanState { phase: ScanPhase::Artifacts, ..st })
            } else {
                Ok(st)
            },
        }
    }
}

/// The scan folded over a sequence of lines, stopping at the first error.
pub open spec fn scan_lines(st: ScanState, lines: Seq<Seq<char>>) -> Result<
    ScanState,
    ScrapeError,
>
    decreases lines.len(),
{
    if lines.len() == 0 {
        Ok(st)
    } else {
        match scan_step(st, lines[0]) {
            Ok(st2) => scan_lines(st2, lines.drop_first()),
            Err(e) => Err(e),
        }
    }
}

/// The whole scrape as a function of the raw report text: the line scan,
/// then the post-scan checks — a `BUILD:` line must have been seen, the
/// artifact section must have been opened (its header is load-bearing even
/// with no artifacts after it), and the canonical identifier must
/// decompose to yield the URL prefix.
pub open spec fn scrape_model(s: Seq<char>) -> Result<BuildModel, ScrapeError> {
    match scan_lines(initial_scan_state(), lines_from(s, 0)) {
        Err(e) => Err(e),
        Ok(st) => match st.build {
            None => Err(ScrapeError::BuildNotFound),
            Some(b) => if st.phase is Header {
                Err(ScrapeError::ArtifactSectionMissing)
            } else {
                match spec_url_prefix(b.0) {
                    Ok(u) => Ok(BuildModel { nvr: b.0, id: b.1, url_prefix: u, rpms: st.rpms }),
                    Err(e) => Err(ScrapeError::InvalidCanonicalNvr(e)),
                }
            },
        },
    }
}

/// The view of the header-phase scan result.
spec fn build_opt_view(b: Option<(&str, u64)>) -> Option<(Seq<char>, u64)> {
    match b {
        Some(p) => Some((p.0@, p.1)),
        None => None,
    }
}

/// Appends one artifact to its architecture's group, creating the group at
/// the end when the architecture is new.
fn rpms_push(rpms: &mut Vec<ArchRpms>, arch: &str, name: &str)
    ensures
        rpms_view(final(rpms)@) == rpms_insert(rpms_view(old(rpms)@), arch@, name@),
{
    let n = rpms.len();
    let mut k: usize = 0;
    while k < n
        invariant
            k <= n,
            n == rpms@.len(),
            rpms@ == old(rpms)@,
            forall|m: int| 0 <= m < k ==> rpms@[m].arch@ != arch@,
        decreases n - k,
    {
        if str_eq(rpms[k].arch.as_str(), arch) {
            proof {
                assert(rpms_view(rpms@)[k as int].0 == arch@);
                lemma_find_arch_from_unique(rpms_view(rpms@), arch@, 0, k as int);
            }
            let ghost prev = rpms_view(rpms@);
            let mut entry = rpms.remove(k);
            let ghost prev_files = entry.files.deep_view();
            entry.files.push(name.to_owned());
            proof {
                assert(entry.files.deep_view() =~= prev_files.push(name@));
            }
            rpms.insert(k, entry);
            proof {
                assert(rpms_view(rpms@) =~= rpms_insert(prev, arch@, name@));
            }
            return;
        }
        k = k + 1;
    }
    proof {
        assert(forall|m: int| 0 <= m < rpms@.len() ==> rpms_view(rpms@)[m].0 == rpms@[m].arch@);
        lemma_find_arch_from_unique(rpms_view(rpms@), arch@, 0, rpms@.len() as int);
    }
    let ghost prev = rpms_view(rpms@);
    let mut files: Vec<String> = Vec::new();
    files.push(name.to_owned());
    let ghost files_view = files.deep_view();
    proof {
        assert(files_view =~= seq![name@]);
    }
    rpms.push(ArchRpms { arch: arch.to_owned(), files });
    proof {
        assert(rpms_view(rpms@) =~= rpms_insert(prev, arch@, name@));
    }
}

/// Scrapes the raw text report of the external build system into a build
/// record, exactly as `scrape_model` fixes it: the record is a function of
/// the report text alone, and no partial record is ever returned.
pub fn scrape_koji_cli(output: &str) -> (r: Result<KojiBuildInfo, ScrapeError>)
    ensures
        (match r {
            Ok(info) => scrape_model(output@) == Ok::<BuildModel, ScrapeError>(info@),
            Err(e) => scrape_model(output@) == Err::<BuildModel, ScrapeError>(e),
        }),
{
    let lines = split_lines(output);
    let ghost all = lines.deep_view();
    let nlines = lines.len();
    let mut build: Option<(&str, u64)> = None;
    let mut phase = ScanPhase::Header;
    let mut rpms: Vec<ArchRpms> = Vec::new();
    let mut i: usize = 0;
    proof {
        assert(all.skip(0) =~= all);
        assert(rpms_view(rpms@) =~= Seq::<(Seq<char>, Seq<Seq<char>>)>::empty());
        assert(ScanState {
            build: build_opt_view(build),
            phase: phase,
            rpms: rpms_view(rpms@),
        } == initial_scan_state());
    }
    while i < nlines
        invariant
            i <= nlines,
            nlines == lines@.len(),
            all == lines.deep_view(),
            all == lines_from(output@, 0),
            (scan_lines(
                ScanState {
                    build: build_opt_view(build),
                    phase: phase,
                    rpms: rpms_view(rpms@),
                },
                all.skip(i as int),
            ) == scan_lines(initial_scan_state(), all)),
        decreases nlines - i,
    {
        let line = lines[i];
        let ghost st = ScanState {
            build: build_opt_view(build),
            phase: phase,
            rpms: rpms_view(rpms@),
        };
        proof {
            assert(all.skip(i as int)[0] == all[i as int]);
            assert(all[i as int] == line@);
            assert(all.skip(i as int).drop_first() =~= all.skip(i as int + 1));
        }
        if matches!(phase, ScanPhase::Artifacts) {
            match parse_artifact(line) {
                Err(e) => {
                    proof {
                        assert(scan_step(st, line@) == Err::<ScanState, ScrapeError>(e));
                    }
                    return Err(e);
                },
                Ok((arch, name)) => {
                    rpms_push(&mut rpms, arch, name);
                },
            }
        } else {
            match parse_build_line(line) {
                Err(e) => {
                    proof {
                        assert(scan_step(st, line@) == Err::<ScanState, ScrapeError>(e));
                    }
                    return Err(e);
                },
                Ok(Some(b)) => {
                    build = Some(b);
                },
                Ok(None) => {
                    if parse_rpms_header(line) {
                        phase = ScanPhase::Artifacts;
                    }
                },
            }
        }
        i = i + 1;
    }
    proof {
        assert(all.skip(nlines as int) =~= Seq::<Seq<char>>::empty());
    }
    match build {
        None => Err(ScrapeError::BuildNotFound),
        Some((nvr_s, idv)) => {
            if matches!(phase, ScanPhase::Header) {
                return Err(ScrapeError::ArtifactSectionMissing);
            }
            match get_kojipkgs_url_prefix(nvr_s) {
                Err(e) => Err(ScrapeError::InvalidCanonicalNvr(e)),
                Ok(url) => {
                    let info = KojiBuildInfo {
                        nvr: nvr_s.to_owned(),
                        id: idv,
                        kojipkgs_url_prefix: url,
                        rpms,
                    };
                    Ok(info)
                },
            }
        },
    }
}

/// Law: scraping is deterministic. The record is a function of the raw
/// report text alone, so scraping the same text twice yields structurally
/// equal results.
pub proof fn lemma_scrape_idempotent(
    s: Seq<char>,
    r1: Result<BuildModel, ScrapeError>,
    r2: Result<BuildModel, ScrapeError>,
)
    requires
        r1 == scrape_model(s),
        r2 == scrape_model(s),
    ensures
        r1 == r2,
{
}

} // verus!
