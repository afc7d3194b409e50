use koji_buildinfo::report::parse_build_line;
use koji_buildinfo::{scrape_koji_cli, DecompositionError, KojiBuildInfo, ScrapeError};

const KOJI_OUTPUT: &str = "\
BUILD: rpm-ostree-2020.10-1.fc34 [1657648]
State: COMPLETE
Built by: walters
Volume: DEFAULT
Task: 57133461 build (f34, /rpms/rpm-ostree.git:48aa1f1e9c09f631eeeb8f25f7728f1e4842db5c)
Finished: Mon, 28 Dec 2020 18:02:18 UTC
Tags: f34 f34-updates-candidate
RPMs:
/mnt/koji/packages/rpm-ostree/2020.10/1.fc34/src/rpm-ostree-2020.10-1.fc34.src.rpm
/mnt/koji/packages/rpm-ostree/2020.10/1.fc34/aarch64/rpm-ostree-2020.10-1.fc34.aarch64.rpm
/mnt/koji/packages/rpm-ostree/2020.10/1.fc34/aarch64/rpm-ostree-debuginfo-2020.10-1.fc34.aarch64.rpm
/mnt/koji/packages/rpm-ostree/2020.10/1.fc34/aarch64/rpm-ostree-libs-2020.10-1.fc34.aarch64.rpm
/mnt/koji/packages/rpm-ostree/2020.10/1.fc34/armv7hl/rpm-ostree-2020.10-1.fc34.armv7hl.rpm
/mnt/koji/packages/rpm-ostree/2020.10/1.fc34/armv7hl/rpm-ostree-libs-2020.10-1.fc34.armv7hl.rpm
/mnt/koji/packages/rpm-ostree/2020.10/1.fc34/i686/rpm-ostree-2020.10-1.fc34.i686.rpm
/mnt/koji/packages/rpm-ostree/2020.10/1.fc34/i686/rpm-ostree-libs-2020.10-1.fc34.i686.rpm
/mnt/koji/packages/rpm-ostree/2020.10/1.fc34/ppc64le/rpm-ostree-2020.10-1.fc34.ppc64le.rpm
/mnt/koji/packages/rpm-ostree/2020.10/1.fc34/ppc64le/rpm-ostree-libs-2020.10-1.fc34.ppc64le.rpm
/mnt/koji/packages/rpm-ostree/2020.10/1.fc34/s390x/rpm-ostree-2020.10-1.fc34.s390x.rpm
/mnt/koji/packages/rpm-ostree/2020.10/1.fc34/s390x/rpm-ostree-libs-2020.10-1.fc34.s390x.rpm
/mnt/koji/packages/rpm-ostree/2020.10/1.fc34/x86_64/rpm-ostree-2020.10-1.fc34.x86_64.rpm
/mnt/koji/packages/rpm-ostree/2020.10/1.fc34/x86_64/rpm-ostree-debuginfo-2020.10-1.fc34.x86_64.rpm
/mnt/koji/packages/rpm-ostree/2020.10/1.fc34/x86_64/rpm-ostree-libs-debuginfo-2020.10-1.fc34.x86_64.rpm
/mnt/koji/packages/rpm-ostree/2020.10/1.fc34/x86_64/rpm-ostree-libs-2020.10-1.fc34.x86_64.rpm
/mnt/koji/packages/rpm-ostree/2020.10/1.fc34/x86_64/rpm-ostree-debugsource-2020.10-1.fc34.x86_64.rpm
";

fn files_for<'a>(r: &'a KojiBuildInfo, arch: &str) -> &'a [String] {
    &r.rpms.iter().find(|e| e.arch == arch).unwrap().files
}

#[test]
fn test_buildre() {
    let s = "BUILD: rpm-ostree-2020.10-1.fc34 [1657648]";
    assert!(matches!(parse_build_line(s), Ok(Some(_))));
}

#[test]
fn test_scrape_koji_cli() {
    let r = scrape_koji_cli(KOJI_OUTPUT).unwrap();
    assert_eq!(r.nvr, "rpm-ostree-2020.10-1.fc34");
    assert_eq!(r.id, 1657648);
    assert_eq!(r.rpms.len(), 7);
    assert_eq!(files_for(&r, "src")[0], "rpm-ostree-2020.10-1.fc34.src.rpm");
    assert_eq!(
        files_for(&r, "x86_64")[2],
        "rpm-ostree-libs-debuginfo-2020.10-1.fc34.x86_64.rpm"
    );
}

#[test]
fn test_scrape_fills_url_prefix_and_order() {
    let r = scrape_koji_cli(KOJI_OUTPUT).unwrap();
    assert_eq!(
        r.kojipkgs_url_prefix,
        "https://kojipkgs.fedoraproject.org/packages/rpm-ostree/2020.10/1.fc34"
    );
    // Architectures appear in order of first sighting, artifacts in report
    // order within each architecture.
    assert_eq!(r.rpms[0].arch, "src");
    assert_eq!(r.rpms[6].arch, "x86_64");
    assert_eq!(
        files_for(&r, "x86_64"),
        &[
            "rpm-ostree-2020.10-1.fc34.x86_64.rpm".to_string(),
            "rpm-ostree-debuginfo-2020.10-1.fc34.x86_64.rpm".to_string(),
            "rpm-ostree-libs-debuginfo-2020.10-1.fc34.x86_64.rpm".to_string(),
            "rpm-ostree-libs-2020.10-1.fc34.x86_64.rpm".to_string(),
            "rpm-ostree-debugsource-2020.10-1.fc34.x86_64.rpm".to_string(),
        ][..]
    );
}

#[test]
fn test_scrape_build_line_yields_nvr_and_id() {
    let report = "BUILD: rpm-ostree-2020.10-1.fc34 [1657648]\nRPMs:\n";
    let r = scrape_koji_cli(report).unwrap();
    assert_eq!(r.nvr, "rpm-ostree-2020.10-1.fc34");
    assert_eq!(r.id, 1657648);
    assert!(r.rpms.is_empty());
}

#[test]
fn test_scrape_missing_build() {
    let report = "State: COMPLETE\nRPMs:\n/a/x86_64/foo.rpm\n";
    assert_eq!(scrape_koji_cli(report), Err(ScrapeError::BuildNotFound));
}

#[test]
fn test_scrape_missing_rpms_section() {
    let report = "BUILD: rpm-ostree-2020.10-1.fc34 [1657648]\nState: COMPLETE\n";
    assert_eq!(scrape_koji_cli(report), Err(ScrapeError::ArtifactSectionMissing));
}

#[test]
fn test_scrape_idempotent() {
    let a = scrape_koji_cli(KOJI_OUTPUT).unwrap();
    let b = scrape_koji_cli(KOJI_OUTPUT).unwrap();
    assert_eq!(a, b);
}

#[test]
fn test_scrape_build_id_overflow() {
    // One more than the largest unsigned 64-bit value.
    let report = "BUILD: a-b-c [18446744073709551616]\nRPMs:\n";
    assert_eq!(scrape_koji_cli(report), Err(ScrapeError::BuildIdOverflow));
    let report_max = "BUILD: a-b-c [18446744073709551615]\nRPMs:\n";
    assert_eq!(scrape_koji_cli(report_max).unwrap().id, u64::MAX);
}

#[test]
fn test_scrape_invalid_canonical_nvr() {
    let report = "BUILD: nodashes [7]\nRPMs:\n";
    assert_eq!(
        scrape_koji_cli(report),
        Err(ScrapeError::InvalidCanonicalNvr(DecompositionError::MissingReleaseSeparator))
    );
}

#[test]
fn test_scrape_artifact_errors() {
    let missing_arch = "BUILD: a-b-c [7]\nRPMs:\nstandalone.rpm\n";
    assert_eq!(scrape_koji_cli(missing_arch), Err(ScrapeError::MissingArtifactArch));
    let missing_name = "BUILD: a-b-c [7]\nRPMs:\n///\n";
    assert_eq!(scrape_koji_cli(missing_name), Err(ScrapeError::MissingArtifactName));
    let empty_line = "BUILD: a-b-c [7]\nRPMs:\n\n";
    assert_eq!(scrape_koji_cli(empty_line), Err(ScrapeError::MissingArtifactName));
}

#[test]
fn test_scrape_crlf_report() {
    let report = "BUILD: a-b-c [7]\r\nRPMs:\r\n/pkg/x86_64/foo.rpm\r\n";
    let r = scrape_koji_cli(report).unwrap();
    assert_eq!(r.nvr, "a-b-c");
    assert_eq!(r.id, 7);
    assert_eq!(files_for(&r, "x86_64"), &["foo.rpm".to_string()][..]);
}

#[test]
fn test_scrape_artifact_first_token_only() {
    let report = "BUILD: a-b-c [7]\nRPMs:\n  /pkg/noarch/doc.rpm   trailing words\n";
    let r = scrape_koji_cli(report).unwrap();
    assert_eq!(files_for(&r, "noarch"), &["doc.rpm".to_string()][..]);
}

#[test]
fn test_parse_build_line_shapes() {
    // Two tokens before the bracket: no match.
    assert!(matches!(parse_build_line("BUILD: a b [1]"), Ok(None)));
    // Digits must run straight to the closing bracket.
    assert!(matches!(parse_build_line("BUILD: a-b-c [12x]"), Ok(None)));
    // At least one space after the marker.
    assert!(matches!(parse_build_line("BUILD:a-b-c [1]"), Ok(None)));
    // Trailing text after the bracket is allowed.
    assert!(matches!(parse_build_line("BUILD: a-b-c [12] extra"), Ok(Some(("a-b-c", 12)))));
}

#[test]
fn test_scrape_phase_is_irreversible() {
    // Once the artifact section has opened, every later line is read as an
    // artifact path — even one shaped like a BUILD: line, whose first token
    // has no parent segment.
    let report = "BUILD: a-b-c [1]\nRPMs:\nBUILD: d-e-f [2]\n";
    assert_eq!(scrape_koji_cli(report), Err(ScrapeError::MissingArtifactArch));
}

#[test]
fn test_scrape_last_build_line_wins() {
    // A later BUILD: line in the header phase overwrites an earlier one.
    let report = "BUILD: a-b-c [1]\nBUILD: d-e-f [2]\nRPMs:\n";
    let r = scrape_koji_cli(report).unwrap();
    assert_eq!(r.nvr, "d-e-f");
    assert_eq!(r.id, 2);
}
