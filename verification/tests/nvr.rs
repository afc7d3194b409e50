use koji_buildinfo::{get_kojipkgs_url_prefix, split_nvr, DecompositionError};

#[test]
fn test_split_nvr_round_trip() {
    // The name may hold dashes; version and release are split off from the
    // right.
    assert_eq!(
        split_nvr("rpm-ostree-2020.10-1.fc34").unwrap(),
        ("rpm-ostree", "2020.10", "1.fc34")
    );
    assert_eq!(split_nvr("a-b-c").unwrap(), ("a", "b", "c"));
    assert_eq!(split_nvr("kernel-5.9.16-200.fc33").unwrap(), ("kernel", "5.9.16", "200.fc33"));
}

#[test]
fn test_split_nvr_missing_release_separator() {
    assert_eq!(split_nvr("foo"), Err(DecompositionError::MissingReleaseSeparator));
    assert_eq!(split_nvr(""), Err(DecompositionError::MissingReleaseSeparator));
}

#[test]
fn test_split_nvr_boundary_cases() {
    assert_eq!(split_nvr("foo-"), Err(DecompositionError::EmptyRelease));
    assert_eq!(split_nvr("-foo"), Err(DecompositionError::MissingVersionSeparator));
    assert_eq!(split_nvr("a-b"), Err(DecompositionError::MissingVersionSeparator));
    assert_eq!(split_nvr("-a-b"), Err(DecompositionError::EmptyName));
    assert_eq!(split_nvr("foo--bar"), Err(DecompositionError::EmptyVersion));
}

#[test]
fn test_url_prefix() {
    assert_eq!(
        get_kojipkgs_url_prefix("rpm-ostree-2020.10-1.fc34").unwrap(),
        "https://kojipkgs.fedoraproject.org/packages/rpm-ostree/2020.10/1.fc34"
    );
    assert_eq!(
        get_kojipkgs_url_prefix("nodashes"),
        Err(DecompositionError::MissingReleaseSeparator)
    );
}
