use koji_buildinfo::{validate_buildid, ValidatedBuildId, ValidationError};

#[test]
fn test_validate_buildid() {
    assert!(validate_buildid("42").is_ok());
    assert!(validate_buildid("rpm-ostree-2020.10-1.fc34").is_ok());
    assert!(validate_buildid("").is_err());
    assert!(validate_buildid("-foo").is_err());
    assert!(validate_buildid("../bar.rpm").is_err());
}

#[test]
fn test_validate_error_kinds() {
    assert_eq!(validate_buildid(""), Err(ValidationError::EmptyIdentifier));
    assert_eq!(
        validate_buildid("caf\u{e9}"),
        Err(ValidationError::NonAsciiCharacter('\u{e9}'))
    );
    assert_eq!(
        validate_buildid("-foo"),
        Err(ValidationError::InvalidLeadingCharacter('-'))
    );
    assert_eq!(
        validate_buildid("../bar.rpm"),
        Err(ValidationError::InvalidLeadingCharacter('.'))
    );
}

#[test]
fn test_validate_first_failure_wins() {
    // The non-ASCII check runs before the leading-character check, and the
    // first offending character is the one reported.
    assert_eq!(
        validate_buildid("-\u{e9}\u{e8}"),
        Err(ValidationError::NonAsciiCharacter('\u{e9}'))
    );
}

#[test]
fn test_validated_buildid_wrapper() {
    let v = ValidatedBuildId::new("rpm-ostree-2020.10-1.fc34").unwrap();
    assert_eq!(v.as_str(), "rpm-ostree-2020.10-1.fc34");
    assert_eq!(
        ValidatedBuildId::new("-foo").err().unwrap(),
        ValidationError::InvalidLeadingCharacter('-')
    );
}
