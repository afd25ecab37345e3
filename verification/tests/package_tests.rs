use sling::package::{Package, ParsePackageError};
use sling::package_version::PackageVersion;
use sling::specifier::Specifier;

#[test]
fn test_parse_name_at_version() {
    let p = Package::from_str("foo@1.2.3").unwrap();
    assert_eq!(p.name, "foo".to_string());
    assert!(matches!(p.version, PackageVersion::Literal(ref v) if v == "1.2.3"));
}

#[test]
fn test_parse_bare_name_means_latest() {
    let p = Package::from_str("foo").unwrap();
    assert_eq!(p.name, "foo".to_string());
    assert!(matches!(p.version, PackageVersion::Latest));
}

#[test]
fn test_parse_rejects_empty_name_and_extra_separators() {
    assert!(matches!(
        Package::from_str(""),
        Err(ParsePackageError::InvalidFormat)
    ));
    assert!(matches!(
        Package::from_str("@1.0.0"),
        Err(ParsePackageError::InvalidFormat)
    ));
    assert!(matches!(
        Package::from_str("a@b@c"),
        Err(ParsePackageError::InvalidFormat)
    ));
}

#[test]
fn test_round_trip_of_canonical_request_text() {
    for s in ["foo", "foo@1.2.3", "some_pkg-x@0.1", "foo@latest"] {
        let parsed = Package::from_str(s).unwrap();
        assert_eq!(parsed.to_string(), s.to_string());
    }
}

#[test]
fn test_display_of_latest_is_the_bare_name() {
    let p = Package::from_str("foo").unwrap();
    assert_eq!(p.to_string(), "foo".to_string());
}

#[test]
fn test_slug_filename_and_object_key() {
    let p = Package::from_str("foo@1.2.3").unwrap();
    assert_eq!(p.slug(), "foo-1.2.3".to_string());
    assert_eq!(p.filename(), "foo-1.2.3.tar.gz".to_string());
    assert_eq!(p.object_key(), "foo/foo-1.2.3.tar.gz".to_string());
}

#[test]
fn test_error_message_names_the_expected_format() {
    let e = Package::from_str("").unwrap_err();
    assert_eq!(
        e.message(),
        "InvalidFormat: Use the format PKG[@(x.y.z|latest)]".to_string()
    );
    assert_eq!(e.to_string(), e.message());
}

#[test]
fn test_from_path_plain_filename() {
    let p = Package::from_path("foo-1.0.0.tar.gz").unwrap();
    assert_eq!(p.name, "foo".to_string());
    assert!(matches!(p.version, PackageVersion::Literal(ref v) if v == "1.0.0"));
}

#[test]
fn test_from_path_takes_the_longest_name() {
    let p = Package::from_path("foo-bar-1.2.0.tgz").unwrap();
    assert_eq!(p.name, "foo-bar".to_string());
    assert!(matches!(p.version, PackageVersion::Literal(ref v) if v == "1.2.0"));
}

#[test]
fn test_from_path_accepts_all_known_extensions_case_insensitively() {
    for f in [
        "pkg-1.0.tar.gz",
        "pkg-1.0.tgz",
        "pkg-1.0.zip",
        "pkg-1.0.whl",
        "pkg-1.0.TAR.GZ",
        "pkg-1.0.Whl",
    ] {
        assert!(Package::from_path(f).is_ok(), "{f} must parse");
    }
}

#[test]
fn test_from_path_keeps_the_raw_version_text() {
    let p = Package::from_path("pkg-1_v2.0.1rc3.dev2+ubuntu.1.whl").unwrap();
    assert!(matches!(p.version, PackageVersion::Literal(ref v) if v == "1_v2.0.1rc3.dev2+ubuntu.1"));
}

#[test]
fn test_from_path_rejects_what_does_not_match() {
    for f in [
        "readme.txt",
        "foo.tar.gz",
        "foo-.tar.gz",
        "-1.0.0.tar.gz",
        "foo-abc.tar.gz",
        "foo-1.0.0",
        "foo-1.0.0.tar",
    ] {
        assert!(Package::from_path(f).is_err(), "{f} must be rejected");
    }
}

#[test]
fn test_from_path_reads_epoch_and_version_prefix() {
    let p = Package::from_path("pkg-3_1.0.0.tgz").unwrap();
    assert!(matches!(p.version, PackageVersion::Literal(ref v) if v == "3_1.0.0"));
    let p = Package::from_path("pkg-v2022.01.01.zip").unwrap();
    assert!(matches!(p.version, PackageVersion::Literal(ref v) if v == "v2022.01.01"));
}

#[test]
fn test_local_tail_does_not_swallow_the_extension() {
    let p = Package::from_path("pkg-1.0+a.tar.gz").unwrap();
    assert!(matches!(p.version, PackageVersion::Literal(ref v) if v == "1.0+a"));
    assert!(Package::from_path("pkg-1.0+.tar.gz").is_err());
}

#[test]
fn test_from_path_keeps_name_case_and_digits() {
    let p = Package::from_path("Some_Pkg2-1.0.0.tar.gz").unwrap();
    assert_eq!(p.name, "Some_Pkg2".to_string());
}

#[test]
fn test_from_path_reads_qualifiers_with_any_separator() {
    for f in [
        "pkg-1.0.dev1.whl",
        "pkg-1.0-dev1.whl",
        "pkg-1.0_dev1.whl",
        "pkg-1.0dev1.whl",
    ] {
        assert!(Package::from_path(f).is_ok(), "{f} must parse");
    }
}

#[test]
fn test_specifier_defaults_to_equality_operator() {
    let s = Specifier::from_str("1.2.3").unwrap();
    assert_eq!(s.op, "==".to_string());
    assert_eq!(s.version, "1.2.3".to_string());
    assert_eq!(s.epoch, 0);
    assert_eq!(s.pre, (false, 0));
    assert_eq!(s.post, (false, 0));
    assert_eq!(s.dev, (false, 0));
    assert_eq!(s.local, (false, String::new()));
}

#[test]
fn test_specifier_reads_operator_epoch_and_qualifiers() {
    let s = Specifier::from_str("~=2!v1.4alpha7.post2.dev1+win.64").unwrap();
    assert_eq!(s.op, "~=".to_string());
    assert_eq!(s.epoch, 2);
    assert_eq!(s.version, "1.4".to_string());
    assert_eq!(s.pre, (true, 7));
    assert_eq!(s.post, (true, 2));
    assert_eq!(s.dev, (true, 1));
    assert_eq!(s.local, (true, "win.64".to_string()));
}

#[test]
fn test_specifier_keywords_match_case_insensitively() {
    let s = Specifier::from_str(">=1.0RC2").unwrap();
    assert_eq!(s.op, ">=".to_string());
    assert_eq!(s.pre, (true, 2));
}

#[test]
fn test_specifier_rejects_garbage() {
    assert!(Specifier::from_str("").is_err());
    assert!(Specifier::from_str("==").is_err());
    assert!(Specifier::from_str("abc").is_err());
    assert!(Specifier::from_str("1.0junk").is_err());
}
