use sling::semantic_version::{ParseSemanticVersionError, SemanticVersion};

fn v(major: u64, minor: u64, patch: u64) -> SemanticVersion {
    SemanticVersion { major, minor, patch }
}

#[test]
fn test_parse_three_segments() {
    assert_eq!(SemanticVersion::from_str("1.2.3").unwrap(), v(1, 2, 3));
}

#[test]
fn test_parse_missing_segments_default_to_zero() {
    assert_eq!(SemanticVersion::from_str("7").unwrap(), v(7, 0, 0));
    assert_eq!(SemanticVersion::from_str("1.5").unwrap(), v(1, 5, 0));
}

#[test]
fn test_parse_rejects_more_than_three_segments() {
    assert!(matches!(
        SemanticVersion::from_str("1.2.3.4"),
        Err(ParseSemanticVersionError::InvalidFormat)
    ));
}

#[test]
fn test_parse_rejects_non_numeric_segments() {
    assert!(matches!(
        SemanticVersion::from_str("1.x.3"),
        Err(ParseSemanticVersionError::NonNumericSegment)
    ));
    assert!(matches!(
        SemanticVersion::from_str(""),
        Err(ParseSemanticVersionError::NonNumericSegment)
    ));
    assert!(matches!(
        SemanticVersion::from_str("1..2"),
        Err(ParseSemanticVersionError::NonNumericSegment)
    ));
    assert!(matches!(
        SemanticVersion::from_str("1.2.3rc1"),
        Err(ParseSemanticVersionError::NonNumericSegment)
    ));
}

#[test]
fn test_non_numeric_reported_before_invalid_format() {
    // the bad segment stands before the fourth one, so it wins
    assert!(matches!(
        SemanticVersion::from_str("1.x.3.4"),
        Err(ParseSemanticVersionError::NonNumericSegment)
    ));
    // all of the first three parse, so the fourth decides
    assert!(matches!(
        SemanticVersion::from_str("1.2.3.x"),
        Err(ParseSemanticVersionError::InvalidFormat)
    ));
}

#[test]
fn test_parse_rejects_oversized_segment() {
    assert!(matches!(
        SemanticVersion::from_str("99999999999999999999999"),
        Err(ParseSemanticVersionError::NonNumericSegment)
    ));
}

#[test]
fn test_ordering_is_numeric_not_lexicographic() {
    let two = SemanticVersion::from_str("2.0.0").unwrap();
    let ten = SemanticVersion::from_str("10.0.0").unwrap();
    assert!(!(two > ten));
    assert!(two < ten);
    let nine = SemanticVersion::from_str("9").unwrap();
    assert!(nine < ten);
}

#[test]
fn test_ordering_is_lexicographic_on_the_triple() {
    assert!(v(1, 2, 3) < v(1, 2, 4));
    assert!(v(1, 2, 3) < v(1, 3, 0));
    assert!(v(1, 2, 3) < v(2, 0, 0));
    assert!(v(2, 0, 0) > v(1, 9, 9));
    assert_eq!(
        v(1, 2, 3).partial_cmp(&v(1, 2, 3)),
        Some(std::cmp::Ordering::Equal)
    );
}

#[test]
fn test_equivalent_spellings_parse_equal() {
    assert_eq!(
        SemanticVersion::from_str("1.0").unwrap(),
        SemanticVersion::from_str("1.0.0").unwrap()
    );
}
