//! Tests of the release-version decisions: which tag texts count as
//! releases, and which releases meet the minimum.

use dns_fallback_extract::versions::{release_of, tag_line_release, ReleaseVersion};

#[test]
fn release_tags_parse_to_triples() {
    assert_eq!(
        release_of("7.1.0"),
        Some(ReleaseVersion { major: 7, minor: 1, patch: 0 })
    );
    assert_eq!(
        release_of("10.22.333"),
        Some(ReleaseVersion { major: 10, minor: 22, patch: 333 })
    );
}

#[test]
fn prerelease_tags_are_no_releases() {
    assert_eq!(release_of("7.2.0-beta.1"), None);
}

#[test]
fn malformed_tags_are_no_releases() {
    assert_eq!(release_of("not-a-version"), None);
    assert_eq!(release_of("7.1"), None);
    assert_eq!(release_of(""), None);
}

#[test]
fn minimum_version_rule_orders_numerically() {
    let min = ReleaseVersion { major: 7, minor: 1, patch: 0 };
    assert!(ReleaseVersion { major: 7, minor: 1, patch: 0 }.meets_minimum(&min));
    assert!(ReleaseVersion { major: 7, minor: 1, patch: 1 }.meets_minimum(&min));
    assert!(ReleaseVersion { major: 8, minor: 0, patch: 0 }.meets_minimum(&min));
    assert!(!ReleaseVersion { major: 7, minor: 0, patch: 9 }.meets_minimum(&min));
    assert!(!ReleaseVersion { major: 6, minor: 9, patch: 9 }.meets_minimum(&min));
}

#[test]
fn tag_lines_parse_through_the_marker() {
    let line = "4f2d9c\trefs/tags/v7.12.3";
    assert_eq!(
        tag_line_release(line, "\trefs/tags/v"),
        Some(ReleaseVersion { major: 7, minor: 12, patch: 3 })
    );
}

#[test]
fn lines_without_the_marker_yield_nothing() {
    assert_eq!(tag_line_release("4f2d9c\trefs/heads/main", "\trefs/tags/v"), None);
    assert_eq!(tag_line_release("", "\trefs/tags/v"), None);
}

#[test]
fn prerelease_tag_lines_yield_nothing() {
    assert_eq!(tag_line_release("ab\trefs/tags/v7.2.0-beta.1", "\trefs/tags/v"), None);
}

#[test]
fn only_the_first_marker_occurrence_counts() {
    let line = "ab\trefs/tags/v1.0.0\trefs/tags/v2.0.0";
    assert_eq!(tag_line_release(line, "\trefs/tags/v"), None);
}
