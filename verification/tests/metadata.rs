use std::cmp::Ordering;

use elvui_manager::metadata::{MetadataError, ReleaseMetadata};
use elvui_manager::version::{ParseError, Version};

fn names(list: &[&str]) -> Vec<String> {
    list.iter().map(|s| s.to_string()).collect()
}

#[test]
fn release_keeps_what_it_was_given() {
    let release = ReleaseMetadata::new(
        "12.66",
        "https://example.invalid/elvui-12.66.zip".to_string(),
        names(&["ElvUI", "ElvUI_Options", "ElvUI_Libraries"]),
    )
    .unwrap();
    assert_eq!(release.version().compare(&Version::parse("12.66").unwrap()), Ordering::Equal);
    assert_eq!(release.url(), "https://example.invalid/elvui-12.66.zip");
    assert_eq!(release.directories(), &names(&["ElvUI", "ElvUI_Options", "ElvUI_Libraries"]));
}

#[test]
fn release_with_a_bad_version_is_rejected() {
    let result = ReleaseMetadata::new("12.x", String::new(), names(&["A"]));
    assert_eq!(result.err(), Some(MetadataError::InvalidVersion(ParseError::NotNumeric)));
    let result = ReleaseMetadata::new("", String::new(), names(&["A"]));
    assert_eq!(result.err(), Some(MetadataError::InvalidVersion(ParseError::EmptyComponent)));
}

#[test]
fn release_without_directories_is_rejected() {
    let result = ReleaseMetadata::new("12.66", String::new(), Vec::new());
    assert_eq!(result.err(), Some(MetadataError::NoDirectories));
}

#[test]
fn release_with_a_directory_named_twice_is_rejected() {
    let result = ReleaseMetadata::new("12.66", String::new(), names(&["A", "B", "A"]));
    assert_eq!(result.err(), Some(MetadataError::DuplicateDirectory));
    let result = ReleaseMetadata::new("12.66", String::new(), names(&["A", "A"]));
    assert_eq!(result.err(), Some(MetadataError::DuplicateDirectory));
}

#[test]
fn bad_version_is_reported_before_bad_directories() {
    let result = ReleaseMetadata::new("x", String::new(), Vec::new());
    assert_eq!(result.err(), Some(MetadataError::InvalidVersion(ParseError::NotNumeric)));
}

#[test]
fn directories_that_differ_in_case_are_different() {
    assert!(ReleaseMetadata::new("1", String::new(), names(&["elvui", "ElvUI"])).is_ok());
}
