use elvui_manager::decision::{check_for_update, needs_update};
use elvui_manager::manifest::{ManifestError, ManifestRead};
use elvui_manager::version::{ParseError, Version};

fn version(text: &str) -> Version {
    Version::parse(text).expect("a valid version")
}

#[test]
fn nothing_installed_needs_update() {
    for latest in ["0", "1.0", "12.66", "999.999.999"] {
        assert!(needs_update(None, &version(latest)));
    }
}

#[test]
fn same_version_needs_no_update() {
    for v in ["0", "1.0", "12.66", "999.999.999"] {
        assert!(!needs_update(Some(&version(v)), &version(v)));
    }
    assert!(!needs_update(Some(&version("12.66")), &version("12.66.0")));
}

#[test]
fn older_version_needs_update() {
    assert!(needs_update(Some(&version("12.65")), &version("12.66")));
    assert!(needs_update(Some(&version("9.9")), &version("12.66")));
}

#[test]
fn newer_version_needs_no_update() {
    assert!(!needs_update(Some(&version("12.67")), &version("12.66")));
    assert!(!needs_update(Some(&version("13")), &version("12.66")));
}

#[test]
fn missing_manifest_leads_to_installation() {
    assert_eq!(check_for_update(&ManifestRead::Missing, &version("12.66")), Ok(true));
}

#[test]
fn manifest_decides_whether_to_install() {
    let read = |v: &str| ManifestRead::Text(format!("## Title: ElvUI\n## Version: {}|enUS\n", v));
    assert_eq!(check_for_update(&read("12.65"), &version("12.66")), Ok(true));
    assert_eq!(check_for_update(&read("12.66"), &version("12.66")), Ok(false));
    assert_eq!(check_for_update(&read("12.67"), &version("12.66")), Ok(false));
}

#[test]
fn manifest_in_error_stops_the_decision() {
    let latest = version("12.66");
    assert_eq!(check_for_update(&ManifestRead::Unreadable, &latest), Err(ManifestError::Io));
    assert_eq!(
        check_for_update(&ManifestRead::Text("## Title: ElvUI\n".to_string()), &latest),
        Err(ManifestError::NoVersionLine)
    );
    assert_eq!(
        check_for_update(&ManifestRead::Text("Version: 1..2".to_string()), &latest),
        Err(ManifestError::InvalidVersion(ParseError::EmptyComponent))
    );
}
