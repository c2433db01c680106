use elvui_manager::metadata::MetadataError;
use elvui_manager::provider::{
    release_from_reply, FetchError, Fields, ProviderReply, PROVIDER_URL,
};
use elvui_manager::version::ParseError;

fn fields(version: &str, directories: &[&str]) -> Option<Fields> {
    Some(Fields {
        version: version.to_string(),
        url: "https://example.invalid/elvui.zip".to_string(),
        directories: directories.iter().map(|s| s.to_string()).collect(),
    })
}

#[test]
fn provider_is_asked_at_its_fixed_address() {
    assert_eq!(PROVIDER_URL, "https://api.tukui.org/v1/addon/elvui");
}

#[test]
fn successful_answer_gives_the_release() {
    let reply = ProviderReply::Answer { status: 200, fields: fields("12.66", &["A", "B"]) };
    let release = release_from_reply(reply).unwrap();
    assert_eq!(release.url(), "https://example.invalid/elvui.zip");
    assert_eq!(release.directories(), &vec!["A".to_string(), "B".to_string()]);
    assert_eq!(release.version().len(), 2);
    assert_eq!(release.version().component(0), 12);
    assert_eq!(release.version().component(1), 66);
}

#[test]
fn every_status_from_200_to_299_is_a_success() {
    for status in [200u16, 204, 299] {
        let reply = ProviderReply::Answer { status, fields: fields("1", &["A"]) };
        assert!(release_from_reply(reply).is_ok());
    }
}

#[test]
fn no_answer_is_a_network_error() {
    assert_eq!(release_from_reply(ProviderReply::Unreachable).err(), Some(FetchError::Network));
}

#[test]
fn status_that_is_no_success_is_an_error() {
    for status in [0u16, 199, 300, 404, 500, u16::MAX] {
        let reply = ProviderReply::Answer { status, fields: fields("12.66", &["A"]) };
        assert_eq!(release_from_reply(reply).err(), Some(FetchError::Status(status)));
    }
}

#[test]
fn status_is_looked_at_before_the_body() {
    let reply = ProviderReply::Answer { status: 404, fields: None };
    assert_eq!(release_from_reply(reply).err(), Some(FetchError::Status(404)));
}

#[test]
fn unexpected_body_is_malformed() {
    let reply = ProviderReply::Answer { status: 200, fields: None };
    assert_eq!(release_from_reply(reply).err(), Some(FetchError::Malformed));
}

#[test]
fn answer_that_describes_no_release_is_invalid() {
    let reply = ProviderReply::Answer { status: 200, fields: fields("12.x", &["A"]) };
    assert_eq!(
        release_from_reply(reply).err(),
        Some(FetchError::Invalid(MetadataError::InvalidVersion(ParseError::NotNumeric)))
    );
    let reply = ProviderReply::Answer { status: 200, fields: fields("12.66", &[]) };
    assert_eq!(
        release_from_reply(reply).err(),
        Some(FetchError::Invalid(MetadataError::NoDirectories))
    );
    let reply = ProviderReply::Answer { status: 200, fields: fields("12.66", &["A", "A"]) };
    assert_eq!(
        release_from_reply(reply).err(),
        Some(FetchError::Invalid(MetadataError::DuplicateDirectory))
    );
}
