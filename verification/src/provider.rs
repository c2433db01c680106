//! The answer of the provider of releases, and what it is worth.
//!
//! The provider is asked once, over HTTPS, for the latest release. It
//! answers with a JSON object that names the version, the place of the
//! archive and the directories of the release. No answer, an answer that is
//! no success, and an answer that does not describe a release all end the
//! run: nothing is asked twice.

use crate::metadata::{names_of, release_of, MetadataError, Release, ReleaseMetadata};
use vstd::prelude::*;

verus! {

/// Where the provider is asked for the latest release.
pub const PROVIDER_URL: &'static str = "https://api.tukui.org/v1/addon/elvui";

/// The fields of the provider's answer that describe the release.
#[derive(Debug)]
pub struct Fields {
    pub version: String,
    pub url: String,
    pub directories: Vec<String>,
}

/// What came of asking the provider.
#[derive(Debug)]
pub enum ProviderReply {
    /// The request failed: no answer arrived.
    Unreachable,
    /// An answer arrived with the HTTP status `status`. `fields` is what
    /// its body holds, or `None` where the body is not the object that
    /// was expected.
    Answer { status: u16, fields: Option<Fields> },
}

/// Why the latest release is not known.
#[derive(Clone, Copy, Debug, PartialEq, Eq, Structural)]
pub enum FetchError {
    /// No answer arrived.
    Network,
    /// The provider answered with a status that is no success.
    Status(u16),
    /// The body of the answer is not the object that was expected.
    Malformed,
    /// The answer does not describe a release.
    Invalid(MetadataError),
}

/// Whether an HTTP status stands for success.
pub open spec fn is_success(status: u16) -> bool {
    200 <= status <= 299
}

/// The release that a reply describes, or why it describes none. The
/// status is looked at before the body.
pub open spec fn release_of_reply(reply: ProviderReply) -> Result<Release, FetchError> {
    match reply {
        ProviderReply::Unreachable => Err(FetchError::Network),
        ProviderReply::Answer { status, fields } => if !is_success(status) {
            Err(FetchError::Status(status))
        } else {
            match fields {
                None => Err(FetchError::Malformed),
                Some(f) => match release_of(f.version@, f.url@, names_of(f.directories@)) {
                    Ok(release) => Ok(release),
                    Err(e) => Err(FetchError::Invalid(e)),
                },
            }
        },
    }
}

/// Turns the provider's reply into the latest release, or into the error
/// that ends the run.
pub fn release_from_reply(reply: ProviderReply) -> (result: Result<ReleaseMetadata, FetchError>)
    ensures
        match result {
            Ok(metadata) => release_of_reply(reply) == Ok::<Release, FetchError>(metadata@),
            Err(e) => release_of_reply(reply) == Err::<Release, FetchError>(e),
        },
{
    match reply {
        ProviderReply::Unreachable => Err(FetchError::Network),
        ProviderReply::Answer { status, fields } => {
            if status < 200 || status > 299 {
                Err(FetchError::Status(status))
            } else {
                match fields {
                    None => Err(FetchError::Malformed),
                    Some(f) => match ReleaseMetadata::new(f.version.as_str(), f.url, f.directories) {
                        Ok(metadata) => Ok(metadata),
                        Err(e) => Err(FetchError::Invalid(e)),
                    },
                }
            }
        },
    }
}

} // verus!
