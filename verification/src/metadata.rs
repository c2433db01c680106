//! What the provider says of the latest release.

use crate::version::{parse_spec, ParseError, Version};
use vstd::prelude::*;

verus! {

/// Why a provider's answer does not describe a release.
#[derive(Clone, Copy, Debug, PartialEq, Eq, Structural)]
pub enum MetadataError {
    /// The version is no version.
    InvalidVersion(ParseError),
    /// The release names no directory.
    NoDirectories,
    /// The release names a directory twice.
    DuplicateDirectory,
}

/// The latest release: its version, where its archive is fetched from, and
/// the directories below the add-ons directory that it occupies, in the
/// order in which they are installed.
#[derive(Debug)]
pub struct ReleaseMetadata {
    version: Version,
    url: String,
    directories: Vec<String>,
}

/// A release as plain values.
pub struct Release {
    pub version: Seq<nat>,
    pub url: Seq<char>,
    pub directories: Seq<Seq<char>>,
}

/// The names that a vector of strings holds.
pub open spec fn names_of(strings: Seq<String>) -> Seq<Seq<char>> {
    strings.map_values(|s: String| s@)
}

/// Whether a list of directory names can belong to a release: it holds at
/// least one name and none twice.
pub open spec fn valid_directories(names: Seq<Seq<char>>) -> bool {
    names.len() > 0 && names.no_duplicates()
}

/// The release that a provider's answer describes, or what is wrong with
/// it. The version is looked at first, then the directories.
pub open spec fn release_of(
    version: Seq<char>,
    url: Seq<char>,
    directories: Seq<Seq<char>>,
) -> Result<Release, MetadataError> {
    match parse_spec(version) {
        Err(e) => Err(MetadataError::InvalidVersion(e)),
        Ok(parsed) => if directories.len() == 0 {
            Err(MetadataError::NoDirectories)
        } else if !directories.no_duplicates() {
            Err(MetadataError::DuplicateDirectory)
        } else {
            Ok(Release { version: parsed, url, directories })
        },
    }
}

/// Whether the strings of `names` differ from each other.
fn all_distinct(names: &Vec<String>) -> (distinct: bool)
    ensures
        distinct == names_of(names@).no_duplicates(),
{
    let mut i: usize = 0;
    while i < names.len()
        invariant
            i <= names.len(),
            forall|a: int, b: int| 0 <= a < b < i ==> names_of(names@)[a] != names_of(names@)[b],
        decreases names.len() - i,
    {
        let mut j: usize = 0;
        while j < i
            invariant
                j <= i < names.len(),
                forall|a: int| 0 <= a < j ==> names_of(names@)[a] != names_of(names@)[i as int],
            decreases i - j,
        {
            if names[j] == names[i] {
                proof {
                    assert(names_of(names@)[j as int] == names_of(names@)[i as int]);
                }
                return false;
            }
            j += 1;
        }
        i += 1;
    }
    true
}

impl View for ReleaseMetadata {
    type V = Release;

    closed spec fn view(&self) -> Release {
        Release {
            version: self.version@,
            url: self.url@,
            directories: names_of(self.directories@),
        }
    }
}

impl ReleaseMetadata {
    #[verifier::type_invariant]
    spec fn well_formed(self) -> bool {
        valid_directories(names_of(self.directories@))
    }

    /// Checks a provider's answer and keeps it. The version must be a
    /// version; there must be at least one directory, and no directory may
    /// be named twice.
    pub fn new(version: &str, url: String, directories: Vec<String>) -> (result: Result<
        ReleaseMetadata,
        MetadataError,
    >)
        ensures
            match result {
                Ok(metadata) => release_of(version@, url@, names_of(directories@)) == Ok::<
                    Release,
                    MetadataError,
                >(metadata@),
                Err(e) => release_of(version@, url@, names_of(directories@)) == Err::<
                    Release,
                    MetadataError,
                >(e),
            },
    {
        match Version::parse(version) {
            Err(e) => Err(MetadataError::InvalidVersion(e)),
            Ok(parsed) => {
                if directories.len() == 0 {
                    Err(MetadataError::NoDirectories)
                } else if !all_distinct(&directories) {
                    Err(MetadataError::DuplicateDirectory)
                } else {
                    Ok(ReleaseMetadata { version: parsed, url, directories })
                }
            },
        }
    }

    /// The version of the release.
    pub fn version(&self) -> (version: &Version)
        ensures
            version@ == self@.version,
    {
        &self.version
    }

    /// Where the archive of the release is fetched from.
    pub fn url(&self) -> (url: &String)
        ensures
            url@ == self@.url,
    {
        &self.url
    }

    /// The directories of the release, in the order of their installation:
    /// at least one, and none twice.
    pub fn directories(&self) -> (directories: &Vec<String>)
        ensures
            names_of(directories@) == self@.directories,
            valid_directories(self@.directories),
    {
        proof {
            use_type_invariant(self);
        }
        &self.directories
    }
}

} // verus!
