//! Whether an update is due.

use crate::manifest::{installed_version_of, read_installed_version, ManifestError, ManifestRead};
use crate::order::{lemma_compare_antisymmetric, lemma_compare_reflexive, ordering_of};
use crate::version::{parse_spec, Version};
use vstd::prelude::*;

verus! {

/// Whether the latest release must be installed: always where nothing is
/// installed, else only where the installed version is older.
pub open spec fn update_due(installed: Option<Seq<nat>>, latest: Seq<nat>) -> bool {
    match installed {
        None => true,
        Some(version) => ordering_of(version, latest) is Less,
    }
}

/// Whether an update is due, given what came of reading the manifest. The
/// errors of the manifest are errors here.
pub open spec fn update_due_for(read: ManifestRead, latest: Seq<nat>) -> Result<
    bool,
    ManifestError,
> {
    match installed_version_of(read) {
        Err(e) => Err(e),
        Ok(None) => Ok(true),
        Ok(Some(text)) => Ok(update_due(Some(parse_spec(text).unwrap()), latest)),
    }
}

/// Decides whether to install the latest release. Nothing installed: yes.
/// Installed and older than the latest: yes. Installed and the same or
/// newer: no, so nothing is installed twice and nothing is downgraded.
pub fn needs_update(installed: Option<&Version>, latest: &Version) -> (due: bool)
    ensures
        due == update_due(
            match installed {
                Some(version) => Some(version@),
                None => None,
            },
            latest@,
        ),
{
    match installed {
        None => true,
        Some(version) => matches!(version.compare(latest), std::cmp::Ordering::Less),
    }
}

/// Decides whether to install the latest release from what came of reading
/// the manifest: a missing manifest means yes, a manifest in error is an
/// error, and otherwise the versions decide.
pub fn check_for_update(read: &ManifestRead, latest: &Version) -> (result: Result<
    bool,
    ManifestError,
>)
    ensures
        result == update_due_for(*read, latest@),
{
    match read_installed_version(read) {
        Err(e) => Err(e),
        Ok(None) => Ok(true),
        Ok(Some(text)) => match Version::parse(text.as_str()) {
            Ok(installed) => Ok(needs_update(Some(&installed), latest)),
            Err(e) => Err(ManifestError::InvalidVersion(e)),
        },
    }
}

/// Where nothing is installed an update is always due.
pub proof fn lemma_nothing_installed_needs_update(latest: Seq<nat>)
    ensures
        update_due(None, latest),
{
}

/// Where the latest version is installed no update is due.
pub proof fn lemma_same_version_needs_no_update(version: Seq<nat>)
    ensures
        !update_due(Some(version), version),
{
    lemma_compare_reflexive(version);
}

/// An update is due for one of two versions at most: where `a` calls for
/// an update to `b`, `b` calls for none to `a`.
pub proof fn lemma_never_both_ways(a: Seq<nat>, b: Seq<nat>)
    requires
        update_due(Some(a), b),
    ensures
        !update_due(Some(b), a),
{
    lemma_compare_antisymmetric(a, b);
}

/// A missing manifest always leads to an installation.
pub proof fn lemma_missing_manifest_needs_update(latest: Seq<nat>)
    ensures
        update_due_for(ManifestRead::Missing, latest) == Ok::<bool, ManifestError>(true),
{
}

} // verus!
