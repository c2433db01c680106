//! The installer: in which order a release is brought onto the disk, and
//! what is reported when a step fails.
//!
//! The installer touches nothing itself. It names the next action, the
//! caller performs it and answers whether it went well, and the installer
//! names the action after that. The archive is fetched and unpacked in a
//! scratch directory; then each directory of the release replaces the one
//! of the same name below the add-ons directory, in the order of the
//! release. Directories are replaced one by one: when one cannot be
//! replaced, those before it stay replaced, and the report says which.

use crate::metadata::{names_of, valid_directories, Release, ReleaseMetadata};
use vstd::prelude::*;

verus! {

/// What the name of the scratch directory begins with.
pub const SCRATCH_PREFIX: &'static str = "elvui-manager";

/// The name of the fetched archive inside the scratch directory.
pub const ARCHIVE_NAME: &'static str = "elvui.zip";

/// The name of the directory inside the scratch directory into which the
/// archive is unpacked.
pub const UNPACKED_NAME: &'static str = "elvui";

/// Why an installation did not succeed.
#[derive(Debug, PartialEq, Eq)]
pub enum InstallError {
    /// The add-ons directory does not exist or is no directory.
    TargetMissing,
    /// No scratch directory could be made.
    ScratchFailed,
    /// The archive could not be fetched into the scratch directory.
    DownloadFailed,
    /// The archive could not be unpacked.
    ExtractFailed,
    /// A directory could not be replaced. Those in `completed` hold the new
    /// release; those in `remaining`, the first of which is the one that
    /// failed, do not.
    PartialInstall { completed: Vec<String>, remaining: Vec<String> },
    /// Everything is installed, and the scratch directory could not be
    /// removed.
    CleanupFailed,
}

/// An `InstallError` as plain values.
pub enum Failure {
    TargetMissing,
    ScratchFailed,
    DownloadFailed,
    ExtractFailed,
    PartialInstall { completed: Seq<Seq<char>>, remaining: Seq<Seq<char>> },
    CleanupFailed,
}

impl View for InstallError {
    type V = Failure;

    open spec fn view(&self) -> Failure {
        match *self {
            InstallError::TargetMissing => Failure::TargetMissing,
            InstallError::ScratchFailed => Failure::ScratchFailed,
            InstallError::DownloadFailed => Failure::DownloadFailed,
            InstallError::ExtractFailed => Failure::ExtractFailed,
            InstallError::PartialInstall { completed, remaining } => Failure::PartialInstall {
                completed: names_of(completed@),
                remaining: names_of(remaining@),
            },
            InstallError::CleanupFailed => Failure::CleanupFailed,
        }
    }
}

/// The result of an installation as plain values.
pub open spec fn outcome_view(outcome: Result<(), InstallError>) -> Result<(), Failure> {
    match outcome {
        Ok(_) => Ok(()),
        Err(e) => Err(e@),
    }
}

/// What the caller is asked to do next. Every action is answered with yes
/// or no.
#[derive(Debug, PartialEq, Eq)]
pub enum Action {
    /// Is the add-ons directory there, and a directory?
    CheckTarget,
    /// Make a fresh scratch directory. Was it made?
    CreateScratch,
    /// Fetch the archive from `url` into the scratch directory. Is it there?
    Download { url: String },
    /// Unpack the archive inside the scratch directory. Is it unpacked?
    Extract,
    /// Is there a directory `name` below the add-ons directory?
    ProbeDestination { name: String },
    /// Remove the directory `name` below the add-ons directory, with all
    /// that it holds. Is it gone?
    RemoveDestination { name: String },
    /// Move the unpacked directory `name` below the add-ons directory. Is
    /// it in place?
    MoveIntoPlace { name: String },
    /// Remove the scratch directory. Is it gone?
    RemoveScratch,
    /// Nothing is left to do: this is the result of the installation.
    Finish(Result<(), InstallError>),
}

/// An `Action` as plain values.
pub enum Request {
    CheckTarget,
    CreateScratch,
    Download { url: Seq<char> },
    Extract,
    ProbeDestination { name: Seq<char> },
    RemoveDestination { name: Seq<char> },
    MoveIntoPlace { name: Seq<char> },
    RemoveScratch,
    Finish(Result<(), Failure>),
}

impl View for Action {
    type V = Request;

    open spec fn view(&self) -> Request {
        match *self {
            Action::CheckTarget => Request::CheckTarget,
            Action::CreateScratch => Request::CreateScratch,
            Action::Download { url } => Request::Download { url: url@ },
            Action::Extract => Request::Extract,
            Action::ProbeDestination { name } => Request::ProbeDestination { name: name@ },
            Action::RemoveDestination { name } => Request::RemoveDestination { name: name@ },
            Action::MoveIntoPlace { name } => Request::MoveIntoPlace { name: name@ },
            Action::RemoveScratch => Request::RemoveScratch,
            Action::Finish(outcome) => Request::Finish(outcome_view(outcome)),
        }
    }
}

/// How far an installation has come. The number in `Probe`, `Remove` and
/// `Move` is the place of the directory at hand in the release's list.
pub enum Phase {
    CheckTarget,
    CreateScratch,
    Download,
    Extract,
    Probe(nat),
    Remove(nat),
    Move(nat),
    /// The scratch directory is being removed; the result is known.
    Cleanup(Result<(), Failure>),
    /// The installation is over.
    Done(Result<(), Failure>),
}

/// The report of a directory that could not be replaced: the `k`
/// directories before it are done, it and those after it are not.
pub open spec fn partial_install(directories: Seq<Seq<char>>, k: nat) -> Failure {
    Failure::PartialInstall {
        completed: directories.take(k as int),
        remaining: directories.skip(k as int),
    }
}

/// The phase in which the scratch directory is given up with the result
/// `outcome`: it is removed first, unless it is to be kept.
pub open spec fn leave(outcome: Result<(), Failure>, keep_scratch: bool) -> Phase {
    if keep_scratch {
        Phase::Done(outcome)
    } else {
        Phase::Cleanup(outcome)
    }
}

/// The phase that follows `phase` when its action is answered with `ok`.
pub open spec fn next_phase(
    phase: Phase,
    ok: bool,
    directories: Seq<Seq<char>>,
    keep_scratch: bool,
) -> Phase {
    match phase {
        Phase::CheckTarget => if ok {
            Phase::CreateScratch
        } else {
            Phase::Done(Err(Failure::TargetMissing))
        },
        Phase::CreateScratch => if ok {
            Phase::Download
        } else {
            Phase::Done(Err(Failure::ScratchFailed))
        },
        Phase::Download => if ok {
            Phase::Extract
        } else {
            leave(Err(Failure::DownloadFailed), keep_scratch)
        },
        Phase::Extract => if ok {
            Phase::Probe(0)
        } else {
            leave(Err(Failure::ExtractFailed), keep_scratch)
        },
        Phase::Probe(k) => if ok {
            Phase::Remove(k)
        } else {
            Phase::Move(k)
        },
        Phase::Remove(k) => if ok {
            Phase::Move(k)
        } else {
            leave(Err(partial_install(directories, k)), keep_scratch)
        },
        Phase::Move(k) => if !ok {
            leave(Err(partial_install(directories, k)), keep_scratch)
        } else if k + 1 < directories.len() {
            Phase::Probe(k + 1)
        } else {
            leave(Ok(()), keep_scratch)
        },
        Phase::Cleanup(outcome) => if outcome is Ok && !ok {
            Phase::Done(Err(Failure::CleanupFailed))
        } else {
            Phase::Done(outcome)
        },
        Phase::Done(outcome) => Phase::Done(outcome),
    }
}

/// The action that a phase asks for.
pub open spec fn request_of(phase: Phase, release: Release) -> Request {
    match phase {
        Phase::CheckTarget => Request::CheckTarget,
        Phase::CreateScratch => Request::CreateScratch,
        Phase::Download => Request::Download { url: release.url },
        Phase::Extract => Request::Extract,
        Phase::Probe(k) => Request::ProbeDestination { name: release.directories[k as int] },
        Phase::Remove(k) => Request::RemoveDestination { name: release.directories[k as int] },
        Phase::Move(k) => Request::MoveIntoPlace { name: release.directories[k as int] },
        Phase::Cleanup(_) => Request::RemoveScratch,
        Phase::Done(outcome) => Request::Finish(outcome),
    }
}

/// Whether a phase speaks of a directory that the release has.
pub open spec fn phase_in_range(phase: Phase, count: nat) -> bool {
    match phase {
        Phase::Probe(k) => k < count,
        Phase::Remove(k) => k < count,
        Phase::Move(k) => k < count,
        _ => true,
    }
}

#[derive(Clone, Copy, Debug)]
enum Step {
    CheckTarget,
    CreateScratch,
    Download,
    Extract,
    Probe(usize),
    Remove(usize),
    Move(usize),
    Cleanup,
    Done,
}

/// An installation under way.
#[derive(Debug)]
pub struct Installer {
    metadata: ReleaseMetadata,
    keep_scratch: bool,
    step: Step,
    outcome: Result<(), InstallError>,
}

/// A copy of the strings of `names` from place `from` up to place `to`.
fn copy_names(names: &Vec<String>, from: usize, to: usize) -> (copy: Vec<String>)
    requires
        from <= to <= names.len(),
    ensures
        names_of(copy@) == names_of(names@).subrange(from as int, to as int),
{
    let mut copy: Vec<String> = Vec::new();
    let mut i: usize = from;
    while i < to
        invariant
            from <= i <= to <= names.len(),
            names_of(copy@) == names_of(names@).subrange(from as int, i as int),
        decreases to - i,
    {
        let ghost before = names_of(copy@);
        copy.push(names[i].clone());
        proof {
            assert(names_of(copy@) =~= before.push(names@[i as int]@));
            assert(names_of(names@).subrange(from as int, i + 1) =~= before.push(
                names@[i as int]@,
            ));
        }
        i += 1;
    }
    copy
}

/// A copy of a result.
fn copy_outcome(outcome: &Result<(), InstallError>) -> (copy: Result<(), InstallError>)
    ensures
        outcome_view(copy) == outcome_view(*outcome),
{
    match outcome {
        Ok(_) => Ok(()),
        Err(InstallError::TargetMissing) => Err(InstallError::TargetMissing),
        Err(InstallError::ScratchFailed) => Err(InstallError::ScratchFailed),
        Err(InstallError::DownloadFailed) => Err(InstallError::DownloadFailed),
        Err(InstallError::ExtractFailed) => Err(InstallError::ExtractFailed),
        Err(InstallError::CleanupFailed) => Err(InstallError::CleanupFailed),
        Err(InstallError::PartialInstall { completed, remaining }) => {
            let done = copy_names(completed, 0, completed.len());
            let left = copy_names(remaining, 0, remaining.len());
            proof {
                assert(names_of(completed@).subrange(0, completed@.len() as int) =~= names_of(
                    completed@,
                ));
                assert(names_of(remaining@).subrange(0, remaining@.len() as int) =~= names_of(
                    remaining@,
                ));
            }
            Err(InstallError::PartialInstall { completed: done, remaining: left })
        },
    }
}

impl Installer {
    #[verifier::type_invariant]
    spec fn in_range(self) -> bool {
        &&& phase_in_range(self.phase(), self.metadata@.directories.len())
        &&& self.outcome is Err ==> self.step is Cleanup || self.step is Done
    }

    /// How far the installation has come.
    pub closed spec fn phase(self) -> Phase {
        match self.step {
            Step::CheckTarget => Phase::CheckTarget,
            Step::CreateScratch => Phase::CreateScratch,
            Step::Download => Phase::Download,
            Step::Extract => Phase::Extract,
            Step::Probe(k) => Phase::Probe(k as nat),
            Step::Remove(k) => Phase::Remove(k as nat),
            Step::Move(k) => Phase::Move(k as nat),
            Step::Cleanup => Phase::Cleanup(outcome_view(self.outcome)),
            Step::Done => Phase::Done(outcome_view(self.outcome)),
        }
    }

    /// The release that is being installed.
    pub closed spec fn release(self) -> Release {
        self.metadata@
    }

    /// Whether the scratch directory is left on the disk at the end.
    pub closed spec fn keeps_scratch(self) -> bool {
        self.keep_scratch
    }

    /// Begins the installation of a release. Nothing has happened yet: the
    /// first action is to look at the add-ons directory. With
    /// `keep_scratch` the scratch directory is not removed at the end, so
    /// that it can be looked into.
    pub fn new(metadata: ReleaseMetadata, keep_scratch: bool) -> (installer: Installer)
        ensures
            installer.phase() == Phase::CheckTarget,
            installer.release() == metadata@,
            installer.keeps_scratch() == keep_scratch,
    {
        Installer { metadata, keep_scratch, step: Step::CheckTarget, outcome: Ok(()) }
    }

    /// The action that is due now.
    pub fn action(&self) -> (action: Action)
        ensures
            action@ == request_of(self.phase(), self.release()),
            valid_directories(self.release().directories),
            phase_in_range(self.phase(), self.release().directories.len()),
    {
        proof {
            use_type_invariant(self);
        }
        let directories = self.metadata.directories();
        assert(names_of(directories@).len() == directories@.len());
        match self.step {
            Step::CheckTarget => Action::CheckTarget,
            Step::CreateScratch => Action::CreateScratch,
            Step::Download => Action::Download { url: self.metadata.url().clone() },
            Step::Extract => Action::Extract,
            Step::Probe(k) => Action::ProbeDestination { name: directories[k].clone() },
            Step::Remove(k) => Action::RemoveDestination { name: directories[k].clone() },
            Step::Move(k) => Action::MoveIntoPlace { name: directories[k].clone() },
            Step::Cleanup => Action::RemoveScratch,
            Step::Done => Action::Finish(copy_outcome(&self.outcome)),
        }
    }

    /// Whether the installation is over.
    pub fn is_done(&self) -> (done: bool)
        ensures
            done == self.phase() is Done,
    {
        matches!(self.step, Step::Done)
    }

    /// Takes the answer to the action that was due and moves on to the
    /// next. Once the installation is over, answers change nothing.
    pub fn advance(&mut self, ok: bool)
        ensures
            final(self).phase() == next_phase(
                old(self).phase(),
                ok,
                old(self).release().directories,
                old(self).keeps_scratch(),
            ),
            final(self).release() == old(self).release(),
            final(self).keeps_scratch() == old(self).keeps_scratch(),
    {
        proof {
            use_type_invariant(&*self);
        }
        let last = if self.keep_scratch {
            Step::Done
        } else {
            Step::Cleanup
        };
        let directories = self.metadata.directories();
        let count = directories.len();
        assert(names_of(directories@).len() == directories@.len());
        let (step, failure): (Step, Option<InstallError>) = match self.step {
            Step::CheckTarget => if ok {
                (Step::CreateScratch, None)
            } else {
                (Step::Done, Some(InstallError::TargetMissing))
            },
            Step::CreateScratch => if ok {
                (Step::Download, None)
            } else {
                (Step::Done, Some(InstallError::ScratchFailed))
            },
            Step::Download => if ok {
                (Step::Extract, None)
            } else {
                (last, Some(InstallError::DownloadFailed))
            },
            Step::Extract => if ok {
                (Step::Probe(0), None)
            } else {
                (last, Some(InstallError::ExtractFailed))
            },
            Step::Probe(k) => if ok {
                (Step::Remove(k), None)
            } else {
                (Step::Move(k), None)
            },
            Step::Remove(k) => if ok {
                (Step::Move(k), None)
            } else {
                (last, Some(Self::stopped_at(directories, k)))
            },
            Step::Move(k) => if !ok {
                (last, Some(Self::stopped_at(directories, k)))
            } else if k + 1 < count {
                (Step::Probe(k + 1), None)
            } else {
                (last, None)
            },
            Step::Cleanup => if self.outcome.is_ok() && !ok {
                (Step::Done, Some(InstallError::CleanupFailed))
            } else {
                (Step::Done, None)
            },
            Step::Done => (Step::Done, None),
        };
        self.step = step;
        match failure {
            Some(e) => {
                self.outcome = Err(e);
            },
            None => {},
        }
    }

    /// The report of the directory at place `k` not having been replaced.
    fn stopped_at(directories: &Vec<String>, k: usize) -> (e: InstallError)
        requires
            k < directories.len(),
        ensures
            e@ == partial_install(names_of(directories@), k as nat),
    {
        let completed = copy_names(directories, 0, k);
        let remaining = copy_names(directories, k, directories.len());
        InstallError::PartialInstall { completed, remaining }
    }
}

} // verus!
