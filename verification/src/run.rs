//! What an installation comes to.
//!
//! The installer asks one thing of the disk or the network at a time. Here
//! stands what all its questions and their answers add up to: the result
//! of an installation, given how each action would go.

use crate::installer::{leave, next_phase, partial_install, phase_in_range, Failure, Phase};
use vstd::prelude::*;

verus! {

/// How the replacing of one directory would go.
pub struct Swap {
    /// There is a directory of that name below the add-ons directory.
    pub exists: bool,
    /// That directory can be removed.
    pub removed: bool,
    /// The unpacked directory can be moved into its place.
    pub moved: bool,
}

/// How every action of an installation would go.
pub struct Environment {
    pub target_is_directory: bool,
    pub scratch_created: bool,
    pub downloaded: bool,
    pub extracted: bool,
    /// One entry for each directory of the release, in its order.
    pub swaps: Seq<Swap>,
    pub scratch_removed: bool,
}

/// Whether a directory gets replaced: what is in its place can be removed,
/// and the new one can be moved in.
pub open spec fn swap_succeeds(swap: Swap) -> bool {
    (swap.exists ==> swap.removed) && swap.moved
}

/// Whether the directory at place `k` cannot be replaced.
pub open spec fn fails_at(env: Environment, k: int) -> bool {
    0 <= k < env.swaps.len() && !swap_succeeds(env.swaps[k])
}

/// Whether the directory at place `k` is the first that cannot be replaced.
pub open spec fn is_first_failure(env: Environment, k: int) -> bool {
    &&& fails_at(env, k)
    &&& forall|j: int| 0 <= j < k ==> !fails_at(env, j)
}

/// The place of the first directory that cannot be replaced, if there is
/// one.
pub open spec fn first_failure(env: Environment) -> Option<int> {
    if exists|k: int| is_first_failure(env, k) {
        Some(choose|k: int| is_first_failure(env, k))
    } else {
        None
    }
}

/// What becomes of a result when the scratch directory is given up: a
/// success turns into a failure where the scratch directory was to be
/// removed and could not be; a failure stays what it is.
pub open spec fn after_cleanup(
    outcome: Result<(), Failure>,
    env: Environment,
    keep_scratch: bool,
) -> Result<(), Failure> {
    if outcome is Ok && !keep_scratch && !env.scratch_removed {
        Err(Failure::CleanupFailed)
    } else {
        outcome
    }
}

/// The result of replacing the directories, the scratch directory given
/// up: the report of the first directory that cannot be replaced, else
/// success.
pub open spec fn swap_result(
    env: Environment,
    directories: Seq<Seq<char>>,
    keep_scratch: bool,
) -> Result<(), Failure> {
    match first_failure(env) {
        Some(k) => Err(partial_install(directories, k as nat)),
        None => after_cleanup(Ok(()), env, keep_scratch),
    }
}

/// The result of an installation. The add-ons directory must be there;
/// then a scratch directory must be made, the archive fetched and
/// unpacked; then every directory must be replaced. The first of these to
/// fail decides the error.
pub open spec fn install_result(
    env: Environment,
    directories: Seq<Seq<char>>,
    keep_scratch: bool,
) -> Result<(), Failure> {
    if !env.target_is_directory {
        Err(Failure::TargetMissing)
    } else if !env.scratch_created {
        Err(Failure::ScratchFailed)
    } else if !env.downloaded {
        Err(Failure::DownloadFailed)
    } else if !env.extracted {
        Err(Failure::ExtractFailed)
    } else {
        swap_result(env, directories, keep_scratch)
    }
}

/// The answer that the action of `phase` gets.
pub open spec fn answer(env: Environment, phase: Phase) -> bool {
    match phase {
        Phase::CheckTarget => env.target_is_directory,
        Phase::CreateScratch => env.scratch_created,
        Phase::Download => env.downloaded,
        Phase::Extract => env.extracted,
        Phase::Probe(k) => env.swaps[k as int].exists,
        Phase::Remove(k) => env.swaps[k as int].removed,
        Phase::Move(k) => env.swaps[k as int].moved,
        Phase::Cleanup(_) => env.scratch_removed,
        Phase::Done(_) => true,
    }
}

/// The phase that is reached from `phase` after `steps` actions and their
/// answers.
pub open spec fn run(
    phase: Phase,
    env: Environment,
    directories: Seq<Seq<char>>,
    keep_scratch: bool,
    steps: nat,
) -> Phase
    decreases steps,
{
    if steps == 0 {
        phase
    } else {
        run(
            next_phase(phase, answer(env, phase), directories, keep_scratch),
            env,
            directories,
            keep_scratch,
            (steps - 1) as nat,
        )
    }
}

/// How many actions a phase can still be followed by, at most.
pub open spec fn steps_left(phase: Phase, count: nat) -> nat {
    match phase {
        Phase::CheckTarget => 3 * count + 5,
        Phase::CreateScratch => 3 * count + 4,
        Phase::Download => 3 * count + 3,
        Phase::Extract => 3 * count + 2,
        Phase::Probe(k) => (3 * (count - k) + 1) as nat,
        Phase::Remove(k) => (3 * (count - k)) as nat,
        Phase::Move(k) => (3 * (count - k) - 1) as nat,
        Phase::Cleanup(_) => 1,
        Phase::Done(_) => 0,
    }
}

/// Whether the scratch directory is on the disk during a phase.
pub open spec fn holds_scratch(phase: Phase) -> bool {
    match phase {
        Phase::CheckTarget => false,
        Phase::CreateScratch => false,
        Phase::Done(_) => false,
        _ => true,
    }
}

/// Every answer brings the installation nearer to its end: whatever the
/// answers are, it is over after three actions for each directory and five
/// more.
pub proof fn lemma_every_step_counts(
    phase: Phase,
    ok: bool,
    directories: Seq<Seq<char>>,
    keep_scratch: bool,
)
    requires
        directories.len() > 0,
        phase_in_range(phase, directories.len()),
        !(phase is Done),
    ensures
        phase_in_range(next_phase(phase, ok, directories, keep_scratch), directories.len()),
        steps_left(next_phase(phase, ok, directories, keep_scratch), directories.len())
            < steps_left(phase, directories.len()),
{
}

/// Where the add-ons directory is missing the installation is over at
/// once: no scratch directory is made and nothing is fetched.
pub proof fn lemma_missing_target_ends_at_once(directories: Seq<Seq<char>>, keep_scratch: bool)
    ensures
        next_phase(Phase::CheckTarget, false, directories, keep_scratch) == Phase::Done(
            Err(Failure::TargetMissing),
        ),
{
}

/// The scratch directory comes into being when `CreateScratch` is answered
/// with yes. From then on the installation cannot end but through
/// `Cleanup`, whatever fails, unless the scratch directory is to be kept.
pub proof fn lemma_scratch_is_given_up(
    phase: Phase,
    ok: bool,
    directories: Seq<Seq<char>>,
    keep_scratch: bool,
)
    requires
        !keep_scratch,
    ensures
        holds_scratch(next_phase(phase, ok, directories, keep_scratch)) <==> (holds_scratch(phase)
            && !(phase is Cleanup)) || (phase is CreateScratch && ok),
        holds_scratch(phase) && next_phase(phase, ok, directories, keep_scratch) is Done
            ==> phase is Cleanup,
{
}

/// A directory that cannot be replaced is reported with all directories of
/// the release: those before it, in their order, then it and those after
/// it.
pub proof fn lemma_partial_install_names_all(directories: Seq<Seq<char>>, k: nat)
    requires
        k < directories.len(),
    ensures
        partial_install(directories, k) matches Failure::PartialInstall { completed, remaining }
            && completed + remaining == directories && completed.len() == k && remaining[0]
            == directories[k as int],
{
    assert(directories.take(k as int) + directories.skip(k as int) =~= directories);
}

proof fn lemma_run_done(
    outcome: Result<(), Failure>,
    env: Environment,
    directories: Seq<Seq<char>>,
    keep_scratch: bool,
    steps: nat,
)
    ensures
        run(Phase::Done(outcome), env, directories, keep_scratch, steps) == Phase::Done(outcome),
    decreases steps,
{
    if steps > 0 {
        lemma_run_done(outcome, env, directories, keep_scratch, (steps - 1) as nat);
    }
}

proof fn lemma_run_leave(
    outcome: Result<(), Failure>,
    env: Environment,
    directories: Seq<Seq<char>>,
    keep_scratch: bool,
    steps: nat,
)
    requires
        steps >= 1,
    ensures
        run(leave(outcome, keep_scratch), env, directories, keep_scratch, steps) == Phase::Done(
            after_cleanup(outcome, env, keep_scratch),
        ),
{
    if keep_scratch {
        lemma_run_done(outcome, env, directories, keep_scratch, steps);
    } else {
        lemma_run_done(
            after_cleanup(outcome, env, keep_scratch),
            env,
            directories,
            keep_scratch,
            (steps - 1) as nat,
        );
    }
}

proof fn lemma_first_failure_is(env: Environment, k: int)
    requires
        is_first_failure(env, k),
    ensures
        first_failure(env) == Some(k),
{
    let chosen = choose|i: int| is_first_failure(env, i);
    if chosen < k {
        assert(!fails_at(env, chosen));
    } else if k < chosen {
        assert(!fails_at(env, k));
    }
}

proof fn lemma_run_swaps(
    env: Environment,
    directories: Seq<Seq<char>>,
    keep_scratch: bool,
    k: nat,
    steps: nat,
)
    requires
        k < directories.len(),
        env.swaps.len() == directories.len(),
        forall|j: int| 0 <= j < k ==> !fails_at(env, j),
        steps >= 3 * (directories.len() - k) + 1,
    ensures
        run(Phase::Probe(k), env, directories, keep_scratch, steps) == Phase::Done(
            swap_result(env, directories, keep_scratch),
        ),
    decreases directories.len() - k,
{
    let swap = env.swaps[k as int];
    let stopped = Err(partial_install(directories, k));
    // the phase in which the directory is moved, and the steps left then
    let at_move = if swap.exists {
        (steps - 2) as nat
    } else {
        (steps - 1) as nat
    };
    assert(run(Phase::Probe(k), env, directories, keep_scratch, steps) == run(
        if swap.exists {
            Phase::Remove(k)
        } else {
            Phase::Move(k)
        },
        env,
        directories,
        keep_scratch,
        (steps - 1) as nat,
    ));
    if !swap_succeeds(swap) {
        assert(is_first_failure(env, k as int));
        lemma_first_failure_is(env, k as int);
        assert(after_cleanup(stopped, env, keep_scratch) == stopped);
        if swap.exists && !swap.removed {
            lemma_run_leave(stopped, env, directories, keep_scratch, at_move);
            assert(run(Phase::Remove(k), env, directories, keep_scratch, (steps - 1) as nat)
                == run(leave(stopped, keep_scratch), env, directories, keep_scratch, at_move));
        } else {
            if swap.exists {
                assert(run(Phase::Remove(k), env, directories, keep_scratch, (steps - 1) as nat)
                    == run(Phase::Move(k), env, directories, keep_scratch, at_move));
            }
            lemma_run_leave(stopped, env, directories, keep_scratch, (at_move - 1) as nat);
            assert(run(Phase::Move(k), env, directories, keep_scratch, at_move) == run(
                leave(stopped, keep_scratch),
                env,
                directories,
                keep_scratch,
                (at_move - 1) as nat,
            ));
        }
    } else {
        if swap.exists {
            assert(run(Phase::Remove(k), env, directories, keep_scratch, (steps - 1) as nat)
                == run(Phase::Move(k), env, directories, keep_scratch, at_move));
        }
        if k + 1 < directories.len() {
            assert(run(Phase::Move(k), env, directories, keep_scratch, at_move) == run(
                Phase::Probe(k + 1),
                env,
                directories,
                keep_scratch,
                (at_move - 1) as nat,
            ));
            lemma_run_swaps(env, directories, keep_scratch, k + 1, (at_move - 1) as nat);
        } else {
            assert(run(Phase::Move(k), env, directories, keep_scratch, at_move) == run(
                leave(Ok(()), keep_scratch),
                env,
                directories,
                keep_scratch,
                (at_move - 1) as nat,
            ));
            lemma_run_leave(Ok(()), env, directories, keep_scratch, (at_move - 1) as nat);
            if exists|i: int| is_first_failure(env, i) {
                let i = choose|i: int| is_first_failure(env, i);
                assert(fails_at(env, i));
            }
        }
    }
}

/// The installer does what an installation is: asked its questions one by
/// one, and answered as the environment would answer, it ends with the
/// result of the installation, after no more than three actions for each
/// directory and five more.
pub proof fn lemma_installer_gives_install_result(
    env: Environment,
    directories: Seq<Seq<char>>,
    keep_scratch: bool,
    steps: nat,
)
    requires
        directories.len() > 0,
        env.swaps.len() == directories.len(),
        steps >= steps_left(Phase::CheckTarget, directories.len()),
    ensures
        run(Phase::CheckTarget, env, directories, keep_scratch, steps) == Phase::Done(
            install_result(env, directories, keep_scratch),
        ),
{
    let n = directories.len();
    let s1 = (steps - 1) as nat;
    let s2 = (steps - 2) as nat;
    let s3 = (steps - 3) as nat;
    let s4 = (steps - 4) as nat;
    assert(run(Phase::CheckTarget, env, directories, keep_scratch, steps) == run(
        next_phase(Phase::CheckTarget, env.target_is_directory, directories, keep_scratch),
        env,
        directories,
        keep_scratch,
        s1,
    ));
    if !env.target_is_directory {
        lemma_run_done(Err(Failure::TargetMissing), env, directories, keep_scratch, s1);
    } else {
        assert(run(Phase::CreateScratch, env, directories, keep_scratch, s1) == run(
            next_phase(Phase::CreateScratch, env.scratch_created, directories, keep_scratch),
            env,
            directories,
            keep_scratch,
            s2,
        ));
        if !env.scratch_created {
            lemma_run_done(Err(Failure::ScratchFailed), env, directories, keep_scratch, s2);
        } else {
            assert(run(Phase::Download, env, directories, keep_scratch, s2) == run(
                next_phase(Phase::Download, env.downloaded, directories, keep_scratch),
                env,
                directories,
                keep_scratch,
                s3,
            ));
            if !env.downloaded {
                lemma_run_leave(Err(Failure::DownloadFailed), env, directories, keep_scratch, s3);
            } else {
                assert(run(Phase::Extract, env, directories, keep_scratch, s3) == run(
                    next_phase(Phase::Extract, env.extracted, directories, keep_scratch),
                    env,
                    directories,
                    keep_scratch,
                    s4,
                ));
                if !env.extracted {
                    lemma_run_leave(
                        Err(Failure::ExtractFailed),
                        env,
                        directories,
                        keep_scratch,
                        s4,
                    );
                } else {
                    lemma_run_swaps(env, directories, keep_scratch, 0, s4);
                }
            }
        }
    }
}

} // verus!
