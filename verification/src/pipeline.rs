//! The run pipeline as a state machine. The caller owns the outside world:
//! it performs the action each step names (create and enter the temporary
//! directory, run the toolchain's project-initialization, dependency-add and
//! build-and-run steps, write project files, restore the prior working
//! directory) and reports what happened as an `Event`. The machine decides
//! what follows. Its contracts pin the whole transition table; the lemmas
//! below state the two guarantees the pipeline is built around: the prior
//! working context is always restored once it was changed, and a failing
//! dependency-add never aborts the run.

use vstd::prelude::*;

verus! {

/// A fatal pipeline error, surfaced after cleanup.
#[derive(Debug, Clone, Copy, PartialEq, Eq, Structural)]
pub enum PipelineError {
    /// The temporary directory could not be created, entered or left.
    Environment,
    /// The project-initialization step reported a non-success status.
    InitFailed,
    /// A project file could not be written, or a toolchain step could not be
    /// started.
    Io,
    /// The build-and-run step reported a non-success status.
    RunFailed,
}

/// The pipeline's steps, in the order a run moves through them. Every step
/// except `Done` names one action for the caller to perform.
#[derive(Debug, Clone, Copy, PartialEq, Eq)]
pub enum Step {
    /// Create the uniquely named temporary directory and remember the prior
    /// working directory.
    CreateTempDir,
    /// Switch the process's working context into the temporary directory.
    EnterTempDir,
    /// Invoke the toolchain's project-initialization step.
    InitProject,
    /// Look for the optional build-cache accelerator on the host.
    ProbeCache,
    /// Write the wrapper configuration pointing the compiler invocation
    /// through the accelerator.
    WriteCacheConfig,
    /// Replace the generated entry-point file with the original source text.
    WriteSource,
    /// Write the toolchain-version pin file.
    WritePin,
    /// Invoke the dependency-add step for the dependency at index `next`.
    AddDep { next: usize },
    /// Invoke the toolchain's build-and-run step.
    RunProgram,
    /// Restore the prior working context; `outcome` is the result so far,
    /// held back until the context is restored.
    Restore { outcome: Option<PipelineError> },
    /// The pipeline is finished; the temporary directory may be removed.
    Done { outcome: Option<PipelineError> },
}

/// What the caller observed when performing a step's action.
#[derive(Debug, Clone, Copy, PartialEq, Eq)]
pub enum Event {
    /// The action ran and reported success.
    Succeeded,
    /// The action ran and reported a non-success status.
    Failed,
    /// The action could not be performed at all.
    IoError,
    /// The accelerator was found on the host.
    CacheFound,
    /// The accelerator is absent from the host.
    CacheMissing,
}

/// The events a step's action can report.
pub open spec fn step_accepts(s: Step, e: Event) -> bool {
    match s {
        Step::CreateTempDir => e is Succeeded || e is IoError,
        Step::EnterTempDir => e is Succeeded || e is IoError,
        Step::InitProject => e is Succeeded || e is Failed || e is IoError,
        Step::ProbeCache => e is CacheFound || e is CacheMissing,
        Step::WriteCacheConfig => e is Succeeded || e is IoError,
        Step::WriteSource => e is Succeeded || e is IoError,
        Step::WritePin => e is Succeeded || e is IoError,
        Step::AddDep { .. } => e is Succeeded || e is Failed || e is IoError,
        Step::RunProgram => e is Succeeded || e is Failed || e is IoError,
        Step::Restore { .. } => e is Succeeded || e is IoError,
        Step::Done { .. } => false,
    }
}

/// A step is meaningful for a run with `n_deps` dependencies.
pub open spec fn step_wf(s: Step, n_deps: nat) -> bool {
    match s {
        Step::AddDep { next } => (next as nat) < n_deps,
        _ => true,
    }
}

/// The whole transition table. Failures before the working context is
/// changed finish directly; every failure after that point is carried into
/// `Restore`, so cleanup is never skipped. A failed dependency-add moves on
/// exactly as a successful one.
pub open spec fn spec_step(s: Step, e: Event, n_deps: nat) -> Step {
    match s {
        Step::CreateTempDir => match e {
            Event::Succeeded => Step::EnterTempDir,
            _ => Step::Done { outcome: Option::Some(PipelineError::Environment) },
        },
        Step::EnterTempDir => match e {
            Event::Succeeded => Step::InitProject,
            _ => Step::Done { outcome: Option::Some(PipelineError::Environment) },
        },
        Step::InitProject => match e {
            Event::Succeeded => Step::ProbeCache,
            Event::Failed => Step::Restore { outcome: Option::Some(PipelineError::InitFailed) },
            _ => Step::Restore { outcome: Option::Some(PipelineError::Io) },
        },
        Step::ProbeCache => match e {
            Event::CacheFound => Step::WriteCacheConfig,
            _ => Step::WriteSource,
        },
        Step::WriteCacheConfig => match e {
            Event::Succeeded => Step::WriteSource,
            _ => Step::Restore { outcome: Option::Some(PipelineError::Io) },
        },
        Step::WriteSource => match e {
            Event::Succeeded => Step::WritePin,
            _ => Step::Restore { outcome: Option::Some(PipelineError::Io) },
        },
        Step::WritePin => match e {
            Event::Succeeded => if n_deps > 0 {
                Step::AddDep { next: 0 }
            } else {
                Step::RunProgram
            },
            _ => Step::Restore { outcome: Option::Some(PipelineError::Io) },
        },
        Step::AddDep { next } => match e {
            Event::IoError => Step::Restore { outcome: Option::Some(PipelineError::Io) },
            _ => if (next as nat) + 1 < n_deps {
                Step::AddDep { next: (next + 1) as usize }
            } else {
                Step::RunProgram
            },
        },
        Step::RunProgram => match e {
            Event::Succeeded => Step::Restore { outcome: Option::None },
            Event::Failed => Step::Restore { outcome: Option::Some(PipelineError::RunFailed) },
            _ => Step::Restore { outcome: Option::Some(PipelineError::Io) },
        },
        Step::Restore { outcome } => match e {
            Event::Succeeded => Step::Done { outcome },
            _ => Step::Done { outcome: Option::Some(PipelineError::Environment) },
        },
        Step::Done { outcome } => Step::Done { outcome },
    }
}

impl Step {
    /// Advance the pipeline by one observed event.
    pub fn step(self, e: Event, n_deps: usize) -> (r: Step)
        requires
            step_wf(self, n_deps as nat),
            step_accepts(self, e),
        ensures
            r == spec_step(self, e, n_deps as nat),
            step_wf(r, n_deps as nat),
    {
        match self {
            Step::CreateTempDir => match e {
                Event::Succeeded => Step::EnterTempDir,
                _ => Step::Done { outcome: Option::Some(PipelineError::Environment) },
            },
            Step::EnterTempDir => match e {
                Event::Succeeded => Step::InitProject,
                _ => Step::Done { outcome: Option::Some(PipelineError::Environment) },
            },
            Step::InitProject => match e {
                Event::Succeeded => Step::ProbeCache,
                Event::Failed => Step::Restore {
                    outcome: Option::Some(PipelineError::InitFailed),
                },
                _ => Step::Restore { outcome: Option::Some(PipelineError::Io) },
            },
            Step::ProbeCache => match e {
                Event::CacheFound => Step::WriteCacheConfig,
                _ => Step::WriteSource,
            },
            Step::WriteCacheConfig => match e {
                Event::Succeeded => Step::WriteSource,
                _ => Step::Restore { outcome: Option::Some(PipelineError::Io) },
            },
            Step::WriteSource => match e {
                Event::Succeeded => Step::WritePin,
                _ => Step::Restore { outcome: Option::Some(PipelineError::Io) },
            },
            Step::WritePin => match e {
                Event::Succeeded => if n_deps > 0 {
                    Step::AddDep { next: 0 }
                } else {
                    Step::RunProgram
                },
                _ => Step::Restore { outcome: Option::Some(PipelineError::Io) },
            },
            Step::AddDep { next } => match e {
                Event::IoError => Step::Restore { outcome: Option::Some(PipelineError::Io) },
                _ => if next + 1 < n_deps {
                    Step::AddDep { next: next + 1 }
                } else {
                    Step::RunProgram
                },
            },
            Step::RunProgram => match e {
                Event::Succeeded => Step::Restore { outcome: Option::None },
                Event::Failed => Step::Restore {
                    outcome: Option::Some(PipelineError::RunFailed),
                },
                _ => Step::Restore { outcome: Option::Some(PipelineError::Io) },
            },
            Step::Restore { outcome } => match e {
                Event::Succeeded => Step::Done { outcome },
                _ => Step::Done { outcome: Option::Some(PipelineError::Environment) },
            },
            Step::Done { outcome } => Step::Done { outcome },
        }
    }

}

impl PipelineError {
    /// A human-readable description of a fatal outcome.
    pub fn message(&self) -> (m: String)
        ensures
            self is Environment ==> m@ == "failed to manage the temporary directory."@,
            self is InitFailed ==> m@ == "failed to init cargo project."@,
            self is Io ==> m@ == "failed to write the project files."@,
            self is RunFailed ==> m@ == "failed to run the program."@,
    {
        match self {
            PipelineError::Environment => "failed to manage the temporary directory.".to_owned(),
            PipelineError::InitFailed => "failed to init cargo project.".to_owned(),
            PipelineError::Io => "failed to write the project files.".to_owned(),
            PipelineError::RunFailed => "failed to run the program.".to_owned(),
        }
    }
}

/// The working context has been switched into the temporary directory and
/// not yet restored.
pub open spec fn entered(s: Step) -> bool {
    match s {
        Step::InitProject => true,
        Step::ProbeCache => true,
        Step::WriteCacheConfig => true,
        Step::WriteSource => true,
        Step::WritePin => true,
        Step::AddDep { .. } => true,
        Step::RunProgram => true,
        Step::Restore { .. } => true,
        _ => false,
    }
}

/// The prior working context is always restored: from any state in which the
/// context was switched, the pipeline can finish only through the restore
/// step, whatever events the outside world reports — success, a failing
/// step, or an I/O error. The restore step surfaces the carried outcome
/// unchanged once the context is back.
pub proof fn lemma_restore_always_runs(s: Step, e: Event, n_deps: nat)
    requires
        step_accepts(s, e),
    ensures
        entered(s) && spec_step(s, e, n_deps) is Done ==> s is Restore,
        entered(s) && !(s is Restore) ==> entered(spec_step(s, e, n_deps)),
        forall|o: Option<PipelineError>|
            spec_step(Step::Restore { outcome: o }, Event::Succeeded, n_deps) == (Step::Done {
                outcome: o,
            }),
{
}

/// A single failing dependency-add is tolerated: it transitions exactly as a
/// successful one — on to the next dependency while one is left, then on to
/// the run step — and never into cleanup or completion.
pub proof fn lemma_dep_failure_tolerated(next: usize, n_deps: usize)
    requires
        next < n_deps,
    ensures
        spec_step(Step::AddDep { next }, Event::Failed, n_deps as nat) == spec_step(
            Step::AddDep { next },
            Event::Succeeded,
            n_deps as nat,
        ),
        next + 1 < n_deps ==> spec_step(Step::AddDep { next }, Event::Failed, n_deps as nat)
            == (Step::AddDep { next: (next + 1) as usize }),
        next + 1 == n_deps ==> spec_step(Step::AddDep { next }, Event::Failed, n_deps as nat)
            == Step::RunProgram,
{
}

/// How far a step is from completion; every accepted event strictly lowers
/// it, so a pipeline run always finishes.
pub open spec fn rank(s: Step, n_deps: nat) -> nat {
    match s {
        Step::Done { .. } => 0,
        Step::Restore { .. } => 1,
        Step::RunProgram => 2,
        Step::AddDep { next } => (2 + (n_deps - next)) as nat,
        Step::WritePin => 3 + n_deps,
        Step::WriteSource => 4 + n_deps,
        Step::WriteCacheConfig => 5 + n_deps,
        Step::ProbeCache => 6 + n_deps,
        Step::InitProject => 7 + n_deps,
        Step::EnterTempDir => 8 + n_deps,
        Step::CreateTempDir => 9 + n_deps,
    }
}

/// Every accepted event moves the pipeline strictly closer to completion.
pub proof fn lemma_pipeline_terminates(s: Step, e: Event, n_deps: usize)
    requires
        step_wf(s, n_deps as nat),
        step_accepts(s, e),
        !(s is Done),
    ensures
        rank(spec_step(s, e, n_deps as nat), n_deps as nat) < rank(s, n_deps as nat),
{
    let n = n_deps as nat;
    match s {
        Step::AddDep { next } => {
            assert(rank(s, n) == 2 + (n - next));
            if !(e is IoError) && (next as nat) + 1 < n {
                assert(spec_step(s, e, n) == (Step::AddDep { next: (next + 1) as usize }));
                assert(rank(spec_step(s, e, n), n) == 2 + (n - next - 1));
            }
        },
        _ => {
        },
    }
}

} // verus!
