//! The order of a run's lifecycle stages. Each stage's work is done by the
//! caller, which then asks for the stage that follows.
use vstd::prelude::*;

verus! {

/// A stage of one run.
#[derive(Clone, Copy, Debug, PartialEq, Eq, Structural)]
pub enum Stage {
    Start,
    /// Global accelerator initialisation, before any device is enumerated.
    AcceleratorInit,
    /// The asynchronous runtime is created.
    RuntimeCreate,
    /// The task runs on the resolved backend.
    Dispatch,
    /// The runtime is shut down, whatever the task's outcome.
    RuntimeShutdown,
    /// Global accelerator synchronisation.
    AcceleratorSynchronize,
    End,
}

/// The stage after `s`; the accelerator stages are passed over in a build
/// without accelerator support.
pub open spec fn next_stage(s: Stage, accelerator_support: bool) -> Stage {
    match s {
        Stage::Start => if accelerator_support {
            Stage::AcceleratorInit
        } else {
            Stage::RuntimeCreate
        },
        Stage::AcceleratorInit => Stage::RuntimeCreate,
        Stage::RuntimeCreate => Stage::Dispatch,
        Stage::Dispatch => Stage::RuntimeShutdown,
        Stage::RuntimeShutdown => if accelerator_support {
            Stage::AcceleratorSynchronize
        } else {
            Stage::End
        },
        Stage::AcceleratorSynchronize => Stage::End,
        Stage::End => Stage::End,
    }
}

/// The position of a stage in the run.
pub open spec fn stage_rank(s: Stage) -> nat {
    match s {
        Stage::Start => 0,
        Stage::AcceleratorInit => 1,
        Stage::RuntimeCreate => 2,
        Stage::Dispatch => 3,
        Stage::RuntimeShutdown => 4,
        Stage::AcceleratorSynchronize => 5,
        Stage::End => 6,
    }
}

impl Stage {
    /// The stage that follows this one.
    pub fn next(self, accelerator_support: bool) -> (r: Stage)
        ensures
            r == next_stage(self, accelerator_support),
    {
        match self {
            Stage::Start => if accelerator_support {
                Stage::AcceleratorInit
            } else {
                Stage::RuntimeCreate
            },
            Stage::AcceleratorInit => Stage::RuntimeCreate,
            Stage::RuntimeCreate => Stage::Dispatch,
            Stage::Dispatch => Stage::RuntimeShutdown,
            Stage::RuntimeShutdown => if accelerator_support {
                Stage::AcceleratorSynchronize
            } else {
                Stage::End
            },
            Stage::AcceleratorSynchronize => Stage::End,
            Stage::End => Stage::End,
        }
    }

    /// Whether the run is over.
    pub fn is_end(self) -> (r: bool)
        ensures
            r == (self == Stage::End),
    {
        self == Stage::End
    }
}

/// The run moves forward only, and the accelerator stages occur exactly when
/// the build has accelerator support; the runtime is always shut down right
/// after dispatch.
pub proof fn lemma_stages_linear(s: Stage, accelerator_support: bool)
    ensures
        s != Stage::End ==> stage_rank(next_stage(s, accelerator_support)) > stage_rank(s),
        next_stage(Stage::Dispatch, accelerator_support) == Stage::RuntimeShutdown,
        (next_stage(s, accelerator_support) == Stage::AcceleratorInit || next_stage(
            s,
            accelerator_support,
        ) == Stage::AcceleratorSynchronize) ==> accelerator_support,
        accelerator_support ==> next_stage(Stage::Start, accelerator_support)
            == Stage::AcceleratorInit,
        accelerator_support ==> next_stage(Stage::RuntimeShutdown, accelerator_support)
            == Stage::AcceleratorSynchronize,
{
}

} // verus!
