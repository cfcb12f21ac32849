use vstd::prelude::*;

verus! {

/// The lifecycle of a pipeline run.
#[derive(Clone, Copy, Debug, PartialEq, Eq, Structural)]
pub enum PipelineState {
    Pending,
    Running,
    Completed,
    Failed,
    Canceled,
}

/// The lifecycle of one action.
#[derive(Clone, Copy, Debug, PartialEq, Eq, Structural)]
pub enum ActionState {
    Pending,
    Running,
    Success,
    Failed,
    Skipped,
    Canceled,
}

impl ActionState {
    /// Whether the action has reached an end state.
    pub fn is_final(&self) -> (r: bool)
        ensures
            r == !(*self == ActionState::Pending || *self == ActionState::Running),
    {
        match self {
            ActionState::Success | ActionState::Failed | ActionState::Skipped
            | ActionState::Canceled => true,
            ActionState::Pending | ActionState::Running => false,
        }
    }
}

} // verus!
