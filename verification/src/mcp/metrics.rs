//! What is counted for monitoring.

use vstd::prelude::*;

verus! {

/// The state of a workspace.
#[derive(Clone, Copy, Debug, PartialEq, Eq, Structural)]
pub enum WorkspaceState {
    Running,
    Stopped,
    Suspended,
}

/// How many workspaces are in each state.
#[derive(Clone, Copy, Debug, PartialEq, Eq, Structural)]
pub struct WorkspaceCounts {
    pub running: usize,
    pub stopped: usize,
    pub suspended: usize,
}

/// Under which label a finished command is counted.
#[derive(Clone, Copy, Debug, PartialEq, Eq, Structural)]
pub enum ExecResultLabel {
    Success,
    Error,
}

/// How many workspaces are in a state.
pub open spec fn in_state(states: Seq<WorkspaceState>, state: WorkspaceState) -> nat
    decreases states.len(),
{
    if states.len() == 0 {
        0
    } else if states.last() == state {
        in_state(states.drop_last(), state) + 1
    } else {
        in_state(states.drop_last(), state)
    }
}

/// Count the workspaces in each state.
pub fn count_states(states: &Vec<WorkspaceState>) -> (c: WorkspaceCounts)
    ensures
        c.running == in_state(states@, WorkspaceState::Running),
        c.stopped == in_state(states@, WorkspaceState::Stopped),
        c.suspended == in_state(states@, WorkspaceState::Suspended),
{
    let mut running: usize = 0;
    let mut stopped: usize = 0;
    let mut suspended: usize = 0;
    let mut i: usize = 0;
    while i < states.len()
        invariant
            i <= states.len(),
            running == in_state(states@.take(i as int), WorkspaceState::Running),
            stopped == in_state(states@.take(i as int), WorkspaceState::Stopped),
            suspended == in_state(states@.take(i as int), WorkspaceState::Suspended),
            running <= i,
            stopped <= i,
            suspended <= i,
        decreases states.len() - i,
    {
        proof {
            let t = states@.take(i + 1);
            assert(t.drop_last() =~= states@.take(i as int));
            assert(t.last() == states@[i as int]);
        }
        match states[i] {
            WorkspaceState::Running => {
                running = running + 1;
            },
            WorkspaceState::Stopped => {
                stopped = stopped + 1;
            },
            WorkspaceState::Suspended => {
                suspended = suspended + 1;
            },
        }
        i = i + 1;
    }
    proof {
        assert(states@.take(states@.len() as int) =~= states@);
    }
    WorkspaceCounts { running, stopped, suspended }
}

/// Under which label a finished command is counted: only an exit code of zero
/// is a success.
pub fn exec_result(exit_code: i32) -> (r: ExecResultLabel)
    ensures
        r == if exit_code == 0 {
            ExecResultLabel::Success
        } else {
            ExecResultLabel::Error
        },
{
    if exit_code == 0 {
        ExecResultLabel::Success
    } else {
        ExecResultLabel::Error
    }
}

/// Every workspace is counted once.
pub proof fn law_counts_add_up(states: Seq<WorkspaceState>)
    ensures
        in_state(states, WorkspaceState::Running) + in_state(states, WorkspaceState::Stopped)
            + in_state(states, WorkspaceState::Suspended) == states.len(),
    decreases states.len(),
{
    if states.len() > 0 {
        law_counts_add_up(states.drop_last());
    }
}

/// Each state is counted as often as it occurs, and a command succeeded exactly
/// if its exit code is zero.
pub proof fn law_states_are_counted(
    states: &Vec<WorkspaceState>,
    c: WorkspaceCounts,
    code: i32,
    label: ExecResultLabel,
)
    requires
        call_ensures(count_states, (states,), c),
        call_ensures(exec_result, (code,), label),
    ensures
        c.running == states@.filter(|s: WorkspaceState| s == WorkspaceState::Running).len(),
        c.stopped == states@.filter(|s: WorkspaceState| s == WorkspaceState::Stopped).len(),
        c.suspended == states@.filter(|s: WorkspaceState| s == WorkspaceState::Suspended).len(),
        label == ExecResultLabel::Success <==> code == 0,
{
    lemma_in_state(states@, WorkspaceState::Running);
    lemma_in_state(states@, WorkspaceState::Stopped);
    lemma_in_state(states@, WorkspaceState::Suspended);
}

/// A state is counted as often as it occurs.
proof fn lemma_in_state(states: Seq<WorkspaceState>, state: WorkspaceState)
    ensures
        in_state(states, state) == states.filter(|s: WorkspaceState| s == state).len(),
    decreases states.len(),
{
    reveal(Seq::filter);
    if states.len() > 0 {
        lemma_in_state(states.drop_last(), state);
    }
}

} // verus!
