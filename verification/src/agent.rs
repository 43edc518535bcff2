//! Agent control-loop decisions.
//!
//! The agent process runs three concurrent activities — heartbeat, metrics
//! and the run loop — around one lifecycle machine.  The loop's decisions
//! are pure: what the next lifecycle phase is, what to do on each loop
//! turn, and how to read a batch reply.  Sleeping, HTTP and process
//! spawning stay with the caller, which also supplies the random roll used
//! to smear batch sizes and delays.

use vstd::prelude::*;

use crate::text::str_eq;

verus! {

/// Lifecycle phase of the agent process.  `Blocked` absorbs every event.
#[derive(Clone, Copy, PartialEq, Eq, Structural, Debug)]
pub enum AgentPhase {
    Starting,
    Registering,
    Running,
    Paused,
    Stopping,
    Stopped,
    Blocked,
}

/// An event the lifecycle machine reacts to.
#[derive(Clone, Copy, PartialEq, Eq, Structural, Debug)]
pub enum AgentEvent {
    BeginRegistration,
    Registered { blocked: bool },
    Pause,
    Resume,
    StopRequested,
    Halted,
    BlockedByServer,
}

/// The lifecycle machine: starting leads through registering to running,
/// running and paused alternate, a stop request drains through stopping to
/// stopped, and a block — at registration or from the server — is
/// absorbing.  Any other pairing leaves the phase unchanged.
pub open spec fn spec_next_phase(phase: AgentPhase, event: AgentEvent) -> AgentPhase {
    match (phase, event) {
        (AgentPhase::Starting, AgentEvent::BeginRegistration) => AgentPhase::Registering,
        (AgentPhase::Registering, AgentEvent::Registered { blocked }) => if blocked {
            AgentPhase::Blocked
        } else {
            AgentPhase::Running
        },
        (AgentPhase::Running, AgentEvent::Pause) => AgentPhase::Paused,
        (AgentPhase::Running, AgentEvent::StopRequested) => AgentPhase::Stopping,
        (AgentPhase::Running, AgentEvent::BlockedByServer) => AgentPhase::Blocked,
        (AgentPhase::Paused, AgentEvent::Resume) => AgentPhase::Running,
        (AgentPhase::Paused, AgentEvent::StopRequested) => AgentPhase::Stopping,
        (AgentPhase::Paused, AgentEvent::BlockedByServer) => AgentPhase::Blocked,
        (AgentPhase::Stopping, AgentEvent::Halted) => AgentPhase::Stopped,
        _ => phase,
    }
}

/// Advance the lifecycle machine by one event.
pub fn next_phase(phase: AgentPhase, event: AgentEvent) -> (r: AgentPhase)
    ensures
        r == spec_next_phase(phase, event),
{
    match (phase, event) {
        (AgentPhase::Starting, AgentEvent::BeginRegistration) => AgentPhase::Registering,
        (AgentPhase::Registering, AgentEvent::Registered { blocked }) => if blocked {
            AgentPhase::Blocked
        } else {
            AgentPhase::Running
        },
        (AgentPhase::Running, AgentEvent::Pause) => AgentPhase::Paused,
        (AgentPhase::Running, AgentEvent::StopRequested) => AgentPhase::Stopping,
        (AgentPhase::Running, AgentEvent::BlockedByServer) => AgentPhase::Blocked,
        (AgentPhase::Paused, AgentEvent::Resume) => AgentPhase::Running,
        (AgentPhase::Paused, AgentEvent::StopRequested) => AgentPhase::Stopping,
        (AgentPhase::Paused, AgentEvent::BlockedByServer) => AgentPhase::Blocked,
        (AgentPhase::Stopping, AgentEvent::Halted) => AgentPhase::Stopped,
        _ => phase,
    }
}

/// Once blocked, always blocked: no event leaves the `Blocked` phase.
pub proof fn lemma_blocked_absorbing(event: AgentEvent)
    ensures
        spec_next_phase(AgentPhase::Blocked, event) == AgentPhase::Blocked,
{
}

/// What one turn of the run loop does.
#[derive(Clone, Copy, PartialEq, Eq, Structural, Debug)]
pub enum RunStep {
    Exit,
    BackOff,
    FetchBatch,
    RunNext,
}

/// Decide one turn of the run loop: a stop or a block ends the loop, a
/// pause backs off, an empty prefetch queue asks for a batch, and
/// otherwise the next queued task runs.
pub fn run_loop_step(stop_requested: bool, blocked: bool, paused: bool, queued: usize) -> (r:
    RunStep)
    ensures
        stop_requested ==> r == RunStep::Exit,
        !stop_requested && blocked ==> r == RunStep::Exit,
        !stop_requested && !blocked && paused ==> r == RunStep::BackOff,
        !stop_requested && !blocked && !paused && queued == 0 ==> r == RunStep::FetchBatch,
        !stop_requested && !blocked && !paused && queued > 0 ==> r == RunStep::RunNext,
{
    if stop_requested || blocked {
        RunStep::Exit
    } else if paused {
        RunStep::BackOff
    } else if queued == 0 {
        RunStep::FetchBatch
    } else {
        RunStep::RunNext
    }
}

/// How the agent reads a batch reply.
#[derive(Clone, Copy, PartialEq, Eq, Structural, Debug)]
pub enum FetchOutcome {
    MarkBlocked,
    NoWork,
    Enqueue,
}

/// Classify a batch reply: a blocked reply stops the agent from accepting
/// work, a denial or an empty grant means no work is available, and
/// anything else fills the prefetch queue.
pub fn classify_batch_reply(
    blocked: Option<bool>,
    policy_decision: &str,
    granted_tasks: u32,
    task_count: usize,
) -> (r: FetchOutcome)
    ensures
        blocked == Some(true) ==> r == FetchOutcome::MarkBlocked,
        blocked != Some(true) && (policy_decision@ == "deny"@ || granted_tasks == 0 || task_count
            == 0) ==> r == FetchOutcome::NoWork,
        blocked != Some(true) && policy_decision@ != "deny"@ && granted_tasks > 0 && task_count > 0
            ==> r == FetchOutcome::Enqueue,
{
    if let Some(true) = blocked {
        return FetchOutcome::MarkBlocked;
    }
    if str_eq(policy_decision, "deny") || granted_tasks == 0 || task_count == 0 {
        return FetchOutcome::NoWork;
    }
    FetchOutcome::Enqueue
}

/// The batch bounds actually used: the lower bound is at least one task,
/// and the upper bound never sits below the lower.
pub fn batch_request_bounds(batch_min: u32, batch_max: u32) -> (r: (u32, u32))
    ensures
        r.0 == (if batch_min >= 1 {
            batch_min
        } else {
            1u32
        }),
        r.1 == (if batch_max >= r.0 {
            batch_max
        } else {
            r.0
        }),
{
    let low = if batch_min >= 1 {
        batch_min
    } else {
        1
    };
    let high = if batch_max >= low {
        batch_max
    } else {
        low
    };
    (low, high)
}

/// Smear a choice over an inclusive range with a caller-supplied random
/// roll: the result always lands in `[low, high]`, and equal bounds give
/// the bound itself.
pub fn pick_in_range(low: u64, high: u64, roll: u64) -> (r: u64)
    requires
        low <= high,
        high - low < u64::MAX,
    ensures
        low <= r <= high,
        r == low + (roll as int) % (high - low + 1int),
{
    let width = high - low + 1;
    low + roll % width
}

} // verus!
