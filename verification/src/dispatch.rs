//! Dispatch service: batching tasks to an agent under policy, block state,
//! project lifecycle and the agent's task-type filter.
//!
//! The order of the gates is fixed: a blocked agent is turned away first,
//! whatever the policy would say; then the policy denies or clamps the
//! batch; then a project that is not active returns its lifecycle state
//! with no tasks; only then is the queue leased.  Each gate's exact effect
//! is stated in `request_task_batch`'s contract — in particular, a blocked
//! agent always gets `blocked = true` and an empty task list, with the
//! store untouched.

use vstd::prelude::*;

use crate::policy::PolicyConfig;
use crate::policy::PolicyDecision;
use crate::policy::PolicyEngine;
use crate::policy::ProposalSource;
use crate::policy::TaskRequestProposal;
use crate::policy::spec_denies;
use crate::policy::spec_limits;
use crate::text::spec_udec;
use crate::queue::LeasedTask;
use crate::queue::StoreError;
use crate::queue::TaskStore;
use crate::queue::filter_views;
use crate::queue::lease_transition;

verus! {

/// Lifecycle state of a project.
#[derive(Clone, Copy, PartialEq, Eq, Structural, Debug)]
pub enum ProjectStatus {
    Active,
    Paused,
    Stopped,
}

impl ProjectStatus {
    /// The label a project's lifecycle state prints as.
    pub fn as_str(&self) -> (r: &'static str)
        ensures
            r@ == self.spec_label(),
    {
        match self {
            ProjectStatus::Active => "active",
            ProjectStatus::Paused => "paused",
            ProjectStatus::Stopped => "stopped",
        }
    }

    pub open spec fn spec_label(self) -> Seq<char> {
        match self {
            ProjectStatus::Active => "active"@,
            ProjectStatus::Paused => "paused"@,
            ProjectStatus::Stopped => "stopped"@,
        }
    }
}

/// The registry's view of one agent: internal id and block state.
pub struct AgentRecord {
    pub id: i64,
    pub blocked: bool,
    pub blocked_reason: Option<String>,
}

/// A batch of leased tasks, with the gates' outcome.
pub struct TaskBatchResponse {
    pub status: String,
    pub policy_decision: &'static str,
    pub granted_tasks: u32,
    pub reasons: Vec<String>,
    pub tasks: Vec<LeasedTask>,
    pub blocked: bool,
    pub blocked_reason: Option<String>,
}

/// A single-task reply, cut down from a batch.
pub struct TaskResponse {
    pub status: String,
    pub task_id: Option<u64>,
    pub policy_decision: &'static str,
    pub granted_tasks: u32,
    pub reasons: Vec<String>,
    pub payload: Option<String>,
    pub project_id: Option<i64>,
    pub blocked: bool,
    pub blocked_reason: Option<String>,
}

/// Acknowledgement of a submitted result.
pub struct TaskSubmitResponse {
    pub status: &'static str,
}

/// Why a dispatch operation failed.
#[derive(Debug)]
pub enum DispatchError {
    PolicyDenied { reasons: Vec<String> },
    MissingProject,
    MissingResult,
    TaskNotFound,
}

/// The batch size granted by the policy: the request, clamped to the cap.
pub open spec fn spec_granted(engine: PolicyEngine, proposal: TaskRequestProposal) -> u32 {
    if proposal.requested_tasks > engine.config.max_concurrent_tasks {
        engine.config.max_concurrent_tasks
    } else {
        proposal.requested_tasks
    }
}

/// The tag the policy's verdict prints as for these inputs.
pub open spec fn spec_decision_tag(config: PolicyConfig, proposal: TaskRequestProposal) -> Seq<
    char,
> {
    if spec_denies(config, proposal) {
        "deny"@
    } else if spec_limits(config, proposal) {
        "limit"@
    } else {
        "allow"@
    }
}

/// The reason text a clamped request carries.
pub open spec fn spec_clamp_reason(config: PolicyConfig, proposal: TaskRequestProposal) -> Seq<
    char,
> {
    "requested_tasks "@ + spec_udec(proposal.requested_tasks as nat) + " exceeds max "@
        + spec_udec(config.max_concurrent_tasks as nat)
}

/// The filter a lease runs under: a non-empty caller filter wins; otherwise
/// the agent's stored preference for the project; otherwise none.
pub open spec fn effective_filter_views(
    caller: Option<Vec<String>>,
    stored: Option<Vec<String>>,
) -> Option<Seq<Seq<char>>> {
    if caller matches Some(f) && f@.len() > 0 {
        Some(caller.unwrap().deep_view())
    } else {
        match stored {
            Some(p) => Some(p.deep_view()),
            None => None,
        }
    }
}

/// Lease up to the granted number of queued tasks to an agent.
///
/// Gates, in order: a blocked agent gets `blocked = true` and no tasks,
/// whatever the policy inputs are, with the store untouched — the reply
/// reports the policy's own verdict tag unchanged, with no reasons; a
/// denied policy fails with `PolicyDenied` and its reason; a project that
/// is not active returns its lifecycle label with no tasks; otherwise the
/// queue is leased under the effective filter and the lease's exact effect
/// is `lease_transition`.
pub fn request_task_batch(
    store: &mut TaskStore,
    agent: &AgentRecord,
    engine: &PolicyEngine,
    project_status: ProjectStatus,
    requested_tasks: u32,
    source: ProposalSource,
    caller_filter: Option<Vec<String>>,
    stored_preferences: Option<Vec<String>>,
) -> (r: Result<TaskBatchResponse, DispatchError>)
    requires
        old(store).wf(),
    ensures
        final(store).wf(),
        final(store).next_id == old(store).next_id,
        final(store).results@ == old(store).results@,
        agent.blocked ==> (r matches Ok(resp) && resp.status@ == "blocked"@ && resp.blocked
            && resp.tasks@.len() == 0 && resp.granted_tasks == 0 && resp.blocked_reason
            == agent.blocked_reason && resp.policy_decision@ == spec_decision_tag(
            engine.config,
            TaskRequestProposal { requested_tasks, source },
        ) && resp.reasons@.len() == 0 && final(store).rows@ == old(store).rows@),
        !agent.blocked && spec_denies(engine.config, TaskRequestProposal { requested_tasks, source })
            ==> (r matches Err(e) && e matches DispatchError::PolicyDenied { reasons }
            && reasons@.len() == 1 && reasons@[0]@ == "ai_off: ai proposals disabled"@
            && final(store).rows@ == old(store).rows@),
        !agent.blocked && !spec_denies(
            engine.config,
            TaskRequestProposal { requested_tasks, source },
        ) && project_status != ProjectStatus::Active ==> (r matches Ok(resp) && resp.status@
            == project_status.spec_label() && !resp.blocked && resp.tasks@.len() == 0
            && resp.granted_tasks == 0 && resp.policy_decision@ == spec_decision_tag(
            engine.config,
            TaskRequestProposal { requested_tasks, source },
        ) && resp.reasons@.len() == 1 && resp.reasons@[0]@ == "project_not_active"@
            && final(store).rows@ == old(store).rows@),
        !agent.blocked && !spec_denies(
            engine.config,
            TaskRequestProposal { requested_tasks, source },
        ) && project_status == ProjectStatus::Active ==> (r matches Ok(resp) && resp.status@
            == "ok"@ && !resp.blocked && resp.granted_tasks == spec_granted(
            *engine,
            TaskRequestProposal { requested_tasks, source },
        ) && resp.policy_decision@ == spec_decision_tag(
            engine.config,
            TaskRequestProposal { requested_tasks, source },
        ) && (spec_limits(engine.config, TaskRequestProposal { requested_tasks, source })
            ==> resp.reasons@.len() == 1 && resp.reasons@[0]@ == spec_clamp_reason(
            engine.config,
            TaskRequestProposal { requested_tasks, source },
        )) && (!spec_limits(engine.config, TaskRequestProposal { requested_tasks, source })
            ==> resp.reasons@.len() == 0) && lease_transition(
            old(store).rows@,
            final(store).rows@,
            resp.tasks@,
            effective_filter_views(caller_filter, stored_preferences),
            resp.granted_tasks as u64,
        )),
{
    let ghost proposal = TaskRequestProposal { requested_tasks, source };
    if agent.blocked {
        let blocked_reason = match &agent.blocked_reason {
            Some(s) => Some(s.clone()),
            None => None,
        };
        // The policy is consulted only for the verdict tag the reply
        // reports; a blocked agent is never leased and never errs.
        let probe = engine.evaluate_task_request(
            TaskRequestProposal { requested_tasks, source },
        );
        let policy_decision = probe.decision();
        return Ok(TaskBatchResponse {
            status: String::from_str("blocked"),
            policy_decision,
            granted_tasks: 0,
            reasons: Vec::new(),
            tasks: Vec::new(),
            blocked: true,
            blocked_reason,
        });
    }

    let decision = engine.evaluate_task_request(
        TaskRequestProposal { requested_tasks, source },
    );
    let (policy_decision, reasons, granted_tasks): (&'static str, Vec<String>, u32) = match decision {
        PolicyDecision::Denied { reasons } => {
            return Err(DispatchError::PolicyDenied { reasons });
        },
        PolicyDecision::Limited { granted_tasks, reasons } => ("limit", reasons, granted_tasks),
        PolicyDecision::Allowed { reasons } => ("allow", reasons, requested_tasks),
    };
    proof {
        assert(granted_tasks == spec_granted(*engine, proposal));
    }

    if !matches!(project_status, ProjectStatus::Active) {
        let mut not_active: Vec<String> = Vec::new();
        not_active.push(String::from_str("project_not_active"));
        return Ok(TaskBatchResponse {
            status: String::from_str(project_status.as_str()),
            policy_decision,
            granted_tasks: 0,
            reasons: not_active,
            tasks: Vec::new(),
            blocked: false,
            blocked_reason: None,
        });
    }

    let filter_ref: Option<&Vec<String>> = match (&caller_filter, &stored_preferences) {
        (Some(f), _) => {
            if f.len() > 0 {
                Some(f)
            } else {
                match &stored_preferences {
                    Some(p) => Some(p),
                    None => None,
                }
            }
        },
        (None, Some(p)) => Some(p),
        (None, None) => None,
    };
    proof {
        assert(filter_views(filter_ref) == effective_filter_views(
            caller_filter,
            stored_preferences,
        ));
    }

    let tasks = store.lease_batch(filter_ref, granted_tasks as u64);

    Ok(TaskBatchResponse {
        status: String::from_str("ok"),
        policy_decision,
        granted_tasks,
        reasons,
        tasks,
        blocked: false,
        blocked_reason: None,
    })
}

/// Record a submitted result: the project id and the result body are both
/// required; on success the task row moves to `done`, every other row is
/// untouched, and the result row is appended.
pub fn submit_task(
    store: &mut TaskStore,
    project_id: Option<i64>,
    task_id: u64,
    result: Option<String>,
    device_id: Option<i64>,
) -> (r: Result<TaskSubmitResponse, DispatchError>)
    requires
        old(store).wf(),
    ensures
        final(store).wf(),
        final(store).next_id == old(store).next_id,
        final(store).rows@.len() == old(store).rows@.len(),
        project_id is None ==> (r matches Err(e) && e matches DispatchError::MissingProject
            && final(store).rows@ == old(store).rows@ && final(store).results@ == old(store).results@),
        project_id is Some && result is None ==> (r matches Err(e) && e
            matches DispatchError::MissingResult && final(store).rows@ == old(store).rows@
            && final(store).results@ == old(store).results@),
        (project_id is Some && result is Some) ==> (match r {
            Ok(resp) => {
                &&& resp.status@ == "ok"@
                &&& exists|i: int|
                    0 <= i < old(store).rows@.len() && (#[trigger] old(store).rows@[i]).id
                        == task_id
                &&& forall|i: int|
                    0 <= i < old(store).rows@.len() && (#[trigger] old(store).rows@[i]).id
                        == task_id ==> crate::queue::moved_to(
                        old(store).rows@[i],
                        final(store).rows@[i],
                        crate::queue::TaskStatus::Done,
                    )
                &&& forall|i: int|
                    0 <= i < old(store).rows@.len() && (#[trigger] old(store).rows@[i]).id
                        != task_id ==> final(store).rows@[i] == old(store).rows@[i]
                &&& final(store).results@ == old(store).results@.push(
                    crate::queue::TaskResultRow {
                        task_id,
                        device_id,
                        status: crate::queue::TaskStatus::Done,
                        result: result.unwrap(),
                    },
                )
            },
            Err(e) => {
                &&& e matches DispatchError::TaskNotFound
                &&& forall|i: int|
                    0 <= i < old(store).rows@.len() ==> (#[trigger] old(store).rows@[i]).id
                        != task_id
                &&& final(store).rows@ == old(store).rows@
                &&& final(store).results@ == old(store).results@
            },
        }),
{
    if project_id.is_none() {
        return Err(DispatchError::MissingProject);
    }
    let body = match result {
        Some(b) => b,
        None => {
            return Err(DispatchError::MissingResult);
        },
    };
    match store.complete(task_id, body, device_id) {
        Ok(_) => Ok(TaskSubmitResponse { status: "ok" }),
        Err(StoreError::TaskNotFound) => Err(DispatchError::TaskNotFound),
    }
}

/// The project state after a result is recorded: a submission always marks
/// the project active, so a first-run project leaves its created state on
/// its first completed task.
pub fn project_status_after_submit(prior: ProjectStatus) -> (r: ProjectStatus)
    ensures
        r == ProjectStatus::Active,
{
    match prior {
        ProjectStatus::Active => ProjectStatus::Active,
        ProjectStatus::Paused => ProjectStatus::Active,
        ProjectStatus::Stopped => ProjectStatus::Active,
    }
}

/// Cut a batch reply down to the single-task shape: the first leased task,
/// if any, fills the task fields.
pub fn batch_to_single(
    policy_decision: &'static str,
    batch: TaskBatchResponse,
    project_id: Option<i64>,
) -> (r: TaskResponse)
    ensures
        r.status == batch.status,
        r.policy_decision == policy_decision,
        r.granted_tasks == batch.granted_tasks,
        r.reasons == batch.reasons,
        r.blocked == batch.blocked,
        r.blocked_reason == batch.blocked_reason,
        batch.tasks@.len() == 0 ==> r.task_id is None && r.payload is None && r.project_id
            is None,
        batch.tasks@.len() > 0 ==> (r.task_id == Some(batch.tasks@[0].id) && (r.payload
            matches Some(p) && p == batch.tasks@[0].payload) && r.project_id == project_id),
{
    if batch.tasks.len() > 0 {
        let first = &batch.tasks[0];
        TaskResponse {
            status: batch.status,
            task_id: Some(first.id),
            policy_decision,
            granted_tasks: batch.granted_tasks,
            reasons: batch.reasons,
            payload: Some(first.payload.clone()),
            project_id,
            blocked: batch.blocked,
            blocked_reason: batch.blocked_reason,
        }
    } else {
        TaskResponse {
            status: batch.status,
            task_id: None,
            policy_decision,
            granted_tasks: batch.granted_tasks,
            reasons: batch.reasons,
            payload: None,
            project_id: None,
            blocked: batch.blocked,
            blocked_reason: batch.blocked_reason,
        }
    }
}

} // verus!
