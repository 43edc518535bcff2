//! Wire models: the request and response bodies the services exchange.
//!
//! These are plain data carriers; the logic that fills them lives in the
//! policy, dispatch, queue and validator modules.  Serialisation stays with
//! the callers.

use vstd::prelude::*;

use crate::dispatch::ProjectStatus;

verus! {

/// A single-task request from an agent.
pub struct TaskRequest {
    pub node_id: Option<String>,
    pub agent_uid: Option<String>,
    pub requested_tasks: Option<u32>,
    pub proposal_source: Option<String>,
    pub project_id: Option<i64>,
    pub allowed_task_types: Option<Vec<String>>,
}

/// A batch request from an agent.
pub struct TaskBatchRequest {
    pub agent_uid: Option<String>,
    pub node_id: Option<String>,
    pub requested_tasks: Option<u32>,
    pub proposal_source: Option<String>,
    pub project_id: Option<i64>,
    pub allowed_task_types: Option<Vec<String>>,
}

/// A submitted task result.
pub struct TaskSubmitRequest {
    pub task_id: String,
    pub result: Option<String>,
    pub project_id: Option<i64>,
    pub device_id: Option<i64>,
}

/// One point of the completion histogram.
pub struct DashboardPoint {
    pub label: String,
    pub value: u64,
}

/// How many agents are online, idle or blocked.
#[derive(Clone, Copy, PartialEq, Eq, Structural, Debug, Default)]
pub struct AgentAvailabilitySnapshot {
    pub online: u64,
    pub idle: u64,
    pub blocked: u64,
}

/// Completions per minute and per hour.
#[derive(Clone, Copy, PartialEq, Eq, Structural, Debug, Default)]
pub struct ThroughputSnapshot {
    pub completed_last_min: u64,
    pub completed_last_hour: u64,
}

/// Blocked agents against the total.
#[derive(Clone, Copy, PartialEq, Eq, Structural, Debug, Default)]
pub struct TrustSnapshot {
    pub blocked_agents: u64,
    pub total_agents: u64,
}

/// One agent line of the live summary.
pub struct AgentSummary {
    pub id: String,
    pub status: String,
    pub last_seen_secs: u64,
    pub region: String,
    pub reputation: String,
}

/// One task line of the live summary.
pub struct TaskSummary {
    pub id: String,
    pub project: String,
    pub status: String,
    pub priority: String,
    pub updated_at: String,
}

/// Queue counts shown on dashboards.
#[derive(Clone, Copy, PartialEq, Eq, Structural, Debug, Default)]
pub struct TaskQueueSummary {
    pub queued: u64,
    pub running: u64,
    pub completed: u64,
}

/// Load counts shown on dashboards.
#[derive(Clone, Copy, PartialEq, Eq, Structural, Debug, Default)]
pub struct LoadSummary {
    pub running: u64,
    pub queued: u64,
    pub completed_last_min: u64,
}

/// A heartbeat from an agent.
pub struct HeartbeatRequest {
    pub node_id: Option<String>,
}

/// Acknowledgement of a heartbeat or metrics upload.
pub struct HeartbeatResponse {
    pub status: &'static str,
}

/// The task types an agent accepts for one project.
pub struct ProjectPreference {
    pub project_id: i64,
    pub allowed_task_types: Vec<String>,
}

/// The registry's answer to a registration.
pub struct AgentRegisterResponse {
    pub status: &'static str,
    pub blocked: bool,
    pub blocked_reason: Option<String>,
}

/// An agent's stored preferences, replacing the previous set.
pub struct AgentPreferencesRequest {
    pub agent_uid: String,
    pub preferences: Vec<ProjectPreference>,
}

/// A structured error body.
pub struct ErrorResponse {
    pub code: &'static str,
    pub message: String,
    pub reasons: Vec<String>,
}

/// A request to create a project.
pub struct CreateProjectRequest {
    pub name: Option<String>,
    pub description: Option<String>,
    pub owner_id: Option<i64>,
}

/// Object-store connection settings, carried for the callers that move
/// script blobs.
pub struct StorageConfig {
    pub endpoint: String,
    pub access_key: String,
    pub secret_key: String,
    pub bucket: String,
    pub region: String,
    pub force_path_style: bool,
}

/// An account registration.
pub struct RegisterRequest {
    pub email: Option<String>,
    pub password: Option<String>,
}

/// Acknowledgement of an account registration.
pub struct RegisterResponse {
    pub status: &'static str,
}

/// A login attempt.
pub struct LoginRequest {
    pub email: Option<String>,
    pub password: Option<String>,
}

/// A login outcome with its token.
pub struct LoginResponse {
    pub status: &'static str,
    pub token: &'static str,
}

/// A device registration under an account.
pub struct DeviceRegisterRequest {
    pub user_id: String,
    pub device_id: String,
}

/// Acknowledgement of a device registration.
pub struct DeviceRegisterResponse {
    pub status: &'static str,
    pub device_count: usize,
}

/// Acknowledgement of a telemetry event.
pub struct TelemetryEventResponse {
    pub status: &'static str,
}


/// One project row: identity, lifecycle state and storage location.  The
/// GUID is carried as its 128-bit value.
pub struct Project {
    pub id: i64,
    pub guid: u128,
    pub name: String,
    pub description: Option<String>,
    pub owner_id: Option<i64>,
    pub status: ProjectStatus,
    pub is_demo: bool,
    pub storage_prefix: String,
    pub created_at: String,
}

/// The project body returned to callers.
pub struct ProjectResponse {
    pub id: i64,
    pub guid: u128,
    pub name: String,
    pub description: Option<String>,
    pub owner_id: Option<i64>,
    pub status: ProjectStatus,
    pub is_demo: bool,
    pub storage_prefix: String,
    pub created_at: String,
}

/// Shape a project row into its response body, field for field.
pub fn project_response(project: Project) -> (r: ProjectResponse)
    ensures
        r.id == project.id,
        r.guid == project.guid,
        r.name == project.name,
        r.description == project.description,
        r.owner_id == project.owner_id,
        r.status == project.status,
        r.is_demo == project.is_demo,
        r.storage_prefix == project.storage_prefix,
        r.created_at == project.created_at,
{
    ProjectResponse {
        id: project.id,
        guid: project.guid,
        name: project.name,
        description: project.description,
        owner_id: project.owner_id,
        status: project.status,
        is_demo: project.is_demo,
        storage_prefix: project.storage_prefix,
        created_at: project.created_at,
    }
}

/// Merge one project's completion histogram into the running totals,
/// point by point; extra points in either list are kept as they are.
pub fn merge_bucket_totals(totals: &mut Vec<DashboardPoint>, buckets: &Vec<DashboardPoint>)
    requires
        forall|i: int|
            0 <= i < old(totals)@.len() ==> (#[trigger] old(totals)@[i]).value + max_bucket_value(
                buckets@,
            ) <= u64::MAX,
    ensures
        final(totals)@.len() == old(totals)@.len(),
        forall|i: int|
            0 <= i < old(totals)@.len() && i < buckets@.len() ==> ((#[trigger] final(totals)@[i]).value
                == old(totals)@[i].value + buckets@[i].value && final(totals)@[i].label
                == old(totals)@[i].label),
        forall|i: int|
            buckets@.len() <= i < old(totals)@.len() ==> #[trigger] final(totals)@[i]
                == old(totals)@[i],
{
    let len = totals.len();
    let blen = buckets.len();
    let mut i: usize = 0;
    while i < len
        invariant
            i <= len,
            len == totals@.len(),
            len == old(totals)@.len(),
            blen == buckets@.len(),
            forall|j: int|
                0 <= j < old(totals)@.len() ==> (#[trigger] old(totals)@[j]).value
                    + max_bucket_value(buckets@) <= u64::MAX,
            forall|j: int| i <= j < len ==> #[trigger] totals@[j] == old(totals)@[j],
            forall|j: int|
                0 <= j < i && j < blen ==> (#[trigger] totals@[j]).value == old(totals)@[j].value
                    + buckets@[j].value && totals@[j].label == old(totals)@[j].label,
            forall|j: int| blen <= j < i ==> #[trigger] totals@[j] == old(totals)@[j],
        decreases len - i,
    {
        if i < blen {
            proof {
                bucket_value_le(buckets@, i as int);
            }
            totals[i].value = totals[i].value + buckets[i].value;
        }
        i = i + 1;
    }
}

/// Every value of the list is at most this bound.
pub open spec fn max_bucket_value(buckets: Seq<DashboardPoint>) -> int
    decreases buckets.len(),
{
    if buckets.len() == 0 {
        0
    } else {
        let rest = max_bucket_value(buckets.drop_last());
        if buckets.last().value > rest {
            buckets.last().value as int
        } else {
            rest
        }
    }
}

/// Each bucket's value is bounded by the maximum.
pub proof fn bucket_value_le(buckets: Seq<DashboardPoint>, i: int)
    requires
        0 <= i < buckets.len(),
    ensures
        buckets[i].value <= max_bucket_value(buckets),
    decreases buckets.len(),
{
    if i < buckets.len() - 1 {
        bucket_value_le(buckets.drop_last(), i);
        assert(buckets.drop_last()[i] == buckets[i]);
    }
}

/// The total of the histogram's points.
pub open spec fn spec_bucket_sum(buckets: Seq<DashboardPoint>) -> int
    decreases buckets.len(),
{
    if buckets.len() == 0 {
        0
    } else {
        spec_bucket_sum(buckets.drop_last()) + buckets.last().value
    }
}

/// Sum the histogram's points, as the 24-hour total shown on dashboards.
pub fn sum_bucket_values(buckets: &Vec<DashboardPoint>) -> (r: u64)
    requires
        spec_bucket_sum(buckets@) <= u64::MAX,
    ensures
        r == spec_bucket_sum(buckets@),
{
    let len = buckets.len();
    let mut sum: u64 = 0;
    let mut i: usize = 0;
    while i < len
        invariant
            i <= len,
            len == buckets@.len(),
            spec_bucket_sum(buckets@) <= u64::MAX,
            sum == spec_bucket_sum(buckets@.take(i as int)),
        decreases len - i,
    {
        proof {
            assert(buckets@.take(i + 1).drop_last() =~= buckets@.take(i as int));
            assert(buckets@.take(i + 1).last() == buckets@[i as int]);
            lemma_bucket_sum_prefix_le(buckets@, i + 1);
        }
        sum = sum + buckets[i].value;
        i = i + 1;
    }
    proof {
        assert(buckets@.take(len as int) =~= buckets@);
    }
    sum
}

/// A prefix of the histogram never sums above the whole: values are
/// non-negative.
pub proof fn lemma_bucket_sum_prefix_le(buckets: Seq<DashboardPoint>, n: int)
    requires
        0 <= n <= buckets.len(),
    ensures
        spec_bucket_sum(buckets.take(n)) <= spec_bucket_sum(buckets),
    decreases buckets.len() - n,
{
    if n == buckets.len() {
        assert(buckets.take(n) =~= buckets);
    } else {
        lemma_bucket_sum_prefix_le(buckets, n + 1);
        assert(buckets.take(n + 1).drop_last() =~= buckets.take(n));
        assert(buckets.take(n + 1).last() == buckets[n]);
    }
}

} // verus!
