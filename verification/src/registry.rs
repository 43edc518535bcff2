//! Agent registry and liveness tracking.
//!
//! Agents are keyed by a canonical UUID, carried here as its 128-bit
//! value.  A caller may present a legacy node id instead; the registry
//! derives a deterministic UUID from it by a namespace hash, so the same
//! legacy id always lands on the same row.  Upserts follow coalesce
//! semantics: an absent field leaves the stored value untouched.  The
//! heartbeat map is process-local and feeds the live summary only.

use vstd::prelude::*;

use vstd::string::StringSliceAdditionalSpecFns;

use crate::dispatch::AgentRecord;
use crate::models::AgentSummary;
use crate::text::str_eq;

verus! {

/// What uuid's `Uuid::parse_str` returns for these characters, as the
/// 128-bit value of the parsed UUID: a function of the characters alone.
pub uninterp spec fn uuid_parse_of(s: Seq<char>) -> Option<u128>;

/// Relies on uuid's Uuid::parse_str: accepts the documented UUID text
/// forms; the outcome depends on the characters alone.
#[verifier::external_body]
fn parse_uuid_value(s: &str) -> (r: Option<u128>)
    ensures
        r == uuid_parse_of(s@),
{
    match uuid::Uuid::parse_str(s) {
        Ok(u) => Some(u.as_u128()),
        Err(_) => None,
    }
}

/// What uuid's `Uuid::new_v5` returns in the URL namespace for these name
/// bytes: a SHA-1-based function of the bytes alone.
pub uninterp spec fn uuid_v5_url_of(name: Seq<u8>) -> u128;

/// Relies on uuid's Uuid::new_v5 with the URL namespace: deterministic in
/// the name bytes.
#[verifier::external_body]
fn derive_uuid_v5_url(name: &[u8]) -> (r: u128)
    ensures
        r == uuid_v5_url_of(name@),
{
    uuid::Uuid::new_v5(&uuid::Uuid::NAMESPACE_URL, name).as_u128()
}

/// Why an agent identity could not be resolved.
#[derive(Clone, Copy, PartialEq, Eq, Structural, Debug)]
pub enum RegistryError {
    InvalidAgentUid,
    MissingAgentUid,
}

/// Parse a caller-supplied agent UID; anything but a UUID is refused.
pub fn parse_agent_uid(value: &str) -> (r: Result<u128, RegistryError>)
    ensures
        uuid_parse_of(value@) matches Some(u) ==> r == Ok::<u128, RegistryError>(u),
        uuid_parse_of(value@) is None ==> r == Err::<u128, RegistryError>(
            RegistryError::InvalidAgentUid,
        ),
{
    match parse_uuid_value(value) {
        Some(u) => Ok(u),
        None => Err(RegistryError::InvalidAgentUid),
    }
}

/// Resolve the canonical agent UUID: an explicit UID must parse; a node id
/// that parses as a UUID is taken as it is; any other node id is hashed
/// into the URL namespace, so the same legacy id always resolves to the
/// same agent.  The display name is the node id, when one was given.
pub fn resolve_agent_uid(agent_uid: Option<&str>, node_id: Option<&str>) -> (r: Result<
    (u128, Option<String>),
    RegistryError,
>)
    ensures
        agent_uid matches Some(a) ==> (match uuid_parse_of(a@) {
            Some(u) => r matches Ok(p) && p.0 == u && p.1 is None,
            None => r == Err::<(u128, Option<String>), RegistryError>(
                RegistryError::InvalidAgentUid,
            ),
        }),
        agent_uid is None ==> (match node_id {
            Some(n) => r matches Ok(p) && p.0 == (match uuid_parse_of(n@) {
                Some(u) => u,
                None => uuid_v5_url_of(n.spec_bytes()),
            }) && (p.1 matches Some(d) && d@ == n@),
            None => r == Err::<(u128, Option<String>), RegistryError>(
                RegistryError::MissingAgentUid,
            ),
        }),
{
    if let Some(a) = agent_uid {
        return match parse_uuid_value(a) {
            Some(u) => Ok((u, None)),
            None => Err(RegistryError::InvalidAgentUid),
        };
    }
    if let Some(n) = node_id {
        return match parse_uuid_value(n) {
            Some(u) => Ok((u, Some(String::from_str(n)))),
            None => Ok((derive_uuid_v5_url(n.as_bytes()), Some(String::from_str(n)))),
        };
    }
    Err(RegistryError::MissingAgentUid)
}

/// One registered agent: identity, caps in percent, block state, and when
/// it was last seen (seconds since the epoch).
pub struct RegisteredAgent {
    pub agent_uid: u128,
    pub internal_id: i64,
    pub display_name: Option<String>,
    pub cpu_limit_percent: Option<u64>,
    pub gpu_limit_percent: Option<u64>,
    pub ram_limit_percent: Option<u64>,
    pub blocked: bool,
    pub blocked_reason: Option<String>,
    pub last_seen: u64,
}

/// The row after an upsert: given fields overwrite, absent fields keep the
/// stored value, the block state is untouched, and the agent is marked
/// seen now.
pub open spec fn spec_upsert_merge(
    prior: RegisteredAgent,
    display_name: Option<String>,
    cpu: Option<u64>,
    gpu: Option<u64>,
    ram: Option<u64>,
    now: u64,
) -> RegisteredAgent {
    RegisteredAgent {
        agent_uid: prior.agent_uid,
        internal_id: prior.internal_id,
        display_name: if display_name is Some {
            display_name
        } else {
            prior.display_name
        },
        cpu_limit_percent: if cpu is Some {
            cpu
        } else {
            prior.cpu_limit_percent
        },
        gpu_limit_percent: if gpu is Some {
            gpu
        } else {
            prior.gpu_limit_percent
        },
        ram_limit_percent: if ram is Some {
            ram
        } else {
            prior.ram_limit_percent
        },
        blocked: prior.blocked,
        blocked_reason: prior.blocked_reason,
        last_seen: now,
    }
}

/// The UUID-keyed agent registry.
pub struct AgentRegistry {
    pub agents: Vec<RegisteredAgent>,
    pub next_id: i64,
}

/// Some row carries this agent UUID.
pub open spec fn has_uid(agents: Seq<RegisteredAgent>, uid: u128) -> bool {
    exists|i: int| 0 <= i < agents.len() && agents[i].agent_uid == uid
}

impl AgentRegistry {
    /// Agent UUIDs are unique and internal ids stay below `next_id`.
    pub open spec fn wf(self) -> bool {
        &&& forall|i: int, j: int|
            0 <= i < j < self.agents@.len() ==> (#[trigger] self.agents@[i]).agent_uid
                != (#[trigger] self.agents@[j]).agent_uid
        &&& forall|i: int|
            0 <= i < self.agents@.len() ==> (#[trigger] self.agents@[i]).internal_id < self.next_id
    }

    /// An empty registry.
    pub fn new() -> (r: AgentRegistry)
        ensures
            r.wf(),
            r.agents@.len() == 0,
            r.next_id == 1i64,
    {
        AgentRegistry { agents: Vec::new(), next_id: 1 }
    }

    /// Create or refresh the row for this agent UUID and report its id and
    /// block state.  Absent fields keep their stored values; a fresh row
    /// starts unblocked with the given fields.
    pub fn upsert(
        &mut self,
        agent_uid: u128,
        display_name: Option<String>,
        cpu: Option<u64>,
        gpu: Option<u64>,
        ram: Option<u64>,
        now: u64,
    ) -> (r: AgentRecord)
        requires
            old(self).wf(),
            old(self).next_id < i64::MAX,
        ensures
            final(self).wf(),
            has_uid(old(self).agents@, agent_uid) ==> (final(self).agents@.len() == old(self).agents@.len() && final(self).next_id == old(self).next_id && (forall|i: int|
                0 <= i < old(self).agents@.len() && (#[trigger] old(self).agents@[i]).agent_uid
                    == agent_uid ==> final(self).agents@[i] == spec_upsert_merge(
                    old(self).agents@[i],
                    display_name,
                    cpu,
                    gpu,
                    ram,
                    now,
                ) && r.id == old(self).agents@[i].internal_id && r.blocked == old(self).agents@[i].blocked && r.blocked_reason == old(self).agents@[i].blocked_reason)
                && (forall|i: int|
                0 <= i < old(self).agents@.len() && (#[trigger] old(self).agents@[i]).agent_uid
                    != agent_uid ==> final(self).agents@[i] == old(self).agents@[i])),
            !has_uid(old(self).agents@, agent_uid) ==> (final(self).agents@ == old(self).agents@.push(
                RegisteredAgent {
                    agent_uid,
                    internal_id: old(self).next_id,
                    display_name,
                    cpu_limit_percent: cpu,
                    gpu_limit_percent: gpu,
                    ram_limit_percent: ram,
                    blocked: false,
                    blocked_reason: None,
                    last_seen: now,
                },
            ) && final(self).next_id == old(self).next_id + 1 && r.id == old(self).next_id
                && !r.blocked && r.blocked_reason is None),
    {
        let len = self.agents.len();
        let mut i: usize = 0;
        while i < len
            invariant
                i <= len,
                len == self.agents@.len(),
                old(self).wf(),
                old(self).next_id < i64::MAX,
                *self == *old(self),
                forall|j: int| 0 <= j < i ==> (#[trigger] self.agents@[j]).agent_uid != agent_uid,
            decreases len - i,
        {
            if self.agents[i].agent_uid == agent_uid {
                proof {
                    assert(has_uid(self.agents@, agent_uid));
                    assert forall|j: int|
                        0 <= j < old(self).agents@.len() && j != i as int implies (
                    #[trigger] old(self).agents@[j]).agent_uid != agent_uid by {
                        if j < i as int {
                        } else {
                            assert(old(self).agents@[i as int].agent_uid != old(self).agents@[j].agent_uid);
                        }
                    }
                }
                let prior = &self.agents[i];
                let record = AgentRecord {
                    id: prior.internal_id,
                    blocked: prior.blocked,
                    blocked_reason: match &prior.blocked_reason {
                        Some(s) => Some(s.clone()),
                        None => None,
                    },
                };
                let updated = RegisteredAgent {
                    agent_uid: prior.agent_uid,
                    internal_id: prior.internal_id,
                    display_name: match (display_name, &prior.display_name) {
                        (Some(d), _) => Some(d),
                        (None, Some(p)) => Some(p.clone()),
                        (None, None) => None,
                    },
                    cpu_limit_percent: match (cpu, prior.cpu_limit_percent) {
                        (Some(v), _) => Some(v),
                        (None, prior_v) => prior_v,
                    },
                    gpu_limit_percent: match (gpu, prior.gpu_limit_percent) {
                        (Some(v), _) => Some(v),
                        (None, prior_v) => prior_v,
                    },
                    ram_limit_percent: match (ram, prior.ram_limit_percent) {
                        (Some(v), _) => Some(v),
                        (None, prior_v) => prior_v,
                    },
                    blocked: prior.blocked,
                    blocked_reason: match &prior.blocked_reason {
                        Some(s) => Some(s.clone()),
                        None => None,
                    },
                    last_seen: now,
                };
                self.agents[i] = updated;
                return record;
            }
            i = i + 1;
        }
        let id = self.next_id;
        self.agents.push(
            RegisteredAgent {
                agent_uid,
                internal_id: id,
                display_name,
                cpu_limit_percent: cpu,
                gpu_limit_percent: gpu,
                ram_limit_percent: ram,
                blocked: false,
                blocked_reason: None,
                last_seen: now,
            },
        );
        self.next_id = id + 1;
        AgentRecord { id, blocked: false, blocked_reason: None }
    }

    /// Look up an agent's id and block state by UUID.
    pub fn find_blocked(&self, agent_uid: u128) -> (r: Option<AgentRecord>)
        requires
            self.wf(),
        ensures
            has_uid(self.agents@, agent_uid) ==> (r matches Some(rec) && (forall|i: int|
                0 <= i < self.agents@.len() && (#[trigger] self.agents@[i]).agent_uid == agent_uid
                    ==> rec.id == self.agents@[i].internal_id && rec.blocked
                    == self.agents@[i].blocked && rec.blocked_reason
                    == self.agents@[i].blocked_reason)),
            !has_uid(self.agents@, agent_uid) ==> r is None,
    {
        let len = self.agents.len();
        let mut i: usize = 0;
        while i < len
            invariant
                self.wf(),
                i <= len,
                len == self.agents@.len(),
                forall|j: int| 0 <= j < i ==> (#[trigger] self.agents@[j]).agent_uid != agent_uid,
            decreases len - i,
        {
            if self.agents[i].agent_uid == agent_uid {
                let prior = &self.agents[i];
                proof {
                    assert(has_uid(self.agents@, agent_uid));
                    assert forall|j: int|
                        0 <= j < self.agents@.len() && j != i as int implies (
                    #[trigger] self.agents@[j]).agent_uid != agent_uid by {
                        if j >= i as int {
                            assert(self.agents@[i as int].agent_uid != self.agents@[j].agent_uid);
                        }
                    }
                }
                return Some(
                    AgentRecord {
                        id: prior.internal_id,
                        blocked: prior.blocked,
                        blocked_reason: match &prior.blocked_reason {
                            Some(s) => Some(s.clone()),
                            None => None,
                        },
                    },
                );
            }
            i = i + 1;
        }
        None
    }
}

/// One node's last heartbeat, in seconds since the epoch.
pub struct AgentHeartbeat {
    pub last_seen: u64,
}

/// The liveness tracker: last heartbeat per node id, in memory only.
pub struct LivenessTracker {
    pub entries: Vec<(String, u64)>,
}

/// Some entry carries this node id.
pub open spec fn has_node(entries: Seq<(String, u64)>, node: Seq<char>) -> bool {
    exists|i: int| 0 <= i < entries.len() && entries[i].0@ == node
}

impl LivenessTracker {
    /// Node ids are unique.
    pub open spec fn wf(self) -> bool {
        forall|i: int, j: int|
            0 <= i < j < self.entries@.len() ==> (#[trigger] self.entries@[i]).0@
                != (#[trigger] self.entries@[j]).0@
    }

    /// An empty tracker.
    pub fn new() -> (r: LivenessTracker)
        ensures
            r.wf(),
            r.entries@.len() == 0,
    {
        LivenessTracker { entries: Vec::new() }
    }

    /// Record a heartbeat: the node's entry is set to `now`, other entries
    /// are untouched, and an unknown node is appended.
    pub fn record(&mut self, node_id: &str, now: u64)
        requires
            old(self).wf(),
        ensures
            final(self).wf(),
            has_node(old(self).entries@, node_id@) ==> (final(self).entries@.len() == old(self).entries@.len() && (forall|i: int|
                0 <= i < old(self).entries@.len() && (#[trigger] old(self).entries@[i]).0@
                    == node_id@ ==> final(self).entries@[i].0@ == node_id@ && final(self).entries@[i].1 == now) && (forall|i: int|
                0 <= i < old(self).entries@.len() && (#[trigger] old(self).entries@[i]).0@
                    != node_id@ ==> final(self).entries@[i] == old(self).entries@[i])),
            !has_node(old(self).entries@, node_id@) ==> (final(self).entries@.len() == old(self).entries@.len() + 1 && (forall|i: int|
                0 <= i < old(self).entries@.len() ==> #[trigger] final(self).entries@[i] == old(self).entries@[i]) && final(self).entries@.last().0@ == node_id@ && final(self).entries@.last().1 == now),
    {
        let len = self.entries.len();
        let mut i: usize = 0;
        while i < len
            invariant
                i <= len,
                len == self.entries@.len(),
                old(self).wf(),
                *self == *old(self),
                forall|j: int| 0 <= j < i ==> (#[trigger] self.entries@[j]).0@ != node_id@,
            decreases len - i,
        {
            if str_eq(self.entries[i].0.as_str(), node_id) {
                proof {
                    assert(has_node(self.entries@, node_id@));
                    assert forall|j: int|
                        0 <= j < old(self).entries@.len() && j != i as int implies (
                    #[trigger] old(self).entries@[j]).0@ != node_id@ by {
                        if j >= i as int {
                            assert(old(self).entries@[i as int].0@ != old(self).entries@[j].0@);
                        }
                    }
                }
                let key = self.entries[i].0.clone();
                self.entries[i] = (key, now);
                return ;
            }
            i = i + 1;
        }
        self.entries.push((String::from_str(node_id), now));
    }

    /// Build the agent lines of the live summary: a node heard from within
    /// the staleness threshold is `online`, any other is `idle`, and the
    /// age shown is the time since its last heartbeat.
    pub fn summarize(&self, now: u64, ttl_secs: u64) -> (r: Vec<AgentSummary>)
        ensures
            r@.len() == self.entries@.len(),
            forall|i: int|
                0 <= i < self.entries@.len() ==> {
                    let e = #[trigger] self.entries@[i];
                    let elapsed = if now >= e.1 {
                        now - e.1
                    } else {
                        0
                    };
                    &&& r@[i].id@ == e.0@
                    &&& r@[i].last_seen_secs == elapsed
                    &&& r@[i].status@ == (if elapsed <= ttl_secs {
                        "online"@
                    } else {
                        "idle"@
                    })
                },
    {
        let len = self.entries.len();
        let mut out: Vec<AgentSummary> = Vec::new();
        let mut i: usize = 0;
        while i < len
            invariant
                i <= len,
                len == self.entries@.len(),
                out@.len() == i,
                forall|j: int|
                    0 <= j < i ==> {
                        let e = #[trigger] self.entries@[j];
                        let elapsed = if now >= e.1 {
                            now - e.1
                        } else {
                            0
                        };
                        &&& out@[j].id@ == e.0@
                        &&& out@[j].last_seen_secs == elapsed
                        &&& out@[j].status@ == (if elapsed <= ttl_secs {
                            "online"@
                        } else {
                            "idle"@
                        })
                    },
            decreases len - i,
        {
            let e = &self.entries[i];
            let elapsed: u64 = if now >= e.1 {
                now - e.1
            } else {
                0
            };
            let status = if elapsed <= ttl_secs {
                "online"
            } else {
                "idle"
            };
            out.push(
                AgentSummary {
                    id: e.0.clone(),
                    status: String::from_str(status),
                    last_seen_secs: elapsed,
                    region: String::from_str("local"),
                    reputation: String::from_str("0.8"),
                },
            );
            i = i + 1;
        }
        out
    }
}


/// One (agent, project) preference row: the task types the agent accepts.
pub struct PreferenceRow {
    pub agent_id: i64,
    pub project_id: i64,
    pub allowed_task_types: Vec<String>,
}

/// Some row carries this (agent, project) pair.
pub open spec fn has_pref(rows: Seq<PreferenceRow>, agent_id: i64, project_id: i64) -> bool {
    exists|i: int|
        0 <= i < rows.len() && rows[i].agent_id == agent_id && rows[i].project_id == project_id
}

/// Per-agent, per-project task-type preferences.  An empty or missing list
/// means no filter.
pub struct PreferenceStore {
    pub rows: Vec<PreferenceRow>,
}

impl PreferenceStore {
    /// At most one row per (agent, project) pair.
    pub open spec fn wf(self) -> bool {
        forall|i: int, j: int|
            0 <= i < j < self.rows@.len() ==> !((#[trigger] self.rows@[i]).agent_id
                == (#[trigger] self.rows@[j]).agent_id && self.rows@[i].project_id
                == self.rows@[j].project_id)
    }

    /// An empty preference store.
    pub fn new() -> (r: PreferenceStore)
        ensures
            r.wf(),
            r.rows@.len() == 0,
    {
        PreferenceStore { rows: Vec::new() }
    }

    /// Replace the agent's preference list for one project, or record it
    /// for the first time.
    pub fn set_preferences(&mut self, agent_id: i64, project_id: i64, types: Vec<String>)
        requires
            old(self).wf(),
        ensures
            final(self).wf(),
            has_pref(old(self).rows@, agent_id, project_id) ==> (final(self).rows@.len() == old(self).rows@.len() && (forall|i: int|
                0 <= i < old(self).rows@.len() && (#[trigger] old(self).rows@[i]).agent_id
                    == agent_id && old(self).rows@[i].project_id == project_id ==> final(self).rows@[i] == (PreferenceRow { agent_id, project_id, allowed_task_types: types }))
                && (forall|i: int|
                0 <= i < old(self).rows@.len() && !((#[trigger] old(self).rows@[i]).agent_id
                    == agent_id && old(self).rows@[i].project_id == project_id) ==> final(self).rows@[i] == old(self).rows@[i])),
            !has_pref(old(self).rows@, agent_id, project_id) ==> final(self).rows@ == old(self).rows@.push(PreferenceRow { agent_id, project_id, allowed_task_types: types }),
    {
        let len = self.rows.len();
        let mut i: usize = 0;
        while i < len
            invariant
                i <= len,
                len == self.rows@.len(),
                old(self).wf(),
                *self == *old(self),
                forall|j: int|
                    0 <= j < i ==> !((#[trigger] self.rows@[j]).agent_id == agent_id
                        && self.rows@[j].project_id == project_id),
            decreases len - i,
        {
            if self.rows[i].agent_id == agent_id && self.rows[i].project_id == project_id {
                proof {
                    assert(has_pref(self.rows@, agent_id, project_id));
                    assert forall|j: int|
                        0 <= j < old(self).rows@.len() && j != i as int implies !((
                    #[trigger] old(self).rows@[j]).agent_id == agent_id && old(self).rows@[j].project_id == project_id) by {
                        if j >= i as int {
                            assert(!(old(self).rows@[i as int].agent_id == old(self).rows@[j].agent_id && old(self).rows@[i as int].project_id == old(self).rows@[j].project_id));
                        }
                    }
                }
                self.rows[i] = PreferenceRow { agent_id, project_id, allowed_task_types: types };
                return ;
            }
            i = i + 1;
        }
        self.rows.push(PreferenceRow { agent_id, project_id, allowed_task_types: types });
    }

    /// The agent's stored preference list for one project, if any.
    pub fn fetch_preferences(&self, agent_id: i64, project_id: i64) -> (r: Option<Vec<String>>)
        requires
            self.wf(),
        ensures
            has_pref(self.rows@, agent_id, project_id) ==> (r matches Some(types) && (forall|
                i: int,
            |
                0 <= i < self.rows@.len() && (#[trigger] self.rows@[i]).agent_id == agent_id
                    && self.rows@[i].project_id == project_id ==> types.deep_view()
                    == self.rows@[i].allowed_task_types.deep_view())),
            !has_pref(self.rows@, agent_id, project_id) ==> r is None,
    {
        let len = self.rows.len();
        let mut i: usize = 0;
        while i < len
            invariant
                self.wf(),
                i <= len,
                len == self.rows@.len(),
                forall|j: int|
                    0 <= j < i ==> !((#[trigger] self.rows@[j]).agent_id == agent_id
                        && self.rows@[j].project_id == project_id),
            decreases len - i,
        {
            if self.rows[i].agent_id == agent_id && self.rows[i].project_id == project_id {
                proof {
                    assert(has_pref(self.rows@, agent_id, project_id));
                    assert forall|j: int|
                        0 <= j < self.rows@.len() && j != i as int implies !((
                    #[trigger] self.rows@[j]).agent_id == agent_id && self.rows@[j].project_id
                        == project_id) by {
                        if j >= i as int {
                            assert(!(self.rows@[i as int].agent_id == self.rows@[j].agent_id
                                && self.rows@[i as int].project_id == self.rows@[j].project_id));
                        }
                    }
                }
                let stored = &self.rows[i].allowed_task_types;
                let mut copy: Vec<String> = Vec::new();
                let stored_len = stored.len();
                let mut k: usize = 0;
                while k < stored_len
                    invariant
                        k <= stored_len,
                        stored_len == stored@.len(),
                        copy@.len() == k,
                        forall|l: int| 0 <= l < k ==> (#[trigger] copy@[l])@ == stored@[l]@,
                    decreases stored_len - k,
                {
                    copy.push(stored[k].clone());
                    k = k + 1;
                }
                proof {
                    assert(copy.deep_view() =~= stored.deep_view());
                }
                return Some(copy);
            }
            i = i + 1;
        }
        None
    }
}

/// The hardware snapshots, one per agent, as opaque text blobs.
pub struct HardwareStore {
    pub rows: Vec<(i64, String)>,
}

/// Some row carries this agent id.
pub open spec fn has_hardware(rows: Seq<(i64, String)>, agent_id: i64) -> bool {
    exists|i: int| 0 <= i < rows.len() && rows[i].0 == agent_id
}

impl HardwareStore {
    /// At most one snapshot per agent.
    pub open spec fn wf(self) -> bool {
        forall|i: int, j: int|
            0 <= i < j < self.rows@.len() ==> (#[trigger] self.rows@[i]).0
                != (#[trigger] self.rows@[j]).0
    }

    /// An empty hardware store.
    pub fn new() -> (r: HardwareStore)
        ensures
            r.wf(),
            r.rows@.len() == 0,
    {
        HardwareStore { rows: Vec::new() }
    }

    /// Record or replace an agent's hardware snapshot.
    pub fn set_hardware(&mut self, agent_id: i64, snapshot: String)
        requires
            old(self).wf(),
        ensures
            final(self).wf(),
            has_hardware(old(self).rows@, agent_id) ==> (final(self).rows@.len() == old(self).rows@.len() && (forall|i: int|
                0 <= i < old(self).rows@.len() && (#[trigger] old(self).rows@[i]).0 == agent_id
                    ==> final(self).rows@[i] == (agent_id, snapshot)) && (forall|i: int|
                0 <= i < old(self).rows@.len() && (#[trigger] old(self).rows@[i]).0 != agent_id
                    ==> final(self).rows@[i] == old(self).rows@[i])),
            !has_hardware(old(self).rows@, agent_id) ==> final(self).rows@ == old(self).rows@.push((agent_id, snapshot)),
    {
        let len = self.rows.len();
        let mut i: usize = 0;
        while i < len
            invariant
                i <= len,
                len == self.rows@.len(),
                old(self).wf(),
                *self == *old(self),
                forall|j: int| 0 <= j < i ==> (#[trigger] self.rows@[j]).0 != agent_id,
            decreases len - i,
        {
            if self.rows[i].0 == agent_id {
                proof {
                    assert(has_hardware(self.rows@, agent_id));
                    assert forall|j: int|
                        0 <= j < old(self).rows@.len() && j != i as int implies (
                    #[trigger] old(self).rows@[j]).0 != agent_id by {
                        if j >= i as int {
                            assert(old(self).rows@[i as int].0 != old(self).rows@[j].0);
                        }
                    }
                }
                self.rows[i] = (agent_id, snapshot);
                return ;
            }
            i = i + 1;
        }
        self.rows.push((agent_id, snapshot));
    }
}

/// The append-only metrics log: one timestamped sample per upload.
pub struct MetricsLog {
    pub rows: Vec<(i64, crate::sandbox::MetricsSample)>,
}

impl MetricsLog {
    /// An empty metrics log.
    pub fn new() -> (r: MetricsLog)
        ensures
            r.rows@.len() == 0,
    {
        MetricsLog { rows: Vec::new() }
    }

    /// Append one sample for an agent; earlier samples are never touched.
    pub fn append_metrics(&mut self, agent_id: i64, sample: crate::sandbox::MetricsSample)
        ensures
            final(self).rows@ == old(self).rows@.push((agent_id, sample)),
    {
        self.rows.push((agent_id, sample));
    }
}

} // verus!
