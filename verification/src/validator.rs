//! Validator pipeline: deciding what an explicit validation call or a
//! server-side re-run says about an agent's result.
//!
//! The decision rules are pure: equal inputs always yield equal decisions,
//! which `lemma_recheck_deterministic` states outright.  The pattern
//! screener `inspect` flags scripts that mention modules or calls from a
//! fixed deny-list; it is a heuristic, not a security boundary.

use vstd::prelude::*;

use crate::text::contains_seq;
use crate::text::str_contains;
use crate::text::str_eq;

verus! {

/// The validator's verdict on one task result.
#[derive(Clone, Copy, PartialEq, Eq, Structural, Debug)]
pub enum Decision {
    Valid,
    NeedsRecheck,
    Suspicious,
}

impl Decision {
    /// The wire label of this decision.
    pub fn as_str(&self) -> (r: &'static str)
        ensures
            r@ == self.spec_label(),
    {
        match self {
            Decision::Valid => "ok",
            Decision::NeedsRecheck => "needs_recheck",
            Decision::Suspicious => "suspicious",
        }
    }

    /// The label each decision prints as.
    pub open spec fn spec_label(self) -> Seq<char> {
        match self {
            Decision::Valid => "ok"@,
            Decision::NeedsRecheck => "needs_recheck"@,
            Decision::Suspicious => "suspicious"@,
        }
    }
}

/// An explicit validation call: the validator names the outcome, or leaves
/// hints in the result hash.
pub struct ValidateRequest {
    pub task_id: i64,
    pub device_id: i64,
    pub result_hash: Option<String>,
    pub outcome: Option<String>,
}

/// A short error body returned by the validation endpoints.
pub struct ErrorResponse {
    pub code: String,
    pub message: String,
}

/// A request to re-run one task server-side.
pub struct SandboxRecheckRequest {
    pub project_id: i64,
    pub task_id: i64,
    pub device_id: Option<i64>,
}

/// A request for the completion counts of one task group.
pub struct SandboxAggregateRequest {
    pub project_id: i64,
    pub group_id: String,
}

/// What `decide` returns for given outcome and hash hints.
pub open spec fn spec_decide(outcome: Option<Seq<char>>, result_hash: Option<Seq<char>>) -> Decision {
    match outcome {
        Some(o) => if o == "ok"@ || o == "OK"@ {
            Decision::Valid
        } else if o == "needs_recheck"@ || o == "NEEDS_RECHECK"@ {
            Decision::NeedsRecheck
        } else if o == "suspicious"@ || o == "SUSPICIOUS"@ {
            Decision::Suspicious
        } else {
            Decision::NeedsRecheck
        },
        None => match result_hash {
            Some(h) => if h == "recheck"@ {
                Decision::NeedsRecheck
            } else if h == "suspicious"@ {
                Decision::Suspicious
            } else {
                Decision::Valid
            },
            None => Decision::Valid,
        },
    }
}

/// The views of an optional string.
pub open spec fn opt_view(s: Option<String>) -> Option<Seq<char>> {
    match s {
        Some(v) => Some(v@),
        None => None,
    }
}

/// Decide from an explicit validation call: the stated outcome wins; absent
/// one, the result-hash hints decide; absent both, the result stands.
pub fn decide(payload: &ValidateRequest) -> (r: Decision)
    ensures
        r == spec_decide(opt_view(payload.outcome), opt_view(payload.result_hash)),
{
    match &payload.outcome {
        Some(o) => {
            if str_eq(o.as_str(), "ok") || str_eq(o.as_str(), "OK") {
                Decision::Valid
            } else if str_eq(o.as_str(), "needs_recheck") || str_eq(o.as_str(), "NEEDS_RECHECK") {
                Decision::NeedsRecheck
            } else if str_eq(o.as_str(), "suspicious") || str_eq(o.as_str(), "SUSPICIOUS") {
                Decision::Suspicious
            } else {
                Decision::NeedsRecheck
            }
        },
        None => {
            match &payload.result_hash {
                Some(h) => {
                    if str_eq(h.as_str(), "recheck") {
                        Decision::NeedsRecheck
                    } else if str_eq(h.as_str(), "suspicious") {
                        Decision::Suspicious
                    } else {
                        Decision::Valid
                    }
                },
                None => Decision::Valid,
            }
        },
    }
}

/// The task payload as the validator reads it: an inline script or a
/// reference by content hash, inputs as name–content pairs, and the group
/// bookkeeping fields.
pub struct TaskPayload {
    pub kind: Option<String>,
    pub script: Option<String>,
    pub script_url: Option<String>,
    pub script_sha256: Option<String>,
    pub args: Option<Vec<String>>,
    pub inputs: Option<Vec<(String, String)>>,
    pub group_id: Option<String>,
    pub parent_task_id: Option<i64>,
}

/// What the agent reported for a task, as far as the validator needs it.
pub struct AgentResult {
    pub status: Option<String>,
    pub stdout: Option<String>,
    pub stderr: Option<String>,
    pub duration_ms: Option<u64>,
    pub stdout_sha256: Option<String>,
    pub script_sha256: Option<String>,
    pub error: Option<String>,
}

/// What the server-side re-run produced.
pub struct ServerSandboxResult {
    pub status: String,
    pub stdout: String,
    pub stderr: String,
    pub duration_ms: u64,
    pub started_at_ms: u128,
    pub ended_at_ms: u128,
    pub exit_code: Option<i32>,
    pub error: Option<String>,
    pub stdout_sha256: String,
    pub script_sha256: String,
}

/// The agent's report matches the re-run bit for bit: same stdout hash and
/// same status, an absent agent status counting as `error`.
pub open spec fn spec_results_match(
    agent_status: Option<Seq<char>>,
    agent_stdout_sha256: Option<Seq<char>>,
    server_status: Seq<char>,
    server_stdout_sha256: Seq<char>,
) -> bool {
    &&& agent_stdout_sha256 == Some(server_stdout_sha256)
    &&& match agent_status {
        Some(s) => s == server_status,
        None => "error"@ == server_status,
    }
}

/// What the bit-for-bit comparison decides: `ok` on a match,
/// `needs_recheck` otherwise — in particular whenever the agent never
/// reported a result.
pub open spec fn spec_recheck_decision(
    agent: Option<AgentResult>,
    server_status: Seq<char>,
    server_stdout_sha256: Seq<char>,
) -> Decision {
    match agent {
        Some(a) => if spec_results_match(
            opt_view(a.status),
            opt_view(a.stdout_sha256),
            server_status,
            server_stdout_sha256,
        ) {
            Decision::Valid
        } else {
            Decision::NeedsRecheck
        },
        None => Decision::NeedsRecheck,
    }
}

/// Compare the agent's reported result against the server re-run, bit for
/// bit; the screener's flag is folded in afterwards by `apply_ai_flag`.
pub fn recheck_decision(agent: Option<&AgentResult>, server: &ServerSandboxResult) -> (r: Decision)
    ensures
        r == spec_recheck_decision(
            match agent {
                Some(a) => Some(*a),
                None => None,
            },
            server.status@,
            server.stdout_sha256@,
        ),
{
    match agent {
        Some(a) => {
            let hash_match = match &a.stdout_sha256 {
                Some(h) => str_eq(h.as_str(), server.stdout_sha256.as_str()),
                None => false,
            };
            let status_match = match &a.status {
                Some(s) => str_eq(s.as_str(), server.status.as_str()),
                None => str_eq("error", server.status.as_str()),
            };
            if hash_match && status_match {
                Decision::Valid
            } else {
                Decision::NeedsRecheck
            }
        },
        None => Decision::NeedsRecheck,
    }
}

/// The comparison verdict with the screener's flag folded in: no flag
/// keeps the verdict; a `remote_script` flag marks the task for recheck —
/// such a payload is never re-run; any other flag is suspicious whatever
/// the comparison said.
pub open spec fn spec_apply_ai_flag(compared: Decision, ai_flag: Option<Seq<char>>) -> Decision {
    match ai_flag {
        None => compared,
        Some(f) => if f == "remote_script"@ {
            Decision::NeedsRecheck
        } else {
            Decision::Suspicious
        },
    }
}

/// Fold the screener's flag into the comparison verdict.
pub fn apply_ai_flag(compared: Decision, ai_flag: Option<&String>) -> (r: Decision)
    ensures
        r == spec_apply_ai_flag(
            compared,
            match ai_flag {
                Some(f) => Some(f@),
                None => None,
            },
        ),
{
    match ai_flag {
        None => compared,
        Some(f) => {
            if str_eq(f.as_str(), "remote_script") {
                Decision::NeedsRecheck
            } else {
                Decision::Suspicious
            }
        },
    }
}

/// The validator's decision depends on nothing but the compared fields and
/// the screener flag: equal inputs always yield the same decision.
pub proof fn lemma_recheck_deterministic(
    a1: Option<AgentResult>,
    a2: Option<AgentResult>,
    server_status: Seq<char>,
    server_stdout_sha256: Seq<char>,
    ai_flag: Option<Seq<char>>,
)
    requires
        match (a1, a2) {
            (Some(x), Some(y)) => opt_view(x.status) == opt_view(y.status) && opt_view(
                x.stdout_sha256,
            ) == opt_view(y.stdout_sha256),
            (None, None) => true,
            _ => false,
        },
    ensures
        spec_apply_ai_flag(
            spec_recheck_decision(a1, server_status, server_stdout_sha256),
            ai_flag,
        ) == spec_apply_ai_flag(
            spec_recheck_decision(a2, server_status, server_stdout_sha256),
            ai_flag,
        ),
{
}

/// A script is flagged when it mentions any entry of the deny-list: module
/// imports that reach the file system, network or processes, and dynamic
/// evaluation.
pub open spec fn spec_has_risky_token(script: Seq<char>) -> bool {
    ||| contains_seq(script, "import os"@)
    ||| contains_seq(script, "import subprocess"@)
    ||| contains_seq(script, "socket"@)
    ||| contains_seq(script, "requests"@)
    ||| contains_seq(script, "open("@)
    ||| contains_seq(script, "shutil"@)
    ||| contains_seq(script, "pathlib"@)
    ||| contains_seq(script, "__import__"@)
    ||| contains_seq(script, "eval("@)
}

/// Does the script mention any deny-list entry?
pub fn has_risky_token(script: &str) -> (r: bool)
    ensures
        r == spec_has_risky_token(script@),
{
    str_contains(script, "import os") || str_contains(script, "import subprocess")
        || str_contains(script, "socket") || str_contains(script, "requests") || str_contains(
        script,
        "open(",
    ) || str_contains(script, "shutil") || str_contains(script, "pathlib") || str_contains(
        script,
        "__import__",
    ) || str_contains(script, "eval(")
}

/// What `inspect` flags, if anything: a payload whose only script is a
/// remote reference is never re-run and is marked `remote_script`; one
/// with no script at all, or an empty inline script, has nothing to check;
/// a deny-list match outranks the execution outcome; a failed or oversized
/// run is reported after that.  The stdout bound is counted in characters.
pub open spec fn spec_inspect(
    script: Option<Seq<char>>,
    has_url: bool,
    result_status: Seq<char>,
    result_stdout: Seq<char>,
) -> Option<Seq<char>> {
    if script is None && has_url {
        Some("remote_script"@)
    } else if script is None || script.unwrap().len() == 0 {
        Some("missing_script"@)
    } else if spec_has_risky_token(script.unwrap()) {
        Some("risky_code_pattern"@)
    } else if result_status != "ok"@ {
        Some("execution_error"@)
    } else if result_stdout.len() > 10000 {
        Some("stdout_too_large"@)
    } else {
        None
    }
}

/// Screen a script and its re-run result.  Returns the flag reason, or
/// `None` when nothing stands out.
pub fn inspect(payload: &TaskPayload, result: &ServerSandboxResult) -> (r: Option<String>)
    ensures
        opt_view(r) == spec_inspect(
            opt_view(payload.script),
            payload.script_url is Some,
            result.status@,
            result.stdout@,
        ),
{
    let script: &str = match &payload.script {
        Some(s) => s.as_str(),
        None => {
            if payload.script_url.is_some() {
                return Some(String::from_str("remote_script"));
            }
            return Some(String::from_str("missing_script"));
        },
    };
    if script.unicode_len() == 0 {
        return Some(String::from_str("missing_script"));
    }
    if has_risky_token(script) {
        return Some(String::from_str("risky_code_pattern"));
    }
    if !str_eq(result.status.as_str(), "ok") {
        return Some(String::from_str("execution_error"));
    }
    if result.stdout.as_str().unicode_len() > 10000 {
        return Some(String::from_str("stdout_too_large"));
    }
    None
}


/// The sum of all shard counts.
pub open spec fn spec_shard_total(rows: Seq<(String, u64)>) -> int
    decreases rows.len(),
{
    if rows.len() == 0 {
        0
    } else {
        spec_shard_total(rows.drop_last()) + rows.last().1 as int
    }
}

/// The sum of the counts whose status marks a finished shard: `done` or
/// `completed`.
pub open spec fn spec_shard_completed(rows: Seq<(String, u64)>) -> int
    decreases rows.len(),
{
    if rows.len() == 0 {
        0
    } else {
        spec_shard_completed(rows.drop_last()) + if rows.last().0@ == "done"@ || rows.last().0@
            == "completed"@ {
            rows.last().1 as int
        } else {
            0
        }
    }
}

/// A prefix never sums above the whole list.
proof fn lemma_shard_prefix_le(rows: Seq<(String, u64)>, n: int)
    requires
        0 <= n <= rows.len(),
    ensures
        spec_shard_total(rows.take(n)) <= spec_shard_total(rows),
        spec_shard_completed(rows.take(n)) <= spec_shard_completed(rows),
        0 <= spec_shard_completed(rows.take(n)) <= spec_shard_total(rows.take(n)),
    decreases rows.len() - n,
{
    if n == rows.len() {
        assert(rows.take(n) =~= rows);
        lemma_shard_completed_le(rows);
    } else {
        lemma_shard_prefix_le(rows, n + 1);
        assert(rows.take(n + 1).drop_last() =~= rows.take(n));
        assert(rows.take(n + 1).last() == rows[n]);
        lemma_shard_completed_le(rows.take(n));
    }
}

/// Completed shards never outnumber all shards.
proof fn lemma_shard_completed_le(rows: Seq<(String, u64)>)
    ensures
        0 <= spec_shard_completed(rows) <= spec_shard_total(rows),
    decreases rows.len(),
{
    if rows.len() > 0 {
        lemma_shard_completed_le(rows.drop_last());
    }
}

/// Fold the per-status counts of one task group into its total and
/// completed shard counts, as the aggregate endpoint reports them.
pub fn fold_shard_counts(rows: &Vec<(String, u64)>) -> (r: (u64, u64))
    requires
        spec_shard_total(rows@) <= u64::MAX,
    ensures
        r.0 == spec_shard_total(rows@),
        r.1 == spec_shard_completed(rows@),
        r.1 <= r.0,
{
    let len = rows.len();
    let mut total: u64 = 0;
    let mut completed: u64 = 0;
    let mut i: usize = 0;
    while i < len
        invariant
            i <= len,
            len == rows@.len(),
            spec_shard_total(rows@) <= u64::MAX,
            total == spec_shard_total(rows@.take(i as int)),
            completed == spec_shard_completed(rows@.take(i as int)),
            completed <= total,
        decreases len - i,
    {
        proof {
            assert(rows@.take(i + 1).drop_last() =~= rows@.take(i as int));
            assert(rows@.take(i + 1).last() == rows@[i as int]);
            lemma_shard_prefix_le(rows@, i + 1);
        }
        let row = &rows[i];
        total = total + row.1;
        if str_eq(row.0.as_str(), "done") || str_eq(row.0.as_str(), "completed") {
            completed = completed + row.1;
        }
        i = i + 1;
    }
    proof {
        assert(rows@.take(len as int) =~= rows@);
    }
    (total, completed)
}

} // verus!
