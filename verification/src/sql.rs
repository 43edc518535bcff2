//! SQL statement builders for the per-project task store.
//!
//! Every project owns an isolated schema holding its `tasks` and
//! `task_results` tables, so each statement is built by splicing the schema
//! name between fixed fragments.  The only defence against injection at this
//! seam is [`is_safe_schema_name`], which callers must hold a schema name to
//! before splicing it; the builders themselves state exactly which text they
//! produce.

use vstd::prelude::*;

verus! {

/// A character a schema name may contain: ASCII lower-case, digit or `_`.
pub open spec fn is_schema_char(c: char) -> bool {
    ||| 97 <= c as u32 <= 122
    ||| 48 <= c as u32 <= 57
    ||| c as u32 == 95
}

/// A safe schema name: only schema characters, starting with `prj_`.
pub open spec fn spec_safe_schema_name(s: Seq<char>) -> bool {
    &&& forall|i: int| 0 <= i < s.len() ==> is_schema_char(#[trigger] s[i])
    &&& s.len() >= 4
    &&& s.subrange(0, 4) == "prj_"@
}

/// Accept a schema name only when it is made of safe characters and carries
/// the `prj_` prefix that the store's own schemas use.
pub fn is_safe_schema_name(name: &str) -> (r: bool)
    ensures
        r == spec_safe_schema_name(name@),
{
    let len = name.unicode_len();
    if len < 4 {
        return false;
    }
    let mut i: usize = 0;
    while i < len
        invariant
            i <= len,
            len == name@.len(),
            forall|j: int| 0 <= j < i ==> is_schema_char(#[trigger] name@[j]),
        decreases len - i,
    {
        let c = name.get_char(i);
        let u = c as u32;
        let ok = (97 <= u && u <= 122) || (48 <= u && u <= 57) || u == 95;
        if !ok {
            return false;
        }
        i = i + 1;
    }
    proof {
        reveal_strlit("prj_");
    }
    let p = if name.get_char(0) == 'p' && name.get_char(1) == 'r' && name.get_char(2) == 'j'
        && name.get_char(3) == '_' {
        proof {
            assert(name@.subrange(0, 4) =~= "prj_"@);
        }
        true
    } else {
        proof {
            assert(name@.subrange(0, 4)[0] == name@[0]);
            assert(name@.subrange(0, 4)[1] == name@[1]);
            assert(name@.subrange(0, 4)[2] == name@[2]);
            assert(name@.subrange(0, 4)[3] == name@[3]);
        }
        false
    };
    p
}

/// Splice a schema name between two fixed statement fragments.
fn spliced(prefix: &str, schema: &str, suffix: &str) -> (r: String)
    ensures
        r@ == prefix@ + schema@ + suffix@,
{
    let mut out = String::from_str(prefix);
    out.append(schema);
    out.append(suffix);
    out
}

pub fn task_insert_sql(schema: &str) -> (r: String)
    ensures
        r@ == "INSERT INTO "@ + schema@
            + ".tasks (status, task_type, payload) VALUES ($1, $2, $3) RETURNING id"@,
{
    spliced(
        "INSERT INTO ",
        schema,
        ".tasks (status, task_type, payload) VALUES ($1, $2, $3) RETURNING id",
    )
}

pub fn task_result_insert_sql(schema: &str) -> (r: String)
    ensures
        r@ == "INSERT INTO "@ + schema@
            + ".task_results (task_id, device_id, status, result) VALUES ($1, $2, $3, $4)"@,
{
    spliced(
        "INSERT INTO ",
        schema,
        ".task_results (task_id, device_id, status, result) VALUES ($1, $2, $3, $4)",
    )
}

pub fn task_select_next_sql(schema: &str) -> (r: String)
    ensures
        r@ == "SELECT id, payload FROM "@ + schema@
            + ".tasks WHERE status = 'queued' ORDER BY id LIMIT 1 FOR UPDATE SKIP LOCKED"@,
{
    spliced(
        "SELECT id, payload FROM ",
        schema,
        ".tasks WHERE status = 'queued' ORDER BY id LIMIT 1 FOR UPDATE SKIP LOCKED",
    )
}

pub fn task_update_status_sql(schema: &str) -> (r: String)
    ensures
        r@ == "UPDATE "@ + schema@ + ".tasks SET status = $1, updated_at = NOW() WHERE id = $2"@,
{
    spliced("UPDATE ", schema, ".tasks SET status = $1, updated_at = NOW() WHERE id = $2")
}

pub fn task_clear_sql(schema: &str) -> (r: String)
    ensures
        r@ == "DELETE FROM "@ + schema@ + ".tasks"@,
{
    spliced("DELETE FROM ", schema, ".tasks")
}

pub fn task_results_clear_sql(schema: &str) -> (r: String)
    ensures
        r@ == "DELETE FROM "@ + schema@ + ".task_results"@,
{
    spliced("DELETE FROM ", schema, ".task_results")
}

pub fn task_status_counts_sql(schema: &str) -> (r: String)
    ensures
        r@ == "SELECT status, COUNT(*) AS count FROM "@ + schema@ + ".tasks GROUP BY status"@,
{
    spliced("SELECT status, COUNT(*) AS count FROM ", schema, ".tasks GROUP BY status")
}

pub fn task_results_sql(schema: &str) -> (r: String)
    ensures
        r@ == "SELECT result FROM "@ + schema@ + ".task_results"@,
{
    spliced("SELECT result FROM ", schema, ".task_results")
}

pub fn task_results_allow_null_device_sql(schema: &str) -> (r: String)
    ensures
        r@ == "ALTER TABLE "@ + schema@ + ".task_results ALTER COLUMN device_id DROP NOT NULL"@,
{
    spliced("ALTER TABLE ", schema, ".task_results ALTER COLUMN device_id DROP NOT NULL")
}

pub fn task_stop_sql(schema: &str) -> (r: String)
    ensures
        r@ == "UPDATE "@ + schema@
            + ".tasks SET status = 'stopped', updated_at = NOW() WHERE status IN ('queued', 'running')"@,
{
    spliced(
        "UPDATE ",
        schema,
        ".tasks SET status = 'stopped', updated_at = NOW() WHERE status IN ('queued', 'running')",
    )
}

pub fn task_followup_exists_sql(schema: &str) -> (r: String)
    ensures
        r@ == "SELECT 1 FROM "@ + schema@
            + ".tasks WHERE payload->>'kind' = 'followup_report' LIMIT 1"@,
{
    spliced("SELECT 1 FROM ", schema, ".tasks WHERE payload->>'kind' = 'followup_report' LIMIT 1")
}

pub fn task_recent_sql(schema: &str) -> (r: String)
    ensures
        r@ == "SELECT id, status, to_char(updated_at, 'YYYY-MM-DD HH24:MI:SS') AS updated_at FROM "@
            + schema@ + ".tasks ORDER BY updated_at DESC, id DESC LIMIT 6"@,
{
    spliced(
        "SELECT id, status, to_char(updated_at, 'YYYY-MM-DD HH24:MI:SS') AS updated_at FROM ",
        schema,
        ".tasks ORDER BY updated_at DESC, id DESC LIMIT 6",
    )
}

pub fn task_payload_select_sql(schema: &str) -> (r: String)
    ensures
        r@ == "SELECT payload FROM "@ + schema@ + ".tasks WHERE id = $1"@,
{
    spliced("SELECT payload FROM ", schema, ".tasks WHERE id = $1")
}

pub fn task_results_latest_sql(schema: &str) -> (r: String)
    ensures
        r@ == "SELECT result FROM "@ + schema@
            + ".task_results WHERE task_id = $1 ORDER BY id DESC LIMIT 1"@,
{
    spliced(
        "SELECT result FROM ",
        schema,
        ".task_results WHERE task_id = $1 ORDER BY id DESC LIMIT 1",
    )
}

pub fn task_group_count_sql(schema: &str) -> (r: String)
    ensures
        r@ == "SELECT status, COUNT(*) AS count FROM "@ + schema@
            + ".tasks WHERE payload->>'group_id' = $1 GROUP BY status"@,
{
    spliced(
        "SELECT status, COUNT(*) AS count FROM ",
        schema,
        ".tasks WHERE payload->>'group_id' = $1 GROUP BY status",
    )
}

} // verus!
