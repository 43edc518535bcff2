//! Per-project task queue with lease-safe dequeue.
//!
//! The store keeps one row per task, identified by a monotonically assigned
//! id, and a result row per completion.  Leasing follows a single-writer
//! lane: `lease_batch` picks the first queued rows in id order that pass the
//! caller's task-type filter, marks them running, and returns them.  The
//! transition predicates below pin each operation exactly, and the proof
//! functions at the end state the store's laws: two leases can never hand
//! out the same task, every lease respects the filter, and the status
//! counts always partition the rows.

use vstd::prelude::*;

use crate::text::str_eq;

verus! {

/// Lifecycle state of one task row.  `Group` rows are bookkeeping parents
/// for fan-out and are never dispatched.
#[derive(Clone, Copy, PartialEq, Eq, Structural, Debug)]
pub enum TaskStatus {
    Queued,
    Running,
    Done,
    Stopped,
    Group,
}

/// One task row inside a project's namespace.
pub struct TaskRow {
    pub id: u64,
    pub status: TaskStatus,
    pub task_type: Option<String>,
    pub payload: String,
}

/// One completion record; `device_id` is `None` for server re-runs.
pub struct TaskResultRow {
    pub task_id: u64,
    pub device_id: Option<i64>,
    pub status: TaskStatus,
    pub result: String,
}

/// A task handed to an agent by `lease_batch`.
pub struct LeasedTask {
    pub id: u64,
    pub payload: String,
    pub task_type: Option<String>,
}

/// Status counts as shown on dashboards.
#[derive(Clone, Copy, PartialEq, Eq, Structural, Debug)]
pub struct StatusCounts {
    pub queued: u64,
    pub running: u64,
    pub done: u64,
    pub stopped: u64,
    pub group: u64,
}

/// Number of rows with the given status.
pub open spec fn count_status(rows: Seq<TaskRow>, status: TaskStatus) -> nat
    decreases rows.len(),
{
    if rows.len() == 0 {
        0
    } else {
        count_status(rows.drop_last(), status) + if rows.last().status == status {
            1nat
        } else {
            0nat
        }
    }
}

/// The views of the strings of a task-type filter.
pub open spec fn filter_views(filter: Option<&Vec<String>>) -> Option<Seq<Seq<char>>> {
    match filter {
        Some(f) => Some(f.deep_view()),
        None => None,
    }
}

/// A task type passes a filter when no filter is given, or when the type is
/// one of the filter's entries.
pub open spec fn type_passes(task_type: Option<String>, filter: Option<Seq<Seq<char>>>) -> bool {
    match filter {
        None => true,
        Some(f) => task_type matches Some(t) && f.contains(t@),
    }
}

/// A row `lease_batch` may take: queued, and passing the filter.
pub open spec fn eligible(row: TaskRow, filter: Option<Seq<Seq<char>>>) -> bool {
    row.status == TaskStatus::Queued && type_passes(row.task_type, filter)
}

/// `b` is `a` moved to `status`, all else equal.
pub open spec fn moved_to(a: TaskRow, b: TaskRow, status: TaskStatus) -> bool {
    b.id == a.id && b.status == status && b.task_type == a.task_type && b.payload == a.payload
}

/// The leased item `item` carries the id, payload and task type of row `a`.
pub open spec fn leased_from(a: TaskRow, item: LeasedTask) -> bool {
    item.id == a.id && item.payload == a.payload && item.task_type == a.task_type
}

/// Some leased item carries this id.
pub open spec fn in_lease(items: Seq<LeasedTask>, id: u64) -> bool {
    exists|k: int| 0 <= k < items.len() && items[k].id == id
}

/// The item was taken from one of these rows.
pub open spec fn sourced(pre: Seq<TaskRow>, item: LeasedTask) -> bool {
    exists|i: int| 0 <= i < pre.len() && leased_from(pre[i], item)
}

/// Exact relation between the rows before and after a lease and the list of
/// leased tasks: leased rows were eligible and moved to running, all other
/// rows are untouched, ids strictly increase along the lease, at most `max`
/// rows are taken, and the lease is the FIFO prefix of the eligible rows —
/// an eligible row is only passed over once the lease is full, and then only
/// after every leased id below it.
pub open spec fn lease_transition(
    pre: Seq<TaskRow>,
    post: Seq<TaskRow>,
    items: Seq<LeasedTask>,
    filter: Option<Seq<Seq<char>>>,
    max: u64,
) -> bool {
    &&& post.len() == pre.len()
    &&& forall|i: int|
        0 <= i < pre.len() && in_lease(items, pre[i].id) ==> eligible(#[trigger] pre[i], filter)
            && moved_to(pre[i], post[i], TaskStatus::Running)
    &&& forall|i: int|
        0 <= i < pre.len() && !in_lease(items, pre[i].id) ==> post[i] == #[trigger] pre[i]
    &&& forall|k: int| 0 <= k < items.len() ==> sourced(pre, #[trigger] items[k])
    &&& forall|k: int, l: int| 0 <= k < l < items.len() ==> items[k].id < items[l].id
    &&& items.len() <= max
    &&& forall|i: int|
        0 <= i < pre.len() && eligible(#[trigger] pre[i], filter) && !in_lease(items, pre[i].id)
            ==> items.len() == max && (forall|k: int|
            0 <= k < items.len() ==> (#[trigger] items[k]).id < pre[i].id)
}

/// The rows before and after `cancel_in_flight`: queued and running rows
/// move to stopped, the rest are untouched.
pub open spec fn cancel_transition(pre: Seq<TaskRow>, post: Seq<TaskRow>) -> bool {
    &&& post.len() == pre.len()
    &&& forall|i: int|
        0 <= i < pre.len() && ((#[trigger] pre[i]).status == TaskStatus::Queued || pre[i].status
            == TaskStatus::Running) ==> moved_to(pre[i], post[i], TaskStatus::Stopped)
    &&& forall|i: int|
        0 <= i < pre.len() && (#[trigger] pre[i]).status != TaskStatus::Queued && pre[i].status
            != TaskStatus::Running ==> post[i] == pre[i]
}

/// Why a store operation was refused.
#[derive(Clone, Copy, PartialEq, Eq, Structural, Debug)]
pub enum StoreError {
    TaskNotFound,
}

/// Check a task type against a filter.
pub fn matches_task_filter(task_type: &Option<String>, filter: Option<&Vec<String>>) -> (r: bool)
    ensures
        r == type_passes(*task_type, filter_views(filter)),
{
    match filter {
        None => true,
        Some(f) => {
            match task_type {
                None => {
                    false
                },
                Some(t) => {
                    let f_len = f.len();
                    let mut k: usize = 0;
                    while k < f_len
                        invariant
                            k <= f_len,
                            f_len == f@.len(),
                            filter == Some(f),
                            *task_type == Some(*t),
                            forall|j: int| 0 <= j < k ==> f.deep_view()[j] != t@,
                        decreases f_len - k,
                    {
                        assert(f.deep_view()[k as int] == f@[k as int]@);
                        if str_eq(f[k].as_str(), t.as_str()) {
                            assert(f.deep_view().contains(t@));
                            return true;
                        }
                        k = k + 1;
                    }
                    assert(forall|j: int|
                        0 <= j < f.deep_view().len() ==> f.deep_view()[j] != t@);
                    false
                },
            }
        },
    }
}

/// The per-project task store: task rows ordered by id, completion records
/// in insertion order, and the next id to assign.
pub struct TaskStore {
    pub rows: Vec<TaskRow>,
    pub results: Vec<TaskResultRow>,
    pub next_id: u64,
}

impl TaskStore {
    /// Rows are strictly ordered by id and every id is below `next_id`.
    pub open spec fn wf(self) -> bool {
        &&& forall|i: int, j: int|
            0 <= i < j < self.rows@.len() ==> (#[trigger] self.rows@[i]).id
                < (#[trigger] self.rows@[j]).id
        &&& forall|i: int| 0 <= i < self.rows@.len() ==> (#[trigger] self.rows@[i]).id < self.next_id
    }

    /// An empty store.
    pub fn new() -> (r: TaskStore)
        ensures
            r.wf(),
            r.rows@.len() == 0,
            r.results@.len() == 0,
            r.next_id == 1u64,
    {
        TaskStore { rows: Vec::new(), results: Vec::new(), next_id: 1 }
    }

    /// Append one task row under a fresh id and return that id.
    pub fn insert(
        &mut self,
        task_type: Option<String>,
        payload: String,
        initial_status: TaskStatus,
    ) -> (r: u64)
        requires
            old(self).wf(),
            old(self).next_id < u64::MAX,
        ensures
            final(self).wf(),
            r == old(self).next_id,
            final(self).next_id == old(self).next_id + 1,
            final(self).rows@ == old(self).rows@.push(
                TaskRow { id: r, status: initial_status, task_type, payload },
            ),
            final(self).results@ == old(self).results@,
    {
        let id = self.next_id;
        self.rows.push(TaskRow { id, status: initial_status, task_type, payload });
        self.next_id = id + 1;
        id
    }

    /// Lease up to `max_count` queued tasks in FIFO order under the filter,
    /// marking each one running.  The exact effect is `lease_transition`.
    pub fn lease_batch(&mut self, filter: Option<&Vec<String>>, max_count: u64) -> (r: Vec<
        LeasedTask,
    >)
        requires
            old(self).wf(),
        ensures
            final(self).wf(),
            final(self).next_id == old(self).next_id,
            final(self).results@ == old(self).results@,
            lease_transition(
                old(self).rows@,
                final(self).rows@,
                r@,
                filter_views(filter),
                max_count,
            ),
    {
        let ghost pre = self.rows@;
        let ghost fv = filter_views(filter);
        let ghost mut src: Seq<int> = Seq::empty();
        let mut out: Vec<LeasedTask> = Vec::new();
        let len = self.rows.len();
        let mut i: usize = 0;
        while i < len
            invariant
                i <= len,
                len == self.rows@.len(),
                pre.len() == len,
                self.next_id == old(self).next_id,
                self.results@ == old(self).results@,
                fv == filter_views(filter),
                forall|a: int, b: int|
                    0 <= a < b < pre.len() ==> (#[trigger] pre[a]).id < (#[trigger] pre[b]).id,
                forall|a: int| 0 <= a < pre.len() ==> (#[trigger] pre[a]).id < self.next_id,
                forall|j: int| 0 <= j < pre.len() ==> (#[trigger] self.rows@[j]).id == pre[j].id,
                forall|j: int| i <= j < pre.len() ==> #[trigger] self.rows@[j] == pre[j],
                forall|j: int|
                    0 <= j < i && in_lease(out@, pre[j].id) ==> eligible(#[trigger] pre[j], fv)
                        && moved_to(pre[j], self.rows@[j], TaskStatus::Running),
                forall|j: int|
                    0 <= j < i && !in_lease(out@, pre[j].id) ==> self.rows@[j] == #[trigger] pre[j],
                src.len() == out@.len(),
                forall|k: int|
                    0 <= k < src.len() ==> 0 <= (#[trigger] src[k]) < i && leased_from(
                        pre[src[k]],
                        out@[k],
                    ),
                forall|k: int, l: int| 0 <= k < l < out@.len() ==> out@[k].id < out@[l].id,
                out@.len() <= max_count,
                forall|j: int|
                    0 <= j < i && eligible(#[trigger] pre[j], fv) && !in_lease(out@, pre[j].id)
                        ==> out@.len() == max_count && (forall|k: int|
                        0 <= k < out@.len() ==> (#[trigger] out@[k]).id < pre[j].id),
            decreases len - i,
        {
            let is_queued = matches!(self.rows[i].status, TaskStatus::Queued);
            let passes = matches_task_filter(&self.rows[i].task_type, filter);
            let has_room = (out.len() as u64) < max_count;
            let ghost out_before = out@;
            if is_queued && passes && has_room {
                let id = self.rows[i].id;
                let payload = self.rows[i].payload.clone();
                let task_type = match &self.rows[i].task_type {
                    Some(t) => Some(t.clone()),
                    None => None,
                };
                out.push(LeasedTask { id, payload, task_type });
                self.rows[i].status = TaskStatus::Running;
                proof {
                    src = src.push(i as int);
                    assert(leased_from(pre[i as int], out@[out@.len() - 1]));
                    // The new item's id is strictly above every earlier one.
                    assert forall|k: int| 0 <= k < out_before.len() implies out_before[k].id
                        < pre[i as int].id by {
                        assert(leased_from(pre[src[k]], out_before[k]));
                        assert(pre[src[k]].id < pre[i as int].id);
                    }
                    // Membership for earlier rows is unchanged by the push.
                    assert forall|j: int| 0 <= j < i implies (in_lease(out@, pre[j].id)
                        == in_lease(out_before, pre[j].id)) by {
                        assert(pre[j].id < pre[i as int].id);
                        if in_lease(out@, pre[j].id) {
                            let k = choose|k: int|
                                0 <= k < out@.len() && out@[k].id == pre[j].id;
                            assert(k < out_before.len());
                        }
                        if in_lease(out_before, pre[j].id) {
                            let k = choose|k: int|
                                0 <= k < out_before.len() && out_before[k].id == pre[j].id;
                            assert(out@[k].id == pre[j].id);
                        }
                    }
                    assert(in_lease(out@, pre[i as int].id));
                }
            } else {
                proof {
                    if is_queued && passes {
                        // Lease is full: every leased id sits below this row.
                        assert(out@.len() == max_count);
                        assert forall|k: int| 0 <= k < out@.len() implies (#[trigger] out@[k]).id
                            < pre[i as int].id by {
                            assert(leased_from(pre[src[k]], out@[k]));
                            assert(pre[src[k]].id < pre[i as int].id);
                        }
                        assert(!in_lease(out@, pre[i as int].id));
                    } else {
                        assert(!eligible(pre[i as int], fv));
                        if in_lease(out@, pre[i as int].id) {
                            let k = choose|k: int|
                                0 <= k < out@.len() && out@[k].id == pre[i as int].id;
                            assert(leased_from(pre[src[k]], out@[k]));
                            assert(pre[src[k]].id < pre[i as int].id);
                            assert(false);
                        }
                    }
                }
            }
            i = i + 1;
        }
        proof {
            assert forall|k: int| 0 <= k < out@.len() implies sourced(
                pre,
                #[trigger] out@[k],
            ) by {
                assert(0 <= src[k] < pre.len() && leased_from(pre[src[k]], out@[k]));
            }
        }
        out
    }

    /// Record a completion: append the result row and move the task to
    /// `done`.  Re-completing a done task appends another result row and
    /// leaves the status where it was.
    pub fn complete(&mut self, task_id: u64, result: String, device_id: Option<i64>) -> (r: Result<
        (),
        StoreError,
    >)
        requires
            old(self).wf(),
        ensures
            final(self).wf(),
            final(self).next_id == old(self).next_id,
            final(self).rows@.len() == old(self).rows@.len(),
            match r {
                Ok(_) => {
                    &&& exists|i: int|
                        0 <= i < old(self).rows@.len() && (#[trigger] old(self).rows@[i]).id
                            == task_id
                    &&& forall|i: int|
                        0 <= i < old(self).rows@.len() && (#[trigger] old(self).rows@[i]).id
                            == task_id ==> moved_to(
                            old(self).rows@[i],
                            final(self).rows@[i],
                            TaskStatus::Done,
                        )
                    &&& forall|i: int|
                        0 <= i < old(self).rows@.len() && (#[trigger] old(self).rows@[i]).id
                            != task_id ==> final(self).rows@[i] == old(self).rows@[i]
                    &&& final(self).results@ == old(self).results@.push(
                        TaskResultRow { task_id, device_id, status: TaskStatus::Done, result },
                    )
                },
                Err(e) => {
                    &&& e == StoreError::TaskNotFound
                    &&& forall|i: int|
                        0 <= i < old(self).rows@.len() ==> (#[trigger] old(self).rows@[i]).id
                            != task_id
                    &&& final(self).rows@ == old(self).rows@
                    &&& final(self).results@ == old(self).results@
                },
            },
    {
        let len = self.rows.len();
        let mut i: usize = 0;
        while i < len
            invariant
                i <= len,
                len == self.rows@.len(),
                old(self).wf(),
                self.rows@ == old(self).rows@,
                self.results@ == old(self).results@,
                self.next_id == old(self).next_id,
                forall|j: int| 0 <= j < i ==> (#[trigger] self.rows@[j]).id != task_id,
            decreases len - i,
        {
            if self.rows[i].id == task_id {
                proof {
                    assert forall|j: int|
                        0 <= j < old(self).rows@.len() && j != i as int implies (
                        #[trigger] old(self).rows@[j]).id != task_id by {
                        if j < i as int {
                            assert(old(self).rows@[j].id != task_id);
                        } else {
                            assert(old(self).rows@[i as int].id < old(self).rows@[j].id);
                        }
                    }
                }
                self.rows[i].status = TaskStatus::Done;
                self.results.push(
                    TaskResultRow { task_id, device_id, status: TaskStatus::Done, result },
                );
                return Ok(());
            }
            i = i + 1;
        }
        Err(StoreError::TaskNotFound)
    }

    /// Move every queued and running row to `stopped`; returns how many rows
    /// changed.  Used when a project stops.
    pub fn cancel_in_flight(&mut self) -> (r: u64)
        requires
            old(self).wf(),
        ensures
            final(self).wf(),
            final(self).next_id == old(self).next_id,
            final(self).results@ == old(self).results@,
            cancel_transition(old(self).rows@, final(self).rows@),
            r == count_status(old(self).rows@, TaskStatus::Queued) + count_status(
                old(self).rows@,
                TaskStatus::Running,
            ),
    {
        let ghost pre = self.rows@;
        let len = self.rows.len();
        let mut changed: usize = 0;
        let mut i: usize = 0;
        while i < len
            invariant
                i <= len,
                len == self.rows@.len(),
                pre.len() == len,
                self.next_id == old(self).next_id,
                self.results@ == old(self).results@,
                changed <= i,
                forall|a: int| 0 <= a < pre.len() ==> (#[trigger] pre[a]).id < self.next_id,
                forall|a: int, b: int|
                    0 <= a < b < pre.len() ==> (#[trigger] pre[a]).id < (#[trigger] pre[b]).id,
                forall|j: int| 0 <= j < pre.len() ==> (#[trigger] self.rows@[j]).id == pre[j].id,
                forall|j: int| i <= j < pre.len() ==> #[trigger] self.rows@[j] == pre[j],
                forall|j: int|
                    0 <= j < i && ((#[trigger] pre[j]).status == TaskStatus::Queued || pre[j].status
                        == TaskStatus::Running) ==> moved_to(
                        pre[j],
                        self.rows@[j],
                        TaskStatus::Stopped,
                    ),
                forall|j: int|
                    0 <= j < i && (#[trigger] pre[j]).status != TaskStatus::Queued && pre[j].status
                        != TaskStatus::Running ==> self.rows@[j] == pre[j],
                changed == count_status(pre.take(i as int), TaskStatus::Queued) + count_status(
                    pre.take(i as int),
                    TaskStatus::Running,
                ),
            decreases len - i,
        {
            proof {
                assert(pre.take(i + 1).drop_last() =~= pre.take(i as int));
                assert(pre.take(i + 1).last() == pre[i as int]);
            }
            let in_flight = matches!(
                self.rows[i].status,
                TaskStatus::Queued | TaskStatus::Running
            );
            if in_flight {
                self.rows[i].status = TaskStatus::Stopped;
                changed = changed + 1;
            }
            i = i + 1;
        }
        proof {
            assert(pre.take(len as int) =~= pre);
        }
        changed as u64
    }

    /// Count the rows of each status.
    pub fn counts_by_status(&self) -> (r: StatusCounts)
        ensures
            r.queued == count_status(self.rows@, TaskStatus::Queued),
            r.running == count_status(self.rows@, TaskStatus::Running),
            r.done == count_status(self.rows@, TaskStatus::Done),
            r.stopped == count_status(self.rows@, TaskStatus::Stopped),
            r.group == count_status(self.rows@, TaskStatus::Group),
    {
        let len = self.rows.len();
        let mut queued: usize = 0;
        let mut running: usize = 0;
        let mut done: usize = 0;
        let mut stopped: usize = 0;
        let mut group: usize = 0;
        let mut i: usize = 0;
        while i < len
            invariant
                i <= len,
                len == self.rows@.len(),
                queued <= i && running <= i && done <= i && stopped <= i && group <= i,
                queued == count_status(self.rows@.take(i as int), TaskStatus::Queued),
                running == count_status(self.rows@.take(i as int), TaskStatus::Running),
                done == count_status(self.rows@.take(i as int), TaskStatus::Done),
                stopped == count_status(self.rows@.take(i as int), TaskStatus::Stopped),
                group == count_status(self.rows@.take(i as int), TaskStatus::Group),
            decreases len - i,
        {
            proof {
                assert(self.rows@.take(i + 1).drop_last() =~= self.rows@.take(i as int));
                assert(self.rows@.take(i + 1).last() == self.rows@[i as int]);
            }
            match self.rows[i].status {
                TaskStatus::Queued => queued = queued + 1,
                TaskStatus::Running => running = running + 1,
                TaskStatus::Done => done = done + 1,
                TaskStatus::Stopped => stopped = stopped + 1,
                TaskStatus::Group => group = group + 1,
            }
            i = i + 1;
        }
        proof {
            assert(self.rows@.take(len as int) =~= self.rows@);
        }
        StatusCounts {
            queued: queued as u64,
            running: running as u64,
            done: done as u64,
            stopped: stopped as u64,
            group: group as u64,
        }
    }
}

/// The five status counts partition the rows.
pub proof fn lemma_counts_partition(rows: Seq<TaskRow>)
    ensures
        count_status(rows, TaskStatus::Queued) + count_status(rows, TaskStatus::Running)
            + count_status(rows, TaskStatus::Done) + count_status(rows, TaskStatus::Stopped)
            + count_status(rows, TaskStatus::Group) == rows.len(),
    decreases rows.len(),
{
    if rows.len() > 0 {
        lemma_counts_partition(rows.drop_last());
    }
}

/// Total conservation: queued + running + done + stopped always equals the
/// number of rows minus the group rows — and since no operation of the store
/// ever removes a row, that is the number of tasks ever inserted minus the
/// group rows.
pub proof fn lemma_total_conservation(store: TaskStore)
    ensures
        count_status(store.rows@, TaskStatus::Queued) + count_status(
            store.rows@,
            TaskStatus::Running,
        ) + count_status(store.rows@, TaskStatus::Done) + count_status(
            store.rows@,
            TaskStatus::Stopped,
        ) == store.rows@.len() - count_status(store.rows@, TaskStatus::Group),
{
    lemma_counts_partition(store.rows@);
}

/// At-most-one lease: two successive leases from a store with strictly
/// increasing row ids never hand out the same task id, whatever the filters
/// and batch sizes.  A leased row leaves `queued`, and only queued rows are
/// ever leased.
pub proof fn lemma_at_most_one_lease(
    s0: Seq<TaskRow>,
    s1: Seq<TaskRow>,
    s2: Seq<TaskRow>,
    l1: Seq<LeasedTask>,
    l2: Seq<LeasedTask>,
    f1: Option<Seq<Seq<char>>>,
    f2: Option<Seq<Seq<char>>>,
    m1: u64,
    m2: u64,
)
    requires
        forall|a: int, b: int| 0 <= a < b < s0.len() ==> (#[trigger] s0[a]).id < (#[trigger] s0[b]).id,
        lease_transition(s0, s1, l1, f1, m1),
        lease_transition(s1, s2, l2, f2, m2),
    ensures
        forall|id: u64| !(in_lease(l1, id) && in_lease(l2, id)),
{
    assert forall|id: u64| !(in_lease(l1, id) && in_lease(l2, id)) by {
        if in_lease(l1, id) && in_lease(l2, id) {
            let k1 = choose|k: int| 0 <= k < l1.len() && l1[k].id == id;
            assert(sourced(s0, l1[k1]));
            let i = choose|i: int| 0 <= i < s0.len() && leased_from(s0[i], l1[k1]);
            assert(in_lease(l1, s0[i].id));
            assert(s1[i].status == TaskStatus::Running);
            let k2 = choose|k: int| 0 <= k < l2.len() && l2[k].id == id;
            assert(sourced(s1, l2[k2]));
            let j = choose|j: int| 0 <= j < s1.len() && leased_from(s1[j], l2[k2]);
            assert(in_lease(l2, s1[j].id));
            assert(eligible(s1[j], f2));
            // Row ids are stable across a lease, so positions i and j carry
            // the same id and must coincide.
            assert forall|a: int, b: int|
                0 <= a < b < s1.len() implies (#[trigger] s1[a]).id < (#[trigger] s1[b]).id by {
                assert(s1[a].id == s0[a].id);
                assert(s1[b].id == s0[b].id);
            }
            assert(s1[i].id == s0[i].id);
            if i < j {
                assert(s1[i].id < s1[j].id);
            }
            if j < i {
                assert(s1[j].id < s1[i].id);
            }
            assert(i == j);
            assert(false);
        }
    }
}

/// Filter soundness: every task leased under a filter carries a task type
/// listed in that filter.
pub proof fn lemma_filter_soundness(
    pre: Seq<TaskRow>,
    post: Seq<TaskRow>,
    items: Seq<LeasedTask>,
    f: Seq<Seq<char>>,
    max: u64,
)
    requires
        lease_transition(pre, post, items, Some(f), max),
    ensures
        forall|k: int|
            0 <= k < items.len() ==> ((#[trigger] items[k]).task_type matches Some(t)
                && f.contains(t@)),
{
    assert forall|k: int|
        0 <= k < items.len() implies ((#[trigger] items[k]).task_type matches Some(t)
        && f.contains(t@)) by {
        assert(sourced(pre, items[k]));
        let i = choose|i: int| 0 <= i < pre.len() && leased_from(pre[i], items[k]);
        assert(in_lease(items, pre[i].id));
        assert(eligible(pre[i], Some(f)));
    }
}

} // verus!
