//! The kanban stream filter: a set of hidden (agent) task ids with a
//! cache-miss fallback, and the per-patch filtering rule with its
//! race-covering status check.

use vstd::prelude::*;

use crate::lifecycle::{TaskRecord, TaskStatus};

verus! {

broadcast use vstd::set::group_set_axioms;

proof fn lemma_to_set_push(s: Seq<u64>, x: u64)
    ensures
        s.push(x).to_set() == s.to_set().insert(x),
{
    assert forall|y: u64| #[trigger] s.push(x).to_set().contains(y) implies s.to_set().contains(y)
        || y == x by {
        let i = choose|i: int| 0 <= i < s.push(x).len() && s.push(x)[i] == y;
        if i < s.len() {
            assert(s[i] == y);
        }
    }
    assert forall|y: u64| s.to_set().contains(y) implies #[trigger] s.push(x).to_set().contains(
        y,
    ) by {
        let i = choose|i: int| 0 <= i < s.len() && s[i] == y;
        assert(s.push(x)[i] == y);
    }
    assert(s.push(x)[s.len() as int] == x);
    assert(s.push(x).to_set().contains(x));
    assert(s.push(x).to_set() =~= s.to_set().insert(x));
}

/// The task ids known to be hidden from the kanban view. It is seeded at
/// subscribe time, replaced wholesale on each periodic refresh, and grown by
/// confirmed cache-miss lookups.
pub struct HiddenTaskSet {
    ids: Vec<u64>,
}

impl HiddenTaskSet {
    /// The ids as a set.
    pub closed spec fn set(self) -> Set<u64> {
        self.ids@.to_set()
    }

    /// Each id is held once.
    pub closed spec fn wf(self) -> bool {
        self.ids@.no_duplicates()
    }

    /// An empty set.
    pub fn new() -> (r: Self)
        ensures
            r.wf(),
            r.set() == Set::<u64>::empty(),
    {
        let r = HiddenTaskSet { ids: Vec::new() };
        proof {
            assert(r.ids@.to_set() =~= Set::<u64>::empty());
        }
        r
    }

    /// The whole set replaced in one step, as the periodic refresh does;
    /// readers see either the old set or the new one, never a partial write.
    pub fn replace_all(&mut self, ids: Vec<u64>)
        ensures
            final(self).wf(),
            final(self).set() == ids@.to_set(),
    {
        let mut fresh = HiddenTaskSet::new();
        let mut i: usize = 0;
        while i < ids.len()
            invariant
                i <= ids@.len(),
                fresh.wf(),
                fresh.set() == ids@.take(i as int).to_set(),
            decreases ids@.len() - i,
        {
            proof {
                assert(ids@.take((i + 1) as int) =~= ids@.take(i as int).push(ids@[i as int]));
                lemma_to_set_push(ids@.take(i as int), ids@[i as int]);
            }
            fresh.insert(ids[i]);
            i = i + 1;
        }
        proof {
            assert(ids@.take(ids@.len() as int) =~= ids@);
        }
        *self = fresh;
    }

    /// Membership test.
    pub fn contains(&self, task_id: u64) -> (r: bool)
        ensures
            r == self.set().contains(task_id),
    {
        let mut i: usize = 0;
        while i < self.ids.len()
            invariant
                i <= self.ids@.len(),
                forall|m: int| 0 <= m < i ==> self.ids@[m] != task_id,
            decreases self.ids@.len() - i,
        {
            if self.ids[i] == task_id {
                proof {
                    assert(self.ids@[i as int] == task_id);
                }
                return true;
            }
            i = i + 1;
        }
        proof {
            if self.ids@.to_set().contains(task_id) {
                let w = choose|w: int| 0 <= w < self.ids@.len() && self.ids@[w] == task_id;
            }
        }
        false
    }

    /// Add one id.
    pub fn insert(&mut self, task_id: u64)
        requires
            old(self).wf(),
        ensures
            final(self).wf(),
            final(self).set() == old(self).set().insert(task_id),
    {
        if !self.contains(task_id) {
            let ghost pre = self.ids@;
            self.ids.push(task_id);
            proof {
                assert(!pre.contains(task_id));
                lemma_to_set_push(pre, task_id);
                assert forall|i: int, j: int|
                    0 <= i < j < self.ids@.len() implies self.ids@[i] != self.ids@[j] by {
                    if j == self.ids@.len() - 1 {
                        assert(pre[i] == self.ids@[i]);
                        assert(!pre.contains(task_id));
                    }
                }
            }
        } else {
            proof {
                assert(self.set() =~= self.set().insert(task_id));
            }
        }
    }

    /// Cache lookup with the point-lookup fallback: the task is hidden when
    /// the cache already says so or the direct lookup confirms it; a
    /// confirmed miss is inserted so the steady-state path stays cache-only.
    pub fn resolve_hidden(&mut self, task_id: u64, lookup_confirms_hidden: bool) -> (r: bool)
        requires
            old(self).wf(),
        ensures
            r == (old(self).set().contains(task_id) || lookup_confirms_hidden),
            final(self).wf(),
            final(self).set() == if !old(self).set().contains(task_id) && lookup_confirms_hidden {
                old(self).set().insert(task_id)
            } else {
                old(self).set()
            },
    {
        if self.contains(task_id) {
            return true;
        }
        if lookup_confirms_hidden {
            self.insert(task_id);
            return true;
        }
        false
    }
}

/// One patch of the live task stream, reduced to what the filter reads.
#[derive(Debug, Clone, Copy, PartialEq, Eq, Structural)]
pub enum TaskPatchOp {
    Add { task_id: u64, status: TaskStatus },
    Replace { task_id: u64, status: TaskStatus },
    Remove { task_id: u64 },
}

/// The filtering rule: removals always pass; an addition or replacement
/// passes only when its task id is not hidden and its embedded status is not
/// `Agent` (the status check covers the race between a task's creation and
/// the next cache refresh).
pub open spec fn spec_should_emit(op: TaskPatchOp, hidden: Set<u64>) -> bool {
    match op {
        TaskPatchOp::Add { task_id, status } => !hidden.contains(task_id) && status
            != TaskStatus::Agent,
        TaskPatchOp::Replace { task_id, status } => !hidden.contains(task_id) && status
            != TaskStatus::Agent,
        TaskPatchOp::Remove { task_id } => true,
    }
}

/// The stream never emits an addition or replacement for a task whose id is
/// in the hidden set at filter time, nor for one whose embedded status is
/// `Agent`.
pub proof fn lemma_hidden_add_replace_never_emitted(op: TaskPatchOp, hidden: Set<u64>)
    requires
        match op {
            TaskPatchOp::Add { task_id, status } => hidden.contains(task_id) || status
                == TaskStatus::Agent,
            TaskPatchOp::Replace { task_id, status } => hidden.contains(task_id) || status
                == TaskStatus::Agent,
            TaskPatchOp::Remove { .. } => false,
        },
    ensures
        !spec_should_emit(op, hidden),
{
}

/// Removals pass through whatever the hidden set holds.
pub proof fn lemma_remove_always_emitted(task_id: u64, hidden: Set<u64>)
    ensures
        spec_should_emit(TaskPatchOp::Remove { task_id }, hidden),
{
}

/// Apply the filtering rule to one patch.
pub fn should_emit(op: &TaskPatchOp, hidden: &HiddenTaskSet) -> (r: bool)
    ensures
        r == spec_should_emit(*op, hidden.set()),
{
    match op {
        TaskPatchOp::Add { task_id, status } => !hidden.contains(*task_id) && !(*status
            == TaskStatus::Agent),
        TaskPatchOp::Replace { task_id, status } => !hidden.contains(*task_id) && !(*status
            == TaskStatus::Agent),
        TaskPatchOp::Remove { .. } => true,
    }
}

/// The entries of the initial full snapshot that survive filtering, in
/// order: exactly those an addition would be emitted for.
pub open spec fn spec_filter_snapshot(
    entries: Seq<(u64, TaskStatus)>,
    hidden: Set<u64>,
) -> Seq<(u64, TaskStatus)>
    decreases entries.len(),
{
    if entries.len() == 0 {
        Seq::empty()
    } else {
        let rest = spec_filter_snapshot(entries.drop_first(), hidden);
        if !hidden.contains(entries[0].0) && entries[0].1 != TaskStatus::Agent {
            seq![entries[0]] + rest
        } else {
            rest
        }
    }
}

/// Filter the initial snapshot key by key.
pub fn filter_snapshot(entries: &Vec<(u64, TaskStatus)>, hidden: &HiddenTaskSet) -> (r: Vec<
    (u64, TaskStatus),
>)
    ensures
        r@ == spec_filter_snapshot(entries@, hidden.set()),
{
    let ghost all = entries@;
    let mut r: Vec<(u64, TaskStatus)> = Vec::new();
    proof {
        assert(all.skip(0) =~= all);
        assert(Seq::<(u64, TaskStatus)>::empty() + spec_filter_snapshot(all, hidden.set())
            =~= spec_filter_snapshot(all, hidden.set()));
    }
    let mut i: usize = 0;
    while i < entries.len()
        invariant
            i <= entries@.len(),
            all == entries@,
            r@ + spec_filter_snapshot(all.skip(i as int), hidden.set()) == spec_filter_snapshot(
                all,
                hidden.set(),
            ),
        decreases entries@.len() - i,
    {
        let ghost pre = r@;
        proof {
            assert(all.skip(i as int)[0] == all[i as int]);
            assert(all.skip(i as int).drop_first() =~= all.skip((i + 1) as int));
        }
        let (task_id, status) = entries[i];
        if !hidden.contains(task_id) && !(status == TaskStatus::Agent) {
            r.push((task_id, status));
            proof {
                assert(pre.push(all[i as int]) =~= pre + seq![all[i as int]]);
                assert(pre + (seq![all[i as int]] + spec_filter_snapshot(
                    all.skip((i + 1) as int),
                    hidden.set(),
                )) =~= (pre + seq![all[i as int]]) + spec_filter_snapshot(
                    all.skip((i + 1) as int),
                    hidden.set(),
                ));
            }
        }
        i = i + 1;
    }
    proof {
        assert(all.skip(entries@.len() as int) =~= Seq::<(u64, TaskStatus)>::empty());
        assert(r@ + Seq::<(u64, TaskStatus)>::empty() =~= r@);
    }
    r
}

/// The kanban listing of a project: its tasks whose ids are not in the
/// agent-membership set, in store order.
pub open spec fn spec_kanban_listing(
    tasks: Seq<TaskRecord>,
    hidden: Set<u64>,
    project_id: u64,
) -> Seq<TaskRecord>
    decreases tasks.len(),
{
    if tasks.len() == 0 {
        Seq::empty()
    } else {
        let rest = spec_kanban_listing(tasks.drop_first(), hidden, project_id);
        if tasks[0].project_id == project_id && !hidden.contains(tasks[0].id) {
            seq![tasks[0]] + rest
        } else {
            rest
        }
    }
}

/// List a project's kanban tasks, excluding agent tasks by membership.
pub fn kanban_listing(tasks: &Vec<TaskRecord>, hidden: &HiddenTaskSet, project_id: u64) -> (r: Vec<
    TaskRecord,
>)
    ensures
        r@ == spec_kanban_listing(tasks@, hidden.set(), project_id),
{
    let ghost all = tasks@;
    let mut r: Vec<TaskRecord> = Vec::new();
    proof {
        assert(all.skip(0) =~= all);
        assert(Seq::<TaskRecord>::empty() + spec_kanban_listing(all, hidden.set(), project_id)
            =~= spec_kanban_listing(all, hidden.set(), project_id));
    }
    let mut i: usize = 0;
    while i < tasks.len()
        invariant
            i <= tasks@.len(),
            all == tasks@,
            r@ + spec_kanban_listing(all.skip(i as int), hidden.set(), project_id)
                == spec_kanban_listing(all, hidden.set(), project_id),
        decreases tasks@.len() - i,
    {
        let ghost pre = r@;
        proof {
            assert(all.skip(i as int)[0] == all[i as int]);
            assert(all.skip(i as int).drop_first() =~= all.skip((i + 1) as int));
        }
        let t = tasks[i];
        if t.project_id == project_id && !hidden.contains(t.id) {
            r.push(t);
            proof {
                assert(pre.push(all[i as int]) =~= pre + seq![all[i as int]]);
                assert(pre + (seq![all[i as int]] + spec_kanban_listing(
                    all.skip((i + 1) as int),
                    hidden.set(),
                    project_id,
                )) =~= (pre + seq![all[i as int]]) + spec_kanban_listing(
                    all.skip((i + 1) as int),
                    hidden.set(),
                    project_id,
                ));
            }
        }
        i = i + 1;
    }
    proof {
        assert(all.skip(tasks@.len() as int) =~= Seq::<TaskRecord>::empty());
        assert(r@ + Seq::<TaskRecord>::empty() =~= r@);
    }
    r
}

/// A hidden task never appears in the kanban listing.
pub proof fn lemma_hidden_absent_from_listing(
    tasks: Seq<TaskRecord>,
    hidden: Set<u64>,
    project_id: u64,
)
    ensures
        forall|k: int|
            0 <= k < spec_kanban_listing(tasks, hidden, project_id).len() ==> !hidden.contains(
                (#[trigger] spec_kanban_listing(tasks, hidden, project_id)[k]).id,
            ),
    decreases tasks.len(),
{
    if tasks.len() > 0 {
        lemma_hidden_absent_from_listing(tasks.drop_first(), hidden, project_id);
        let res = spec_kanban_listing(tasks, hidden, project_id);
        let rest = spec_kanban_listing(tasks.drop_first(), hidden, project_id);
        if tasks[0].project_id == project_id && !hidden.contains(tasks[0].id) {
            assert forall|k: int| 0 <= k < res.len() implies !hidden.contains(
                (#[trigger] res[k]).id,
            ) by {
                if k > 0 {
                    assert(res[k] == rest[k - 1]);
                }
            }
        }
    }
}

} // verus!
