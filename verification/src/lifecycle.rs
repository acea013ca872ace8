//! Execution lifecycle rules: task and attempt records, the process state
//! machine, deletion with its transactional child-reference nulling, archive
//! cleanup, and the naming of branches and executor variants.

use vstd::prelude::*;

use crate::text::{chars_vec, clone_opt_string, string_from_chars};

verus! {

/// Status of a task on the board. `Agent` is assigned at creation to tasks
/// made without worktree isolation; they are hidden from the kanban view.
#[derive(Debug, Clone, Copy, PartialEq, Eq, Structural)]
pub enum TaskStatus {
    Todo,
    InProgress,
    InReview,
    Done,
    Cancelled,
    Archived,
    Agent,
}

/// Status of one executor invocation.
#[derive(Debug, Clone, Copy, PartialEq, Eq, Structural)]
pub enum ExecutionProcessStatus {
    Pending,
    Running,
    Completed,
    Failed,
    Killed,
}

/// Why a process was started.
#[derive(Debug, Clone, Copy, PartialEq, Eq, Structural)]
pub enum RunReason {
    SetupScript,
    CleanupScript,
    CodingAgent,
}

/// Terminal process states are absorbing.
pub open spec fn is_terminal(s: ExecutionProcessStatus) -> bool {
    s is Completed || s is Failed || s is Killed
}

/// The allowed moves of the process state machine:
/// pending to running, and running to any terminal state.
pub open spec fn can_transition(from: ExecutionProcessStatus, to: ExecutionProcessStatus) -> bool {
    (from is Pending && to is Running) || (from is Running && is_terminal(to))
}

/// The status after a requested transition: the request is taken when the
/// machine allows it and ignored otherwise.
pub open spec fn spec_apply_transition(
    current: ExecutionProcessStatus,
    requested: ExecutionProcessStatus,
) -> ExecutionProcessStatus {
    if can_transition(current, requested) {
        requested
    } else {
        current
    }
}

pub fn apply_transition(
    current: ExecutionProcessStatus,
    requested: ExecutionProcessStatus,
) -> (r: ExecutionProcessStatus)
    ensures
        r == spec_apply_transition(current, requested),
{
    let allowed = match (current, requested) {
        (ExecutionProcessStatus::Pending, ExecutionProcessStatus::Running) => true,
        (ExecutionProcessStatus::Running, ExecutionProcessStatus::Completed) => true,
        (ExecutionProcessStatus::Running, ExecutionProcessStatus::Failed) => true,
        (ExecutionProcessStatus::Running, ExecutionProcessStatus::Killed) => true,
        _ => false,
    };
    if allowed {
        requested
    } else {
        current
    }
}

/// A terminal status never changes again, whatever is requested.
pub proof fn lemma_terminal_is_absorbing(
    current: ExecutionProcessStatus,
    requested: ExecutionProcessStatus,
)
    requires
        is_terminal(current),
    ensures
        spec_apply_transition(current, requested) == current,
{
}

/// The status a task is created with. A task made without worktree
/// isolation is `Agent` from the start: it is never created in another
/// status and patched afterwards, so a live subscriber can never observe it
/// as `Todo`.
pub fn initial_task_status(use_worktree: bool) -> (r: TaskStatus)
    ensures
        r == if use_worktree {
            TaskStatus::Todo
        } else {
            TaskStatus::Agent
        },
{
    if use_worktree {
        TaskStatus::Todo
    } else {
        TaskStatus::Agent
    }
}

/// Archival cleanup is spawned exactly when an update moves the task into
/// the archived status for the first time; re-saving an already archived
/// task triggers nothing.
pub fn archive_triggers_cleanup(old_status: TaskStatus, new_status: TaskStatus) -> (r: bool)
    ensures
        r == (new_status is Archived && !(old_status is Archived)),
{
    let was_archived = match old_status {
        TaskStatus::Archived => true,
        _ => false,
    };
    let is_archived = match new_status {
        TaskStatus::Archived => true,
        _ => false,
    };
    is_archived && !was_archived
}

/// A task update as a caller sends it: an absent field keeps the stored
/// value.
#[derive(Debug, Clone)]
pub struct TaskUpdate {
    pub title: Option<String>,
    pub description: Option<String>,
    pub status: Option<TaskStatus>,
    pub parent_task_attempt: Option<u64>,
}

/// The merged field values of a task update: a given title, status or
/// parent reference replaces the stored one; a given description replaces
/// it too, except that one that is blank after trimming clears it.
pub fn merge_task_update(
    existing_title: String,
    existing_description: Option<String>,
    existing_status: TaskStatus,
    existing_parent: Option<u64>,
    update: TaskUpdate,
) -> (r: (String, Option<String>, TaskStatus, Option<u64>))
    ensures
        r.0 == match update.title {
            Some(t) => t,
            None => existing_title,
        },
        r.1 == match update.description {
            Some(d) => if crate::text::trim_spec(d@).len() == 0 {
                None::<String>
            } else {
                Some(d)
            },
            None => existing_description,
        },
        r.2 == match update.status {
            Some(st) => st,
            None => existing_status,
        },
        r.3 == match update.parent_task_attempt {
            Some(p) => Some(p),
            None => existing_parent,
        },
{
    let title = match update.title {
        Some(t) => t,
        None => existing_title,
    };
    let description = match update.description {
        Some(d) => {
            let chars = chars_vec(d.as_str());
            let trimmed = crate::text::trim_chars(&chars);
            if trimmed.len() == 0 {
                None
            } else {
                Some(d)
            }
        },
        None => existing_description,
    };
    let status = match update.status {
        Some(st) => st,
        None => existing_status,
    };
    let parent = match update.parent_task_attempt {
        Some(p) => Some(p),
        None => existing_parent,
    };
    (title, description, status, parent)
}

/// The attempt-status flags a creation call answers with. Failure to start
/// the attempt is not fatal: the task and attempt records persist, and the
/// caller observes only that no attempt is in progress.
#[derive(Debug, Clone, Copy, PartialEq, Eq, Structural)]
pub struct CreationFlags {
    pub has_in_progress_attempt: bool,
    pub has_merged_attempt: bool,
    pub last_attempt_failed: bool,
    pub attempt_count: u64,
}

pub fn creation_response_flags(start_succeeded: bool) -> (r: CreationFlags)
    ensures
        r.has_in_progress_attempt == start_succeeded,
        !r.has_merged_attempt,
        !r.last_attempt_failed,
        r.attempt_count == 1,
{
    CreationFlags {
        has_in_progress_attempt: start_succeeded,
        has_merged_attempt: false,
        last_attempt_failed: false,
        attempt_count: 1,
    }
}

/// The executor column value: `executor` alone, or `executor:variant`.
pub open spec fn spec_executor_with_variant(
    executor: Seq<char>,
    variant: Option<Seq<char>>,
) -> Seq<char> {
    match variant {
        Some(v) => executor + ":"@ + v,
        None => executor,
    }
}

pub fn executor_with_variant(executor: &str, variant: Option<&str>) -> (r: String)
    ensures
        r@ == spec_executor_with_variant(
            executor@,
            match variant {
                Some(v) => Some(v@),
                None => None,
            },
        ),
{
    let mut out = chars_vec(executor);
    if let Some(v) = variant {
        let mut colon = chars_vec(":");
        let mut var = chars_vec(v);
        out.append(&mut colon);
        out.append(&mut var);
        proof {
            assert(out@ =~= executor@ + ":"@ + v@);
        }
    }
    string_from_chars(&out)
}

/// Lower-case hex digit.
pub open spec fn hex_digit(d: nat) -> char {
    if d == 0 {
        '0'
    } else if d == 1 {
        '1'
    } else if d == 2 {
        '2'
    } else if d == 3 {
        '3'
    } else if d == 4 {
        '4'
    } else if d == 5 {
        '5'
    } else if d == 6 {
        '6'
    } else if d == 7 {
        '7'
    } else if d == 8 {
        '8'
    } else if d == 9 {
        '9'
    } else if d == 10 {
        'a'
    } else if d == 11 {
        'b'
    } else if d == 12 {
        'c'
    } else if d == 13 {
        'd'
    } else if d == 14 {
        'e'
    } else {
        'f'
    }
}

/// Two hex digits of one byte.
pub open spec fn hex_byte(b: u8) -> Seq<char> {
    seq![hex_digit(b as nat / 16), hex_digit(b as nat % 16)]
}

/// A run's branch name: `run/` and the first eight hex characters of the
/// run id, short but collision-resistant.
pub open spec fn spec_run_branch(b0: u8, b1: u8, b2: u8, b3: u8) -> Seq<char> {
    "run/"@ + hex_byte(b0) + hex_byte(b1) + hex_byte(b2) + hex_byte(b3)
}

fn hex_digit_exec(d: u8) -> (r: char)
    requires
        d < 16,
    ensures
        r == hex_digit(d as nat),
{
    if d == 0 {
        '0'
    } else if d == 1 {
        '1'
    } else if d == 2 {
        '2'
    } else if d == 3 {
        '3'
    } else if d == 4 {
        '4'
    } else if d == 5 {
        '5'
    } else if d == 6 {
        '6'
    } else if d == 7 {
        '7'
    } else if d == 8 {
        '8'
    } else if d == 9 {
        '9'
    } else if d == 10 {
        'a'
    } else if d == 11 {
        'b'
    } else if d == 12 {
        'c'
    } else if d == 13 {
        'd'
    } else if d == 14 {
        'e'
    } else {
        'f'
    }
}

fn push_hex_byte(out: &mut Vec<char>, b: u8)
    ensures
        final(out)@ == old(out)@ + hex_byte(b),
{
    out.push(hex_digit_exec(b / 16));
    out.push(hex_digit_exec(b % 16));
    proof {
        assert((b / 16) as nat == b as nat / 16);
        assert((b % 16) as nat == b as nat % 16);
        assert(final(out)@ =~= old(out)@ + hex_byte(b));
    }
}

/// Derive the branch name for a detached run from its id bytes.
pub fn run_branch_name(id_bytes: &Vec<u8>) -> (r: String)
    requires
        id_bytes@.len() >= 4,
    ensures
        r@ == spec_run_branch(id_bytes@[0], id_bytes@[1], id_bytes@[2], id_bytes@[3]),
{
    let mut out = chars_vec("run/");
    push_hex_byte(&mut out, id_bytes[0]);
    push_hex_byte(&mut out, id_bytes[1]);
    push_hex_byte(&mut out, id_bytes[2]);
    push_hex_byte(&mut out, id_bytes[3]);
    proof {
        assert(out@ =~= spec_run_branch(id_bytes@[0], id_bytes@[1], id_bytes@[2], id_bytes@[3]));
    }
    string_from_chars(&out)
}

/// A task row: identity, board status, and the optional back-reference to
/// the attempt that spawned it.
#[derive(Debug, Clone, Copy)]
pub struct TaskRecord {
    pub id: u64,
    pub project_id: u64,
    pub status: TaskStatus,
    pub parent_task_attempt: Option<u64>,
}

/// An attempt row: the worktree-backed execution lineage of a task. The
/// container reference is the cleanup key once set.
#[derive(Debug, Clone)]
pub struct AttemptRecord {
    pub id: u64,
    pub task_id: u64,
    pub container_ref: Option<String>,
    pub worktree_deleted: bool,
}

/// What background cleanup needs of one attempt.
#[derive(Debug, Clone)]
pub struct WorktreeCleanup {
    pub attempt_id: u64,
    pub worktree_path: String,
}

/// Failure cases of the lifecycle operations.
#[derive(Debug, Clone, Copy, PartialEq, Eq, Structural)]
pub enum LifecycleError {
    /// The task still has a running process; nothing was changed.
    Conflict,
    /// No such task; nothing was changed.
    NotFound,
}

/// The tasks and attempts the lifecycle manager works on.
pub struct TaskStore {
    pub tasks: Vec<TaskRecord>,
    pub attempts: Vec<AttemptRecord>,
}

/// Task ids are unique.
pub open spec fn distinct_task_ids(tasks: Seq<TaskRecord>) -> bool {
    forall|i: int, j: int| 0 <= i < j < tasks.len() ==> tasks[i].id != tasks[j].id
}

/// Attempt ids are unique.
pub open spec fn distinct_attempt_ids(attempts: Seq<AttemptRecord>) -> bool {
    forall|i: int, j: int| 0 <= i < j < attempts.len() ==> attempts[i].id != attempts[j].id
}

/// Some task has this id.
pub open spec fn spec_has_task(tasks: Seq<TaskRecord>, task_id: u64) -> bool {
    exists|i: int| 0 <= i < tasks.len() && (#[trigger] tasks[i]).id == task_id
}

/// Ids of the attempts that belong to the task: the rows a deletion removes.
pub open spec fn spec_removed_attempt_ids(attempts: Seq<AttemptRecord>, task_id: u64) -> Set<u64> {
    Set::new(
        |id: u64|
            exists|i: int|
                0 <= i < attempts.len() && (#[trigger] attempts[i]).id == id && attempts[i].task_id
                    == task_id,
    )
}

/// The attempts that survive a deletion: those of other tasks, in order.
pub open spec fn spec_remaining_attempts(
    attempts: Seq<AttemptRecord>,
    task_id: u64,
) -> Seq<AttemptRecord>
    decreases attempts.len(),
{
    if attempts.len() == 0 {
        Seq::empty()
    } else if attempts[0].task_id == task_id {
        spec_remaining_attempts(attempts.drop_first(), task_id)
    } else {
        seq![attempts[0]] + spec_remaining_attempts(attempts.drop_first(), task_id)
    }
}

/// The cleanup entries a deletion or archive schedules: one per attempt of
/// the task that has a container reference.
pub open spec fn spec_cleanup_data(
    attempts: Seq<AttemptRecord>,
    task_id: u64,
) -> Seq<WorktreeCleanup>
    decreases attempts.len(),
{
    if attempts.len() == 0 {
        Seq::empty()
    } else {
        let rest = spec_cleanup_data(attempts.drop_first(), task_id);
        if attempts[0].task_id == task_id && attempts[0].container_ref is Some {
            seq![
                WorktreeCleanup {
                    attempt_id: attempts[0].id,
                    worktree_path: attempts[0].container_ref->0,
                },
            ] + rest
        } else {
            rest
        }
    }
}

/// A task after the deletion of another task: its parent-attempt reference
/// is nulled exactly when it pointed at one of the removed attempts.
pub open spec fn spec_null_parent(t: TaskRecord, removed: Set<u64>) -> TaskRecord {
    match t.parent_task_attempt {
        Some(p) => if removed.contains(p) {
            TaskRecord {
                id: t.id,
                project_id: t.project_id,
                status: t.status,
                parent_task_attempt: None,
            }
        } else {
            t
        },
        None => t,
    }
}

/// The tasks after a deletion: the deleted task is gone; every other task
/// stays, with its parent reference nulled when it pointed at a removed
/// attempt.
pub open spec fn spec_tasks_after_delete(
    tasks: Seq<TaskRecord>,
    task_id: u64,
    removed: Set<u64>,
) -> Seq<TaskRecord>
    decreases tasks.len(),
{
    if tasks.len() == 0 {
        Seq::empty()
    } else if tasks[0].id == task_id {
        spec_tasks_after_delete(tasks.drop_first(), task_id, removed)
    } else {
        seq![spec_null_parent(tasks[0], removed)] + spec_tasks_after_delete(
            tasks.drop_first(),
            task_id,
            removed,
        )
    }
}

/// After a deletion no surviving task points at a removed attempt, and the
/// deleted task itself is gone; together with the deletion being one store
/// transition, no state with a dangling reference is observable.
pub proof fn lemma_delete_nulls_children(tasks: Seq<TaskRecord>, task_id: u64, removed: Set<u64>)
    ensures
        forall|k: int|
            0 <= k < spec_tasks_after_delete(tasks, task_id, removed).len() ==> {
                let t = #[trigger] spec_tasks_after_delete(tasks, task_id, removed)[k];
                t.id != task_id && (t.parent_task_attempt matches Some(p) ==> !removed.contains(p))
            },
    decreases tasks.len(),
{
    if tasks.len() > 0 {
        lemma_delete_nulls_children(tasks.drop_first(), task_id, removed);
        let res = spec_tasks_after_delete(tasks, task_id, removed);
        let rest = spec_tasks_after_delete(tasks.drop_first(), task_id, removed);
        if tasks[0].id != task_id {
            assert forall|k: int| 0 <= k < res.len() implies {
                let t = #[trigger] res[k];
                t.id != task_id && (t.parent_task_attempt matches Some(p) ==> !removed.contains(p))
            } by {
                if k > 0 {
                    assert(res[k] == rest[k - 1]);
                }
            }
        }
    }
}

/// No surviving attempt belongs to the deleted task.
pub proof fn lemma_delete_removes_attempts(attempts: Seq<AttemptRecord>, task_id: u64)
    ensures
        forall|k: int|
            0 <= k < spec_remaining_attempts(attempts, task_id).len() ==> (
            #[trigger] spec_remaining_attempts(attempts, task_id)[k]).task_id != task_id,
    decreases attempts.len(),
{
    if attempts.len() > 0 {
        lemma_delete_removes_attempts(attempts.drop_first(), task_id);
        let res = spec_remaining_attempts(attempts, task_id);
        let rest = spec_remaining_attempts(attempts.drop_first(), task_id);
        if attempts[0].task_id != task_id {
            assert forall|k: int| 0 <= k < res.len() implies (#[trigger] res[k]).task_id
                != task_id by {
                if k > 0 {
                    assert(res[k] == rest[k - 1]);
                }
            }
        }
    }
}

/// The surviving attempts are drawn from the old rows, so their ids stay
/// distinct when the old ids were.
pub proof fn lemma_delete_keeps_attempt_ids_distinct(attempts: Seq<AttemptRecord>, task_id: u64)
    requires
        distinct_attempt_ids(attempts),
    ensures
        distinct_attempt_ids(spec_remaining_attempts(attempts, task_id)),
        forall|k: int|
            0 <= k < spec_remaining_attempts(attempts, task_id).len() ==> attempts.contains(
                #[trigger] spec_remaining_attempts(attempts, task_id)[k],
            ),
    decreases attempts.len(),
{
    if attempts.len() > 0 {
        let rest = attempts.drop_first();
        assert forall|i: int, j: int| 0 <= i < j < rest.len() implies rest[i].id != rest[j].id by {
            assert(rest[i] == attempts[i + 1]);
            assert(rest[j] == attempts[j + 1]);
        }
        lemma_delete_keeps_attempt_ids_distinct(rest, task_id);
        let res = spec_remaining_attempts(attempts, task_id);
        let rr = spec_remaining_attempts(rest, task_id);
        assert forall|k: int| 0 <= k < res.len() implies attempts.contains(#[trigger] res[k]) by {
            if attempts[0].task_id == task_id || k > 0 {
                let w = if attempts[0].task_id == task_id {
                    k
                } else {
                    k - 1
                };
                assert(rr[w] == res[k]);
                assert(rest.contains(rr[w]));
                let m = choose|m: int| 0 <= m < rest.len() && rest[m] == rr[w];
                assert(attempts[m + 1] == rr[w]);
            } else {
                assert(res[0] == attempts[0]);
            }
        }
        if attempts[0].task_id != task_id {
            assert forall|i: int, j: int| 0 <= i < j < res.len() implies res[i].id != res[j].id by {
                if i == 0 {
                    assert(res[j] == rr[j - 1]);
                    assert(rest.contains(rr[j - 1]));
                    let m = choose|m: int| 0 <= m < rest.len() && rest[m] == rr[j - 1];
                    assert(attempts[m + 1] == res[j]);
                    assert(attempts[0].id != attempts[m + 1].id);
                } else {
                    assert(res[i] == rr[i - 1]);
                    assert(res[j] == rr[j - 1]);
                }
            }
        }
    }
}

/// The surviving tasks keep their ids, one per old row, so their ids stay
/// distinct when the old ids were.
pub proof fn lemma_delete_keeps_task_ids_distinct(
    tasks: Seq<TaskRecord>,
    task_id: u64,
    removed: Set<u64>,
)
    requires
        distinct_task_ids(tasks),
    ensures
        distinct_task_ids(spec_tasks_after_delete(tasks, task_id, removed)),
        forall|k: int|
            0 <= k < spec_tasks_after_delete(tasks, task_id, removed).len() ==> exists|m: int|
                0 <= m < tasks.len() && #[trigger] spec_tasks_after_delete(
                    tasks,
                    task_id,
                    removed,
                )[k].id == tasks[m].id,
    decreases tasks.len(),
{
    if tasks.len() > 0 {
        let rest = tasks.drop_first();
        assert forall|i: int, j: int| 0 <= i < j < rest.len() implies rest[i].id != rest[j].id by {
            assert(rest[i] == tasks[i + 1]);
            assert(rest[j] == tasks[j + 1]);
        }
        lemma_delete_keeps_task_ids_distinct(rest, task_id, removed);
        let res = spec_tasks_after_delete(tasks, task_id, removed);
        let rr = spec_tasks_after_delete(rest, task_id, removed);
        assert forall|k: int| 0 <= k < res.len() implies exists|m: int|
            0 <= m < tasks.len() && #[trigger] res[k].id == tasks[m].id by {
            if tasks[0].id == task_id || k > 0 {
                let w = if tasks[0].id == task_id {
                    k
                } else {
                    k - 1
                };
                assert(rr[w] == res[k]);
                let m = choose|m: int| 0 <= m < rest.len() && #[trigger] rr[w].id == rest[m].id;
                assert(res[k].id == tasks[m + 1].id);
            } else {
                assert(res[0] == spec_null_parent(tasks[0], removed));
                assert(res[0].id == tasks[0].id);
            }
        }
        if tasks[0].id != task_id {
            assert forall|i: int, j: int| 0 <= i < j < res.len() implies res[i].id != res[j].id by {
                if i == 0 {
                    assert(res[0].id == tasks[0].id);
                    assert(res[j] == rr[j - 1]);
                    let m = choose|m: int|
                        0 <= m < rest.len() && #[trigger] rr[j - 1].id == rest[m].id;
                    assert(res[j].id == tasks[m + 1].id);
                    assert(tasks[0].id != tasks[m + 1].id);
                } else {
                    assert(res[i] == rr[i - 1]);
                    assert(res[j] == rr[j - 1]);
                }
            }
        }
    }
}

fn copy_attempt(a: &AttemptRecord) -> (r: AttemptRecord)
    ensures
        r == *a,
{
    AttemptRecord {
        id: a.id,
        task_id: a.task_id,
        container_ref: clone_opt_string(&a.container_ref),
        worktree_deleted: a.worktree_deleted,
    }
}

impl TaskStore {
    /// Some task has this id.
    pub fn has_task(&self, task_id: u64) -> (r: bool)
        ensures
            r == spec_has_task(self.tasks@, task_id),
    {
        let mut i: usize = 0;
        while i < self.tasks.len()
            invariant
                i <= self.tasks@.len(),
                forall|m: int| 0 <= m < i ==> (#[trigger] self.tasks@[m]).id != task_id,
            decreases self.tasks@.len() - i,
        {
            if self.tasks[i].id == task_id {
                proof {
                    assert((self.tasks@[i as int]).id == task_id);
                }
                return true;
            }
            i = i + 1;
        }
        false
    }

    /// Is this attempt one of the given task's attempts?
    fn attempt_belongs(&self, attempt_id: u64, task_id: u64) -> (r: bool)
        ensures
            r == spec_removed_attempt_ids(self.attempts@, task_id).contains(attempt_id),
    {
        let mut i: usize = 0;
        while i < self.attempts.len()
            invariant
                i <= self.attempts@.len(),
                forall|m: int|
                    0 <= m < i ==> !((#[trigger] self.attempts@[m]).id == attempt_id
                        && self.attempts@[m].task_id == task_id),
            decreases self.attempts@.len() - i,
        {
            if self.attempts[i].id == attempt_id && self.attempts[i].task_id == task_id {
                proof {
                    let a = self.attempts@[i as int];
                    assert(a.id == attempt_id && a.task_id == task_id);
                }
                return true;
            }
            i = i + 1;
        }
        proof {
            if spec_removed_attempt_ids(self.attempts@, task_id).contains(attempt_id) {
                let w = choose|w: int|
                    0 <= w < self.attempts@.len() && (#[trigger] self.attempts@[w]).id == attempt_id
                        && self.attempts@[w].task_id == task_id;
            }
        }
        false
    }

    /// The cleanup entries for the task's attempts with container
    /// references, as deletion and archival schedule them.
    pub fn cleanup_plan(&self, task_id: u64) -> (r: Vec<WorktreeCleanup>)
        ensures
            r@ == spec_cleanup_data(self.attempts@, task_id),
    {
        let ghost all = self.attempts@;
        let mut r: Vec<WorktreeCleanup> = Vec::new();
        proof {
            assert(all.skip(0) =~= all);
            assert(Seq::<WorktreeCleanup>::empty() + spec_cleanup_data(all, task_id)
                =~= spec_cleanup_data(all, task_id));
        }
        let mut i: usize = 0;
        while i < self.attempts.len()
            invariant
                i <= self.attempts@.len(),
                all == self.attempts@,
                r@ + spec_cleanup_data(all.skip(i as int), task_id) == spec_cleanup_data(
                    all,
                    task_id,
                ),
            decreases self.attempts@.len() - i,
        {
            let ghost pre = r@;
            proof {
                assert(all.skip(i as int)[0] == all[i as int]);
                assert(all.skip(i as int).drop_first() =~= all.skip((i + 1) as int));
            }
            let a = &self.attempts[i];
            if a.task_id == task_id {
                match &a.container_ref {
                    Some(path) => {
                        let entry = WorktreeCleanup { attempt_id: a.id, worktree_path: path.clone() };
                        proof {
                            assert(entry == WorktreeCleanup {
                                attempt_id: all[i as int].id,
                                worktree_path: all[i as int].container_ref->0,
                            });
                        }
                        r.push(entry);
                        proof {
                            assert(pre.push(entry) =~= pre + seq![entry]);
                            assert(pre + (seq![entry] + spec_cleanup_data(
                                all.skip((i + 1) as int),
                                task_id,
                            )) =~= (pre + seq![entry]) + spec_cleanup_data(
                                all.skip((i + 1) as int),
                                task_id,
                            ));
                        }
                    },
                    None => {},
                }
            }
            i = i + 1;
        }
        proof {
            assert(all.skip(self.attempts@.len() as int) =~= Seq::<AttemptRecord>::empty());
            assert(r@ + Seq::<WorktreeCleanup>::empty() =~= r@);
        }
        r
    }

    /// Delete a task. A task with a running process is refused before any
    /// mutation; otherwise, in one transition, child tasks' parent-attempt
    /// references are nulled and the task and its attempts are removed. The
    /// returned cleanup entries are handed to background worktree removal,
    /// decoupled from this transition.
    pub fn delete_task(&mut self, task_id: u64, has_running_processes: bool) -> (r: Result<
        Vec<WorktreeCleanup>,
        LifecycleError,
    >)
        ensures
            r is Err ==> *final(self) == *old(self),
            (r matches Err(e) && e is Conflict) <==> has_running_processes,
            !has_running_processes ==> ((r matches Err(e) && e is NotFound) <==> !spec_has_task(
                old(self).tasks@,
                task_id,
            )),
            r is Ok ==> final(self).attempts@ == spec_remaining_attempts(
                old(self).attempts@,
                task_id,
            ),
            r is Ok ==> final(self).tasks@ == spec_tasks_after_delete(
                old(self).tasks@,
                task_id,
                spec_removed_attempt_ids(old(self).attempts@, task_id),
            ),
            r matches Ok(cleanup) ==> cleanup@ == spec_cleanup_data(old(self).attempts@, task_id),
    {
        if has_running_processes {
            return Err(LifecycleError::Conflict);
        }
        if !self.has_task(task_id) {
            return Err(LifecycleError::NotFound);
        }
        let cleanup = self.cleanup_plan(task_id);
        let ghost removed = spec_removed_attempt_ids(self.attempts@, task_id);
        let ghost old_attempts = self.attempts@;
        let ghost old_tasks = self.tasks@;

        // Null out child references, dropping the deleted task.
        let mut new_tasks: Vec<TaskRecord> = Vec::new();
        proof {
            assert(old_tasks.skip(0) =~= old_tasks);
            assert(Seq::<TaskRecord>::empty() + spec_tasks_after_delete(
                old_tasks,
                task_id,
                removed,
            ) =~= spec_tasks_after_delete(old_tasks, task_id, removed));
        }
        let mut i: usize = 0;
        while i < self.tasks.len()
            invariant
                i <= self.tasks@.len(),
                old_tasks == self.tasks@,
                old_attempts == self.attempts@,
                removed == spec_removed_attempt_ids(self.attempts@, task_id),
                new_tasks@ + spec_tasks_after_delete(
                    old_tasks.skip(i as int),
                    task_id,
                    removed,
                ) == spec_tasks_after_delete(old_tasks, task_id, removed),
            decreases self.tasks@.len() - i,
        {
            let ghost pre = new_tasks@;
            proof {
                assert(old_tasks.skip(i as int)[0] == old_tasks[i as int]);
                assert(old_tasks.skip(i as int).drop_first() =~= old_tasks.skip((i + 1) as int));
            }
            let t = self.tasks[i];
            if t.id != task_id {
                let kept = match t.parent_task_attempt {
                    Some(p) => if self.attempt_belongs(p, task_id) {
                        TaskRecord {
                            id: t.id,
                            project_id: t.project_id,
                            status: t.status,
                            parent_task_attempt: None,
                        }
                    } else {
                        t
                    },
                    None => t,
                };
                proof {
                    assert(kept == spec_null_parent(old_tasks[i as int], removed));
                }
                new_tasks.push(kept);
                proof {
                    assert(pre.push(kept) =~= pre + seq![kept]);
                    assert(pre + (seq![kept] + spec_tasks_after_delete(
                        old_tasks.skip((i + 1) as int),
                        task_id,
                        removed,
                    )) =~= (pre + seq![kept]) + spec_tasks_after_delete(
                        old_tasks.skip((i + 1) as int),
                        task_id,
                        removed,
                    ));
                }
            }
            i = i + 1;
        }
        proof {
            assert(old_tasks.skip(old_tasks.len() as int) =~= Seq::<TaskRecord>::empty());
            assert(new_tasks@ + Seq::<TaskRecord>::empty() =~= new_tasks@);
        }

        // Remove the task's attempts.
        let mut new_attempts: Vec<AttemptRecord> = Vec::new();
        proof {
            assert(old_attempts.skip(0) =~= old_attempts);
            assert(Seq::<AttemptRecord>::empty() + spec_remaining_attempts(old_attempts, task_id)
                =~= spec_remaining_attempts(old_attempts, task_id));
        }
        let mut k: usize = 0;
        while k < self.attempts.len()
            invariant
                k <= self.attempts@.len(),
                old_attempts == self.attempts@,
                new_attempts@ + spec_remaining_attempts(
                    old_attempts.skip(k as int),
                    task_id,
                ) == spec_remaining_attempts(old_attempts, task_id),
            decreases self.attempts@.len() - k,
        {
            let ghost pre = new_attempts@;
            proof {
                assert(old_attempts.skip(k as int)[0] == old_attempts[k as int]);
                assert(old_attempts.skip(k as int).drop_first() =~= old_attempts.skip(
                    (k + 1) as int,
                ));
            }
            if self.attempts[k].task_id != task_id {
                let kept = copy_attempt(&self.attempts[k]);
                new_attempts.push(kept);
                proof {
                    assert(pre.push(kept) =~= pre + seq![kept]);
                    assert(pre + (seq![kept] + spec_remaining_attempts(
                        old_attempts.skip((k + 1) as int),
                        task_id,
                    )) =~= (pre + seq![kept]) + spec_remaining_attempts(
                        old_attempts.skip((k + 1) as int),
                        task_id,
                    ));
                }
            }
            k = k + 1;
        }
        proof {
            assert(old_attempts.skip(old_attempts.len() as int) =~= Seq::<AttemptRecord>::empty());
            assert(new_attempts@ + Seq::<AttemptRecord>::empty() =~= new_attempts@);
        }

        self.tasks = new_tasks;
        self.attempts = new_attempts;
        Ok(cleanup)
    }

    /// Record that the task's worktrees are gone: every attempt of the task
    /// gets its worktree-deleted flag set. The flag only ever moves from
    /// false to true and is never reset, on this attempt or any other.
    pub fn mark_worktrees_deleted(&mut self, task_id: u64)
        ensures
            final(self).tasks == old(self).tasks,
            final(self).attempts@.len() == old(self).attempts@.len(),
            forall|i: int|
                0 <= i < old(self).attempts@.len() ==> {
                    let a = #[trigger] old(self).attempts@[i];
                    let b = final(self).attempts@[i];
                    if a.task_id == task_id {
                        b == AttemptRecord {
                            id: a.id,
                            task_id: a.task_id,
                            container_ref: a.container_ref,
                            worktree_deleted: true,
                        }
                    } else {
                        b == a
                    }
                },
            forall|i: int|
                0 <= i < old(self).attempts@.len() && (#[trigger] old(
                    self,
                ).attempts@[i]).worktree_deleted ==> final(self).attempts@[i].worktree_deleted,
            forall|i: int|
                0 <= i < old(self).attempts@.len() && (#[trigger] old(self).attempts@[i]).task_id
                    == task_id ==> final(self).attempts@[i].worktree_deleted,
    {
        let ghost old_attempts = self.attempts@;
        let mut updated: Vec<AttemptRecord> = Vec::new();
        let mut i: usize = 0;
        while i < self.attempts.len()
            invariant
                i <= self.attempts@.len(),
                old_attempts == self.attempts@,
                updated@.len() == i,
                forall|m: int|
                    0 <= m < i ==> {
                        let a = #[trigger] old_attempts[m];
                        let b = updated@[m];
                        if a.task_id == task_id {
                            b == AttemptRecord {
                                id: a.id,
                                task_id: a.task_id,
                                container_ref: a.container_ref,
                                worktree_deleted: true,
                            }
                        } else {
                            b == a
                        }
                    },
            decreases self.attempts@.len() - i,
        {
            let a = &self.attempts[i];
            let flag = if a.task_id == task_id {
                true
            } else {
                a.worktree_deleted
            };
            let b = AttemptRecord {
                id: a.id,
                task_id: a.task_id,
                container_ref: clone_opt_string(&a.container_ref),
                worktree_deleted: flag,
            };
            updated.push(b);
            i = i + 1;
        }
        self.attempts = updated;
    }
}

} // verus!
