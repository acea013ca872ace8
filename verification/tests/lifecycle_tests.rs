use forge_core::kanban::{HiddenTaskSet, TaskPatchOp, filter_snapshot, kanban_listing, should_emit};
use forge_core::lifecycle::{
    apply_transition, archive_triggers_cleanup, creation_response_flags, executor_with_variant,
    initial_task_status, merge_task_update, run_branch_name, AttemptRecord,
    ExecutionProcessStatus, LifecycleError, TaskRecord, TaskStatus, TaskStore, TaskUpdate,
};
use forge_core::run_store::{RunError, RunStore};
use forge_core::session::{
    find_latest_active_agent, find_latest_session_id, latest_executor_profile,
    resolve_continuation, ExecutorActionType, ExecutorProfileId, ProcessRecord,
};
use forge_core::lifecycle::RunReason;

fn task(id: u64, project_id: u64, status: TaskStatus, parent: Option<u64>) -> TaskRecord {
    TaskRecord { id, project_id, status, parent_task_attempt: parent }
}

fn attempt(id: u64, task_id: u64, container_ref: Option<&str>) -> AttemptRecord {
    AttemptRecord {
        id,
        task_id,
        container_ref: container_ref.map(|s| s.to_string()),
        worktree_deleted: false,
    }
}

#[test]
fn process_status_machine_is_absorbing() {
    let (pending, running) = (ExecutionProcessStatus::Pending, ExecutionProcessStatus::Running);
    let (completed, failed, killed) = (
        ExecutionProcessStatus::Completed,
        ExecutionProcessStatus::Failed,
        ExecutionProcessStatus::Killed,
    );
    assert_eq!(apply_transition(pending, running), running);
    assert_eq!(apply_transition(running, completed), completed);
    assert_eq!(apply_transition(running, killed), killed);
    // Terminal states never change again.
    assert_eq!(apply_transition(completed, running), completed);
    assert_eq!(apply_transition(failed, killed), failed);
    assert_eq!(apply_transition(killed, running), killed);
    // Skipping the running state is not a move either.
    assert_eq!(apply_transition(pending, completed), pending);
}

#[test]
fn delete_with_running_process_is_rejected_before_any_mutation() {
    let mut store = TaskStore {
        tasks: vec![task(1, 10, TaskStatus::Todo, None)],
        attempts: vec![attempt(100, 1, Some("/wt/100"))],
    };
    let result = store.delete_task(1, true);
    assert!(matches!(result, Err(LifecycleError::Conflict)));
    // The store is unchanged.
    assert_eq!(store.tasks.len(), 1);
    assert_eq!(store.attempts.len(), 1);
    assert_eq!(store.attempts[0].container_ref.as_deref(), Some("/wt/100"));
}

#[test]
fn delete_missing_task_is_not_found() {
    let mut store = TaskStore { tasks: vec![], attempts: vec![] };
    assert!(matches!(store.delete_task(1, false), Err(LifecycleError::NotFound)));
}

#[test]
fn three_records() {
    // A task with two attempts; a child task points at one of them.
    let mut store = TaskStore {
        tasks: vec![
            task(1, 10, TaskStatus::InProgress, None),
            task(2, 10, TaskStatus::Todo, Some(101)),
        ],
        attempts: vec![attempt(100, 1, Some("/wt/100")), attempt(101, 1, None)],
    };
    let cleanup = store.delete_task(1, false).unwrap();

    // After deletion the child's parent-attempt reference is null and both
    // attempts are gone; no partial state was observable in between.
    assert_eq!(store.tasks.len(), 1);
    assert_eq!(store.tasks[0].id, 2);
    assert_eq!(store.tasks[0].parent_task_attempt, None);
    assert!(store.attempts.is_empty());

    // Only the attempt with a container reference needs cleanup.
    assert_eq!(cleanup.len(), 1);
    assert_eq!(cleanup[0].attempt_id, 100);
    assert_eq!(cleanup[0].worktree_path, "/wt/100");
}

#[test]
fn delete_keeps_unrelated_rows() {
    let mut store = TaskStore {
        tasks: vec![
            task(1, 10, TaskStatus::Todo, None),
            task(2, 10, TaskStatus::Todo, Some(200)),
        ],
        attempts: vec![attempt(100, 1, None), attempt(200, 2, Some("/wt/200"))],
    };
    store.delete_task(1, false).unwrap();
    // Task 2 still points at its own attempt, which survived.
    assert_eq!(store.tasks[0].parent_task_attempt, Some(200));
    assert_eq!(store.attempts.len(), 1);
    assert_eq!(store.attempts[0].id, 200);
}

#[test]
fn archive_marks_worktrees_deleted_after_cleanup() {
    let mut store = TaskStore {
        tasks: vec![task(1, 10, TaskStatus::Archived, None)],
        attempts: vec![attempt(100, 1, Some("/wt/100")), attempt(101, 2, Some("/wt/101"))],
    };
    let plan = store.cleanup_plan(1);
    assert_eq!(plan.len(), 1);
    assert_eq!(plan[0].worktree_path, "/wt/100");

    // Cleanup completed: the flag is set for the archived task's attempts
    // and left alone for everything else.
    store.mark_worktrees_deleted(1);
    assert!(store.attempts[0].worktree_deleted);
    assert!(!store.attempts[1].worktree_deleted);
    // The container reference stays: it is the cleanup key.
    assert_eq!(store.attempts[0].container_ref.as_deref(), Some("/wt/100"));
}

#[test]
fn task_update_merges_absent_fields() {
    // Absent fields keep the stored values.
    let (title, description, status, parent) = merge_task_update(
        "old title".to_string(),
        Some("old description".to_string()),
        TaskStatus::Todo,
        Some(7),
        TaskUpdate { title: None, description: None, status: None, parent_task_attempt: None },
    );
    assert_eq!(title, "old title");
    assert_eq!(description.as_deref(), Some("old description"));
    assert_eq!(status, TaskStatus::Todo);
    assert_eq!(parent, Some(7));

    // Given fields replace them; a blank description clears it.
    let (title, description, status, parent) = merge_task_update(
        "old title".to_string(),
        Some("old description".to_string()),
        TaskStatus::Todo,
        None,
        TaskUpdate {
            title: Some("new title".to_string()),
            description: Some("  \n ".to_string()),
            status: Some(TaskStatus::Done),
            parent_task_attempt: Some(9),
        },
    );
    assert_eq!(title, "new title");
    assert!(description.is_none());
    assert_eq!(status, TaskStatus::Done);
    assert_eq!(parent, Some(9));
}

#[test]
fn archive_cleanup_runs_on_first_transition_only() {
    assert!(archive_triggers_cleanup(TaskStatus::InReview, TaskStatus::Archived));
    assert!(archive_triggers_cleanup(TaskStatus::Todo, TaskStatus::Archived));
    // Re-saving an archived task or any other transition triggers nothing.
    assert!(!archive_triggers_cleanup(TaskStatus::Archived, TaskStatus::Archived));
    assert!(!archive_triggers_cleanup(TaskStatus::Todo, TaskStatus::Done));
    assert!(!archive_triggers_cleanup(TaskStatus::Archived, TaskStatus::Todo));
}

#[test]
fn start_failure_is_not_fatal_to_creation() {
    // The records persist; the caller merely sees no attempt in progress.
    let failed = creation_response_flags(false);
    assert!(!failed.has_in_progress_attempt);
    assert!(!failed.has_merged_attempt);
    assert!(!failed.last_attempt_failed);
    assert_eq!(failed.attempt_count, 1);

    let started = creation_response_flags(true);
    assert!(started.has_in_progress_attempt);
}

#[test]
fn initial_status_depends_on_worktree_isolation() {
    assert_eq!(initial_task_status(true), TaskStatus::Todo);
    assert_eq!(initial_task_status(false), TaskStatus::Agent);
}

#[test]
fn agent_task_hidden_from_kanban_but_present_for_agents() {
    // Scenario: an attempt is created without worktree isolation.
    let status = initial_task_status(false);
    assert_eq!(status, TaskStatus::Agent);

    let agent_task = task(7, 10, status, None);
    let board_task = task(8, 10, TaskStatus::Todo, None);
    let tasks = vec![agent_task, board_task];

    // Registration in the agent membership set hides it from the kanban
    // listing of its project.
    let mut hidden = HiddenTaskSet::new();
    hidden.insert(7);
    let listing = kanban_listing(&tasks, &hidden, 10);
    assert_eq!(listing.len(), 1);
    assert_eq!(listing[0].id, 8);

    // The agent-tasks side knows it: membership answers directly.
    assert!(hidden.contains(7));

    // Even before the membership set catches up, the stream never shows it
    // as anything but an agent task: the status check drops the patch.
    let fresh_cache = HiddenTaskSet::new();
    let add = TaskPatchOp::Add { task_id: 7, status };
    assert!(!should_emit(&add, &fresh_cache));
}

#[test]
fn executor_with_variant_formatting() {
    assert_eq!(executor_with_variant("CLAUDE_CODE", None), "CLAUDE_CODE");
    assert_eq!(executor_with_variant("CLAUDE_CODE", Some("GENIE")), "CLAUDE_CODE:GENIE");
}

#[test]
fn run_branch_name_uses_first_eight_hex_chars() {
    let id_bytes = vec![0xdeu8, 0xad, 0xbe, 0xef, 0x01, 0x02];
    assert_eq!(run_branch_name(&id_bytes), "run/deadbeef");
    let zeros = vec![0u8, 0, 0, 0];
    assert_eq!(run_branch_name(&zeros), "run/00000000");
}

#[test]
fn kanban_stream_filtering_rules() {
    let mut hidden = HiddenTaskSet::new();
    hidden.insert(5);

    // Additions and replacements of hidden tasks never pass.
    assert!(!should_emit(&TaskPatchOp::Add { task_id: 5, status: TaskStatus::Todo }, &hidden));
    assert!(!should_emit(&TaskPatchOp::Replace { task_id: 5, status: TaskStatus::Done }, &hidden));
    // Agent-status patches never pass, hidden or not.
    assert!(!should_emit(&TaskPatchOp::Add { task_id: 6, status: TaskStatus::Agent }, &hidden));
    // Ordinary additions pass.
    assert!(should_emit(&TaskPatchOp::Add { task_id: 6, status: TaskStatus::Todo }, &hidden));
    // Removals always pass, membership or not.
    assert!(should_emit(&TaskPatchOp::Remove { task_id: 5 }, &hidden));
    assert!(should_emit(&TaskPatchOp::Remove { task_id: 6 }, &hidden));
}

#[test]
fn kanban_snapshot_filtered_key_by_key() {
    let mut hidden = HiddenTaskSet::new();
    hidden.insert(2);
    let entries = vec![
        (1u64, TaskStatus::Todo),
        (2u64, TaskStatus::Todo),
        (3u64, TaskStatus::Agent),
        (4u64, TaskStatus::Done),
    ];
    let kept = filter_snapshot(&entries, &hidden);
    assert_eq!(kept, vec![(1u64, TaskStatus::Todo), (4u64, TaskStatus::Done)]);
}

#[test]
fn hidden_set_cache_miss_fallback() {
    let mut hidden = HiddenTaskSet::new();
    // Cache hit needs no lookup result.
    hidden.insert(9);
    assert!(hidden.resolve_hidden(9, false));
    // A confirmed miss is inserted for next time.
    assert!(!hidden.contains(11));
    assert!(hidden.resolve_hidden(11, true));
    assert!(hidden.contains(11));
    // An unconfirmed miss stays out.
    assert!(!hidden.resolve_hidden(12, false));
    assert!(!hidden.contains(12));
}

#[test]
fn hidden_set_refresh_replaces_atomically() {
    let mut hidden = HiddenTaskSet::new();
    hidden.insert(1);
    hidden.replace_all(vec![2, 3, 3]);
    assert!(!hidden.contains(1));
    assert!(hidden.contains(2));
    assert!(hidden.contains(3));
}

fn process(
    id: u64,
    status: ExecutionProcessStatus,
    session: Option<&str>,
    variant: Option<&str>,
) -> ProcessRecord {
    ProcessRecord {
        id,
        run_reason: RunReason::CodingAgent,
        status,
        session_id: session.map(|s| s.to_string()),
        executor: "CLAUDE_CODE".to_string(),
        variant: variant.map(|s| s.to_string()),
    }
}

#[test]
fn follow_up_reuses_latest_session() {
    let processes = vec![
        process(1, ExecutionProcessStatus::Completed, Some("sess-a"), None),
        process(2, ExecutionProcessStatus::Completed, Some("sess-b"), Some("GENIE")),
    ];
    let session = find_latest_session_id(&processes);
    assert_eq!(session.as_deref(), Some("sess-b"));

    let profile = latest_executor_profile(&processes).unwrap();
    assert_eq!(profile.executor, "CLAUDE_CODE");
    assert_eq!(profile.variant.as_deref(), Some("GENIE"));

    let action =
        resolve_continuation(session, profile, None, "continue please".to_string());
    match action {
        ExecutorActionType::CodingAgentFollowUp { prompt, session_id, executor_profile_id } => {
            assert_eq!(prompt, "continue please");
            assert_eq!(session_id, "sess-b");
            // The variant of the most recent process is honored.
            assert_eq!(executor_profile_id.variant.as_deref(), Some("GENIE"));
        }
        _ => panic!("a recorded session is continued"),
    }
}

#[test]
fn follow_up_without_prior_processes_starts_fresh() {
    let processes: Vec<ProcessRecord> = vec![];
    let session = find_latest_session_id(&processes);
    assert!(session.is_none());

    let profile = ExecutorProfileId { executor: "CODEX".to_string(), variant: None };
    let action = resolve_continuation(session, profile, Some("FAST".to_string()), "go".to_string());
    match action {
        ExecutorActionType::CodingAgentInitial { prompt, executor_profile_id } => {
            assert_eq!(prompt, "go");
            assert_eq!(executor_profile_id.executor, "CODEX");
            // An explicit override wins.
            assert_eq!(executor_profile_id.variant.as_deref(), Some("FAST"));
        }
        _ => panic!("no session means a fresh start"),
    }
}

#[test]
fn stop_targets_latest_active_agent_process() {
    let mut processes = vec![
        process(1, ExecutionProcessStatus::Completed, None, None),
        process(2, ExecutionProcessStatus::Running, None, None),
    ];
    assert_eq!(find_latest_active_agent(&processes), Some(2));
    // Idempotent: once everything is terminal there is nothing to stop.
    processes[1].status = ExecutionProcessStatus::Killed;
    assert_eq!(find_latest_active_agent(&processes), None);
}

#[test]
fn run_store_keeps_container_refs_unique() {
    let mut store = RunStore::new();
    store
        .create(1, 10, "run/aaaa".to_string(), "main".to_string(), "CLAUDE_CODE".to_string(),
            "write a commit message".to_string())
        .unwrap();
    store
        .create(2, 10, "run/bbbb".to_string(), "main".to_string(), "CODEX".to_string(),
            "summarize the diff".to_string())
        .unwrap();
    assert!(matches!(
        store.create(1, 10, "x".to_string(), "main".to_string(), "CODEX".to_string(),
            "p".to_string()),
        Err(RunError::DuplicateId)
    ));

    store.update_container_ref(1, "/wt/run-1".to_string()).unwrap();
    assert!(matches!(
        store.update_container_ref(2, "/wt/run-1".to_string()),
        Err(RunError::ContainerRefInUse)
    ));
    assert!(matches!(
        store.update_container_ref(99, "/wt/run-99".to_string()),
        Err(RunError::NotFound)
    ));

    // A successful update touches nothing but the container reference.
    let updated = store.find_by_id(1).unwrap();
    assert_eq!(updated.container_ref.as_deref(), Some("/wt/run-1"));
    assert_eq!(updated.branch, "run/aaaa");
    assert_eq!(updated.target_branch, "main");
    assert_eq!(updated.executor, "CLAUDE_CODE");
    assert_eq!(updated.prompt, "write a commit message");
    assert!(!updated.worktree_deleted);

    assert!(store.container_ref_exists("/wt/run-1"));
    assert!(!store.container_ref_exists("/wt/run-2"));
    assert_eq!(store.resolve_container_ref("/wt/run-1").unwrap(), (1, 10));
    assert!(matches!(store.resolve_container_ref("/wt/run-2"), Err(RunError::NotFound)));
}

#[test]
fn run_store_fetch_all_newest_first() {
    let mut store = RunStore::new();
    store
        .create(1, 10, "run/a".to_string(), "main".to_string(), "E".to_string(), "p1".to_string())
        .unwrap();
    store
        .create(2, 11, "run/b".to_string(), "main".to_string(), "E".to_string(), "p2".to_string())
        .unwrap();
    store
        .create(3, 10, "run/c".to_string(), "main".to_string(), "E".to_string(), "p3".to_string())
        .unwrap();

    let all = store.fetch_all(None);
    let ids: Vec<u64> = all.iter().map(|r| r.id).collect();
    assert_eq!(ids, vec![3, 2, 1]);

    let of_project = store.fetch_all(Some(10));
    let project_ids: Vec<u64> = of_project.iter().map(|r| r.id).collect();
    assert_eq!(project_ids, vec![3, 1]);

    let run = store.find_by_id(2).unwrap();
    assert_eq!(run.project_id, 11);
    assert_eq!(run.target_branch, "main");
    assert!(!run.worktree_deleted);
    assert!(run.container_ref.is_none());

    store.mark_worktree_deleted(2).unwrap();
    assert!(store.find_by_id(2).unwrap().worktree_deleted);
    assert!(matches!(store.mark_worktree_deleted(42), Err(RunError::NotFound)));
}
