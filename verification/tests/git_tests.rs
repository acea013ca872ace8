use forge_core::git_cli::{parse_left_right_counts, porcelain_summary, pull_failure_is_conflict};
use forge_core::git_sync::{
    BranchObservation, GitRemoteService, GitRemoteError, PullCommand, PullStep, PullStrategy,
};

#[test]
fn ahead_behind_counts_symmetric_set_difference() {
    let service = GitRemoteService::new();
    // Local has commits 1,2,3,4; remote has 1,2,5: two only-local, one only-remote.
    let local = vec![1u64, 2, 3, 4];
    let remote = vec![1u64, 2, 5];
    let (ahead, behind) = service.ahead_behind(&local, &remote);
    assert_eq!((ahead, behind), (2, 1));
}

#[test]
fn ahead_behind_zero_iff_same_commits() {
    let service = GitRemoteService::new();
    let local = vec![10u64, 20, 30];
    let remote = vec![30u64, 10, 20];
    let (ahead, behind) = service.ahead_behind(&local, &remote);
    assert_eq!((ahead, behind), (0, 0));

    // Fetching twice without new commits leaves the counts unchanged.
    let (ahead2, behind2) = service.ahead_behind(&local, &remote);
    assert_eq!((ahead, behind), (ahead2, behind2));

    let remote_moved = vec![30u64, 10, 20, 40];
    let (a3, b3) = service.ahead_behind(&local, &remote_moved);
    assert!(!(a3 == 0 && b3 == 0));
}

#[test]
fn branch_status_classification() {
    let service = GitRemoteService::new();
    let diverged = service.branch_status(BranchObservation {
        branch_name: "main".to_string(),
        local_sha: "aaa".to_string(),
        remote_sha: Some("bbb".to_string()),
        ahead: 2,
        behind: 3,
    });
    assert!(diverged.is_diverged);
    assert!(!diverged.is_up_to_date);
    // A diverged branch needs a manual merge, not a pull or a push.
    assert!(!diverged.needs_pull);
    assert!(!diverged.needs_push);

    let fresh = service.branch_status(BranchObservation {
        branch_name: "main".to_string(),
        local_sha: "aaa".to_string(),
        remote_sha: Some("aaa".to_string()),
        ahead: 0,
        behind: 0,
    });
    assert!(fresh.is_up_to_date);
    assert!(!fresh.needs_pull);
    assert!(!fresh.needs_push);

    let local_work = service.branch_status(BranchObservation {
        branch_name: "dev".to_string(),
        local_sha: "ccc".to_string(),
        remote_sha: Some("ddd".to_string()),
        ahead: 1,
        behind: 0,
    });
    assert!(local_work.needs_push);
    assert!(!local_work.needs_pull);
}

#[test]
fn get_sync_status_keeps_every_branch_fresh() {
    let service = GitRemoteService::new();
    let status = service.get_sync_status(
        "main".to_string(),
        vec![
            BranchObservation {
                branch_name: "main".to_string(),
                local_sha: "a".to_string(),
                remote_sha: Some("a".to_string()),
                ahead: 0,
                behind: 0,
            },
            BranchObservation {
                branch_name: "dev".to_string(),
                local_sha: "b".to_string(),
                remote_sha: Some("c".to_string()),
                ahead: 0,
                behind: 2,
            },
        ],
    );
    assert_eq!(status.current_branch, "main");
    assert!(status.last_fetch_at.is_none());
    assert_eq!(status.branches.len(), 2);
    assert!(status.branches[0].is_up_to_date);
    assert!(status.branches[1].needs_pull);
}

#[test]
fn fetch_project_builds_one_refspec_per_tracked_branch() {
    let service = GitRemoteService::new();
    let refspecs =
        service.fetch_project(&vec!["main".to_string(), "feature/login".to_string()]);
    assert_eq!(refspecs.len(), 2);
    assert_eq!(refspecs[0], "+refs/heads/main:refs/remotes/origin/main");
    assert_eq!(
        refspecs[1],
        "+refs/heads/feature/login:refs/remotes/origin/feature/login"
    );
}

#[test]
fn pull_up_to_date_is_noop_success() {
    let service = GitRemoteService::new();
    // Not behind: a no-op success, even when the branch is ahead.
    for ahead in [0usize, 5] {
        let step = service
            .pull_branch("main", true, "main", ahead, 0, PullStrategy::Rebase)
            .unwrap();
        match step {
            PullStep::Completed(result) => {
                assert!(result.success);
                assert_eq!(result.commits_pulled, 0);
                assert_eq!(result.message, "Already up-to-date");
            }
            PullStep::Run(_) => panic!("no command may run for an up-to-date branch"),
        }
    }
}

#[test]
fn pull_diverged_fails_for_every_strategy() {
    let service = GitRemoteService::new();
    for strategy in [PullStrategy::Merge, PullStrategy::Rebase, PullStrategy::FastForward] {
        let result = service.pull_branch("main", true, "main", 2, 3, strategy);
        match result {
            Err(GitRemoteError::BranchesDiverged { branch, ahead, behind }) => {
                assert_eq!(branch, "main");
                assert_eq!(ahead, 2);
                assert_eq!(behind, 3);
            }
            _ => panic!("a diverged branch must fail with the divergence error"),
        }
    }
}

#[test]
fn pull_refuses_dirty_tree_and_wrong_branch() {
    let service = GitRemoteService::new();
    assert!(matches!(
        service.pull_branch("main", false, "main", 0, 1, PullStrategy::Merge),
        Err(GitRemoteError::DirtyWorktree)
    ));
    match service.pull_branch("main", true, "dev", 0, 1, PullStrategy::Merge) {
        Err(GitRemoteError::WrongBranch { requested, current }) => {
            assert_eq!(requested, "main");
            assert_eq!(current, "dev");
        }
        _ => panic!("cross-branch pulls are refused"),
    }
}

#[test]
fn pull_behind_runs_strategy_command() {
    let service = GitRemoteService::new();
    match service.pull_branch("main", true, "main", 0, 4, PullStrategy::Merge).unwrap() {
        PullStep::Run(cmd) => assert_eq!(cmd, PullCommand::FastForwardMerge),
        _ => panic!("a behind-only branch pulls"),
    }
    match service.pull_branch("main", true, "main", 0, 4, PullStrategy::FastForward).unwrap() {
        PullStep::Run(cmd) => assert_eq!(cmd, PullCommand::FastForwardMerge),
        _ => panic!("a behind-only branch pulls"),
    }
    match service.pull_branch("main", true, "main", 0, 4, PullStrategy::Rebase).unwrap() {
        PullStep::Run(cmd) => assert_eq!(cmd, PullCommand::Rebase),
        _ => panic!("a behind-only branch pulls"),
    }
    let done = service.pull_completed(PullStrategy::Merge, 4);
    assert!(done.success);
    assert_eq!(done.commits_pulled, 4);
    assert_eq!(done.message, "Successfully pulled 4 commits");
}

#[test]
fn wrong_branch_message_is_actionable() {
    assert_eq!(
        GitRemoteService::wrong_branch_message("main", "dev"),
        "Cannot pull main: currently on dev"
    );
}

#[test]
fn diverged_message_is_actionable() {
    let msg = GitRemoteService::diverged_message("main", 2, 3);
    assert_eq!(
        msg,
        "Branch 'main' has diverged: 2 ahead, 3 behind. Manual merge required."
    );
}

#[test]
fn command_args_match_git_plumbing() {
    let ff = GitRemoteService::command_args(PullCommand::FastForwardMerge);
    assert_eq!(ff, vec!["merge", "--ff-only", "HEAD@{u}"]);
    let rebase = GitRemoteService::command_args(PullCommand::Rebase);
    assert_eq!(rebase, vec!["rebase", "HEAD@{u}"]);
}

#[test]
fn parse_left_right_counts_reads_two_fields() {
    assert_eq!(parse_left_right_counts("3\t7"), Some((3, 7)));
    assert_eq!(parse_left_right_counts("  12  0 \n"), Some((12, 0)));
    assert_eq!(parse_left_right_counts("12"), None);
    assert_eq!(parse_left_right_counts("a b"), None);
    assert_eq!(parse_left_right_counts("1 2 3"), None);
    assert_eq!(parse_left_right_counts(""), None);
    assert_eq!(parse_left_right_counts("99999999999999999999 1"), None);
    // The counters are full-range but bounded.
    assert_eq!(parse_left_right_counts("4294967295 0"), Some((4294967295, 0)));
    assert_eq!(parse_left_right_counts("4294967296 0"), None);
}

#[test]
fn porcelain_summary_counts_tracked_and_untracked() {
    let (dirty, uncommitted, untracked) =
        porcelain_summary(" M src/main.rs\n?? notes.txt\nA  added.rs\n?? scratch/");
    assert!(dirty);
    assert_eq!(uncommitted, 2);
    assert_eq!(untracked, 2);

    let (clean, zero_changed, zero_new) = porcelain_summary("");
    assert!(!clean);
    assert_eq!(zero_changed, 0);
    assert_eq!(zero_new, 0);
}

#[test]
fn pull_failure_classification() {
    assert!(pull_failure_is_conflict("error: merge conflict in src/lib.rs"));
    assert!(pull_failure_is_conflict("Cannot rebase: You have unstaged changes."));
    assert!(!pull_failure_is_conflict("fatal: could not read from remote repository"));
}
