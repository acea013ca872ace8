//! Git branch synchronization: ahead/behind computation from commit
//! reachability, branch status classification, fetch refspecs, and the pull
//! decision with its safety checks.

use vstd::prelude::*;

use crate::text::{chars_vec, dec_digits, string_from_chars, u64_to_chars};

verus! {

broadcast use vstd::seq_lib::group_seq_properties;

/// Number of commits reachable from the local tip but not from the remote
/// tip: how far the branch is ahead of its upstream.
pub open spec fn ahead_of(local: Set<u64>, remote: Set<u64>) -> nat {
    local.difference(remote).len()
}

/// Number of commits reachable from the remote tip but not from the local
/// tip: how far the branch is behind its upstream.
pub open spec fn behind_of(local: Set<u64>, remote: Set<u64>) -> nat {
    remote.difference(local).len()
}

/// A branch is exactly in sync with its upstream when neither tip has a
/// commit the other lacks; the two counts are zero precisely then. The
/// counts are functions of the two reachable sets alone, so recomputing
/// them without new commits gives the same values.
pub proof fn lemma_in_sync_iff_same_commits(local: Set<u64>, remote: Set<u64>)
    requires
        local.finite(),
        remote.finite(),
    ensures
        (ahead_of(local, remote) == 0 && behind_of(local, remote) == 0) <==> local == remote,
{
    if ahead_of(local, remote) == 0 && behind_of(local, remote) == 0 {
        local.difference(remote).lemma_len0_is_empty();
        remote.difference(local).lemma_len0_is_empty();
        assert forall|x: u64| local.contains(x) implies remote.contains(x) by {
            assert(!local.difference(remote).contains(x));
        }
        assert forall|x: u64| remote.contains(x) implies local.contains(x) by {
            assert(!remote.difference(local).contains(x));
        }
        assert(local =~= remote);
    }
    if local == remote {
        assert(local.difference(remote) =~= Set::<u64>::empty());
        assert(remote.difference(local) =~= Set::<u64>::empty());
    }
}

/// How many elements of `a` are missing from `b`.
fn count_only_in_first(a: &Vec<u64>, b: &Vec<u64>) -> (r: usize)
    requires
        a@.no_duplicates(),
    ensures
        r == a@.to_set().difference(b@.to_set()).len(),
{
    let na = a.len();
    let mut count: usize = 0;
    let mut i: usize = 0;
    proof {
        assert(a@.take(0).to_set() =~= Set::<u64>::empty());
        assert(a@.take(0).to_set().difference(b@.to_set()) =~= Set::<u64>::empty());
    }
    while i < na
        invariant
            i <= na,
            na == a@.len(),
            count <= i,
            a@.no_duplicates(),
            count == a@.take(i as int).to_set().difference(b@.to_set()).len(),
        decreases na - i,
    {
        let ghost pre = a@.take(i as int).to_set().difference(b@.to_set());
        let x = a[i];
        let mut found = false;
        let mut k: usize = 0;
        while k < b.len()
            invariant
                k <= b@.len(),
                found == exists|m: int| 0 <= m < k && b@[m] == x,
            decreases b@.len() - k,
        {
            if b[k] == x {
                found = true;
                proof {
                    assert(b@[k as int] == x);
                }
            }
            k = k + 1;
        }
        proof {
            assert(found == b@.contains(x));
            assert(a@.take((i + 1) as int) =~= a@.take(i as int).push(x));
            assert(a@.take((i + 1) as int).to_set() =~= a@.take(i as int).to_set().insert(x));
            // `x` is not among the earlier elements.
            assert(!a@.take(i as int).contains(x)) by {
                if a@.take(i as int).contains(x) {
                    let m = choose|m: int| 0 <= m < i && a@.take(i as int)[m] == x;
                    assert(a@[m] == a@[i as int]);
                }
            }
            vstd::seq_lib::seq_to_set_is_finite(a@.take(i as int));
            assert(a@.take(i as int).to_set().finite());
            if found {
                assert(a@.take((i + 1) as int).to_set().difference(b@.to_set()) =~= pre);
            } else {
                assert(a@.take((i + 1) as int).to_set().difference(b@.to_set()) =~= pre.insert(x));
                assert(!pre.contains(x));
            }
        }
        if !found {
            count = count + 1;
        }
        i = i + 1;
    }
    proof {
        assert(a@.take(na as int) =~= a@);
    }
    count
}

/// Pull strategies offered by the engine; `Merge` and `FastForward` both
/// resolve to a fast-forward-only merge.
#[derive(Debug, Clone, Copy, PartialEq, Eq, Structural)]
pub enum PullStrategy {
    Merge,
    Rebase,
    FastForward,
}

/// Outcome of a fetch: how many branches were fetched and how long it took.
#[derive(Debug, Clone)]
pub struct FetchResult {
    pub branches_fetched: usize,
    pub duration_ms: u64,
}

/// Outcome of a pull.
#[derive(Debug, Clone)]
pub struct PullResult {
    pub success: bool,
    pub strategy_used: PullStrategy,
    pub commits_pulled: usize,
    pub message: String,
}

/// Sync classification of one branch against its upstream.
#[derive(Debug, Clone)]
pub struct BranchSyncStatus {
    pub branch_name: String,
    pub local_sha: String,
    pub remote_sha: Option<String>,
    pub ahead_count: usize,
    pub behind_count: usize,
    pub is_diverged: bool,
    pub is_up_to_date: bool,
    pub needs_pull: bool,
    pub needs_push: bool,
}

/// What was observed of one branch: its tips and its ahead/behind counts.
pub struct BranchObservation {
    pub branch_name: String,
    pub local_sha: String,
    pub remote_sha: Option<String>,
    pub ahead: usize,
    pub behind: usize,
}

/// Sync status of a whole repository.
#[derive(Debug, Clone)]
pub struct ProjectSyncStatus {
    pub current_branch: String,
    pub branches: Vec<BranchSyncStatus>,
    /// Epoch milliseconds of the last fetch; none when no cache is kept.
    pub last_fetch_at: Option<i64>,
}

/// A pull request body: the strategy defaults to fast-forward when absent.
#[derive(Debug, Clone)]
pub struct PullRequest {
    pub strategy: Option<PullStrategy>,
}

/// Answer to a fetch request that runs in the background.
#[derive(Debug, Clone)]
pub struct FetchTaskResponse {
    pub message: String,
}

/// Answer to a sync-status request, with its measured response time.
#[derive(Debug, Clone)]
pub struct ProjectSyncStatusResponse {
    pub project_id: String,
    pub current_branch: String,
    pub branches: Vec<BranchSyncStatus>,
    pub response_time_ms: u64,
}

/// Failure cases of the synchronization engine.
#[derive(Debug)]
pub enum GitRemoteError {
    /// The working tree holds uncommitted changes; pulling never stashes.
    DirtyWorktree,
    /// The repository is on another branch than the one to pull.
    WrongBranch { requested: String, current: String },
    /// Local and upstream both have commits of their own; a pull would need
    /// a real merge, which this path never performs.
    BranchesDiverged { branch: String, ahead: usize, behind: usize },
    /// An underlying git operation failed.
    GitService(String),
    /// An I/O operation failed.
    Io(String),
}

/// The command a proceeding pull must run.
#[derive(Debug, Clone, Copy, PartialEq, Eq, Structural)]
pub enum PullCommand {
    /// `merge --ff-only` against the upstream ref.
    FastForwardMerge,
    /// `rebase` onto the upstream ref.
    Rebase,
}

/// What the caller of the pull planner must do next.
#[derive(Debug)]
pub enum PullStep {
    /// Nothing to do; the result is final.
    Completed(PullResult),
    /// Run this command, then build the result with `pull_completed`.
    Run(PullCommand),
}

/// The decision a pull takes, as a function of the observed state.
#[derive(Debug, Clone, Copy, PartialEq, Eq, Structural)]
pub enum PullDecision {
    RejectDirty,
    RejectWrongBranch,
    NoOp,
    RejectDiverged,
    FastForward,
    Rebase,
}

/// The pull rules: a dirty tree and a cross-branch pull are refused, a
/// branch that is not behind is a no-op, a diverged branch is refused, and
/// otherwise the strategy picks a fast-forward merge or a rebase.
pub open spec fn spec_pull_decision(
    worktree_clean: bool,
    on_requested_branch: bool,
    ahead: nat,
    behind: nat,
    strategy: PullStrategy,
) -> PullDecision {
    if !worktree_clean {
        PullDecision::RejectDirty
    } else if !on_requested_branch {
        PullDecision::RejectWrongBranch
    } else if behind == 0 {
        PullDecision::NoOp
    } else if ahead > 0 {
        PullDecision::RejectDiverged
    } else if strategy is Rebase {
        PullDecision::Rebase
    } else {
        PullDecision::FastForward
    }
}

/// Pulling a branch that is not behind its upstream is a no-op, whatever
/// the strategy and however far ahead the branch is: no command runs and
/// nothing on disk changes.
pub proof fn lemma_pull_not_behind_is_noop(ahead: nat, strategy: PullStrategy)
    ensures
        spec_pull_decision(true, true, ahead, 0, strategy) == PullDecision::NoOp,
{
}

/// Pulling a branch that is both ahead and behind is refused with the
/// divergence decision, whatever the strategy: no command runs and nothing
/// on disk changes.
pub proof fn lemma_pull_diverged_is_rejected(ahead: nat, behind: nat, strategy: PullStrategy)
    requires
        ahead > 0,
        behind > 0,
    ensures
        spec_pull_decision(true, true, ahead, behind, strategy) == PullDecision::RejectDiverged,
{
}

/// The refspec fetched for one tracked branch.
pub open spec fn spec_refspec(branch: Seq<char>) -> Seq<char> {
    "+refs/heads/"@ + branch + ":refs/remotes/origin/"@ + branch
}

/// The message of the divergence error.
pub open spec fn spec_diverged_text(branch: Seq<char>, ahead: nat, behind: nat) -> Seq<char> {
    "Branch '"@ + branch + "' has diverged: "@ + dec_digits(ahead) + " ahead, "@ + dec_digits(
        behind,
    ) + " behind. Manual merge required."@
}

/// Git branch synchronization engine. It decides; running git itself is the
/// caller's part.
pub struct GitRemoteService;

impl GitRemoteService {
    pub fn new() -> Self {
        Self
    }

    /// Ahead/behind counts from the sets of commits reachable from the two
    /// tips, as a symmetric set difference. Each input lists the reachable
    /// commits once.
    pub fn ahead_behind(&self, local_reachable: &Vec<u64>, remote_reachable: &Vec<u64>) -> (r: (
        usize,
        usize,
    ))
        requires
            local_reachable@.no_duplicates(),
            remote_reachable@.no_duplicates(),
        ensures
            r.0 == ahead_of(local_reachable@.to_set(), remote_reachable@.to_set()),
            r.1 == behind_of(local_reachable@.to_set(), remote_reachable@.to_set()),
    {
        let ahead = count_only_in_first(local_reachable, remote_reachable);
        let behind = count_only_in_first(remote_reachable, local_reachable);
        (ahead, behind)
    }

    /// The refspecs a fetch of the tracked branches uses, one per branch, in
    /// order; branches without upstream are never touched.
    pub fn fetch_project(&self, tracked_branches: &Vec<String>) -> (r: Vec<String>)
        ensures
            r@.len() == tracked_branches@.len(),
            forall|i: int|
                0 <= i < r@.len() ==> (#[trigger] r@[i])@ == spec_refspec(
                    tracked_branches@[i]@,
                ),
    {
        let mut r: Vec<String> = Vec::new();
        let mut i: usize = 0;
        while i < tracked_branches.len()
            invariant
                i <= tracked_branches@.len(),
                r@.len() == i,
                forall|m: int|
                    0 <= m < i ==> (#[trigger] r@[m])@ == spec_refspec(tracked_branches@[m]@),
            decreases tracked_branches@.len() - i,
        {
            r.push(Self::refspec_for_branch(tracked_branches[i].as_str()));
            i = i + 1;
        }
        r
    }

    /// The explicit refspec for one branch.
    pub fn refspec_for_branch(branch: &str) -> (r: String)
        ensures
            r@ == spec_refspec(branch@),
    {
        let mut out = chars_vec("+refs/heads/");
        let mut b1 = chars_vec(branch);
        let mut mid = chars_vec(":refs/remotes/origin/");
        let mut b2 = chars_vec(branch);
        out.append(&mut b1);
        out.append(&mut mid);
        out.append(&mut b2);
        proof {
            assert(out@ =~= spec_refspec(branch@));
        }
        string_from_chars(&out)
    }

    /// Classify one observed branch. Each flag is pinned to the counts:
    /// diverged when both are positive, up to date when both are zero,
    /// needing a pull when it is behind only, needing a push when it is
    /// ahead only; a diverged branch needs a manual merge, not a pull.
    pub fn branch_status(&self, observation: BranchObservation) -> (r: BranchSyncStatus)
        ensures
            r.branch_name == observation.branch_name,
            r.local_sha == observation.local_sha,
            r.remote_sha == observation.remote_sha,
            r.ahead_count == observation.ahead,
            r.behind_count == observation.behind,
            r.is_diverged == (observation.ahead > 0 && observation.behind > 0),
            r.is_up_to_date == (observation.ahead == 0 && observation.behind == 0),
            r.needs_pull == (observation.behind > 0 && observation.ahead == 0),
            r.needs_push == (observation.ahead > 0 && observation.behind == 0),
    {
        let BranchObservation { branch_name, local_sha, remote_sha, ahead, behind } = observation;
        BranchSyncStatus {
            branch_name,
            local_sha,
            remote_sha,
            ahead_count: ahead,
            behind_count: behind,
            is_diverged: ahead > 0 && behind > 0,
            is_up_to_date: ahead == 0 && behind == 0,
            needs_pull: behind > 0 && ahead == 0,
            needs_push: ahead > 0 && behind == 0,
        }
    }

    /// Assemble the fresh sync status of a repository from the per-branch
    /// observations. No caching: the observations are used as they stand.
    pub fn get_sync_status(
        &self,
        current_branch: String,
        observations: Vec<BranchObservation>,
    ) -> (r: ProjectSyncStatus)
        ensures
            r.current_branch == current_branch,
            r.last_fetch_at is None,
            r.branches@.len() == observations@.len(),
            forall|i: int|
                0 <= i < observations@.len() ==> {
                    let o = #[trigger] observations@[i];
                    let b = r.branches@[i];
                    b.branch_name == o.branch_name && b.ahead_count == o.ahead && b.behind_count
                        == o.behind && b.is_diverged == (o.ahead > 0 && o.behind > 0)
                        && b.is_up_to_date == (o.ahead == 0 && o.behind == 0) && b.needs_pull == (
                    o.behind > 0 && o.ahead == 0) && b.needs_push == (o.ahead > 0 && o.behind
                        == 0)
                },
    {
        let mut branches: Vec<BranchSyncStatus> = Vec::new();
        let mut pending = observations;
        let ghost all = pending@;
        proof {
            assert(all.skip(0) =~= all);
        }
        while pending.len() > 0
            invariant
                pending@.len() + branches@.len() == all.len(),
                pending@ == all.skip(branches@.len() as int),
                forall|i: int|
                    0 <= i < branches@.len() ==> {
                        let o = #[trigger] all[i];
                        let b = branches@[i];
                        b.branch_name == o.branch_name && b.ahead_count == o.ahead
                            && b.behind_count == o.behind && b.is_diverged == (o.ahead > 0
                            && o.behind > 0) && b.is_up_to_date == (o.ahead == 0 && o.behind == 0)
                            && b.needs_pull == (o.behind > 0 && o.ahead == 0) && b.needs_push == (
                        o.ahead > 0 && o.behind == 0)
                    },
            decreases pending@.len(),
        {
            let ghost done = branches@.len() as int;
            let o = pending.remove(0);
            proof {
                assert(o == all[done]);
                assert(all.skip(done).remove(0) =~= all.skip(done + 1));
            }
            let b = self.branch_status(o);
            branches.push(b);
        }
        ProjectSyncStatus { current_branch, branches, last_fetch_at: None }
    }

    /// Decide a pull. The checks run in order: a clean working tree, the
    /// right current branch, nothing behind (a final no-op), no divergence;
    /// only then does a command run, picked by the strategy.
    pub fn pull_branch(
        &self,
        branch_name: &str,
        worktree_clean: bool,
        current_branch: &str,
        ahead: usize,
        behind: usize,
        strategy: PullStrategy,
    ) -> (r: Result<PullStep, GitRemoteError>)
        ensures
            ({
                let d = spec_pull_decision(
                    worktree_clean,
                    current_branch@ == branch_name@,
                    ahead as nat,
                    behind as nat,
                    strategy,
                );
                match d {
                    PullDecision::RejectDirty => r matches Err(GitRemoteError::DirtyWorktree),
                    PullDecision::RejectWrongBranch => r matches Err(
                        GitRemoteError::WrongBranch { requested, current },
                    ) && requested@ == branch_name@ && current@ == current_branch@,
                    PullDecision::NoOp => r matches Ok(PullStep::Completed(res)) && res.success
                        && res.commits_pulled == 0 && res.strategy_used == strategy && res.message@
                        == "Already up-to-date"@,
                    PullDecision::RejectDiverged => r matches Err(
                        GitRemoteError::BranchesDiverged { branch, ahead: a, behind: b },
                    ) && branch@ == branch_name@ && a == ahead && b == behind,
                    PullDecision::FastForward => r matches Ok(
                        PullStep::Run(PullCommand::FastForwardMerge),
                    ),
                    PullDecision::Rebase => r matches Ok(PullStep::Run(PullCommand::Rebase)),
                }
            }),
    {
        if !worktree_clean {
            return Err(GitRemoteError::DirtyWorktree);
        }
        let requested = chars_vec(branch_name);
        let current = chars_vec(current_branch);
        if !crate::text::eq_chars(&requested, &current) {
            return Err(
                GitRemoteError::WrongBranch {
                    requested: string_from_chars(&requested),
                    current: string_from_chars(&current),
                },
            );
        }
        if behind == 0 {
            return Ok(
                PullStep::Completed(
                    PullResult {
                        success: true,
                        strategy_used: strategy,
                        commits_pulled: 0,
                        message: String::from_str("Already up-to-date"),
                    },
                ),
            );
        }
        if ahead > 0 {
            return Err(
                GitRemoteError::BranchesDiverged {
                    branch: string_from_chars(&requested),
                    ahead,
                    behind,
                },
            );
        }
        match strategy {
            PullStrategy::Rebase => Ok(PullStep::Run(PullCommand::Rebase)),
            PullStrategy::Merge | PullStrategy::FastForward => Ok(
                PullStep::Run(PullCommand::FastForwardMerge),
            ),
        }
    }

    /// The result of a pull whose command has run: `behind` commits came in.
    pub fn pull_completed(&self, strategy: PullStrategy, behind: usize) -> (r: PullResult)
        ensures
            r.success,
            r.strategy_used == strategy,
            r.commits_pulled == behind,
            r.message@ == "Successfully pulled "@ + dec_digits(behind as nat) + " commits"@,
    {
        let mut text = chars_vec("Successfully pulled ");
        let mut digits = u64_to_chars(behind as u64);
        let mut rest = chars_vec(" commits");
        text.append(&mut digits);
        text.append(&mut rest);
        proof {
            assert((behind as u64) as nat == behind as nat);
            assert(text@ =~= "Successfully pulled "@ + dec_digits(behind as nat) + " commits"@);
        }
        PullResult {
            success: true,
            strategy_used: strategy,
            commits_pulled: behind,
            message: string_from_chars(&text),
        }
    }

    /// The message of the cross-branch refusal, as shown to a caller.
    pub fn wrong_branch_message(requested: &str, current: &str) -> (r: String)
        ensures
            r@ == "Cannot pull "@ + requested@ + ": currently on "@ + current@,
    {
        let mut text = chars_vec("Cannot pull ");
        let mut req = chars_vec(requested);
        let mut mid = chars_vec(": currently on ");
        let mut cur = chars_vec(current);
        text.append(&mut req);
        text.append(&mut mid);
        text.append(&mut cur);
        proof {
            assert(text@ =~= "Cannot pull "@ + requested@ + ": currently on "@ + current@);
        }
        string_from_chars(&text)
    }

    /// The message of the divergence error, as shown to a caller.
    pub fn diverged_message(branch: &str, ahead: usize, behind: usize) -> (r: String)
        ensures
            r@ == spec_diverged_text(branch@, ahead as nat, behind as nat),
    {
        let mut text = chars_vec("Branch '");
        let mut b = chars_vec(branch);
        let mut mid = chars_vec("' has diverged: ");
        let mut a_digits = u64_to_chars(ahead as u64);
        let mut mid2 = chars_vec(" ahead, ");
        let mut b_digits = u64_to_chars(behind as u64);
        let mut tail = chars_vec(" behind. Manual merge required.");
        text.append(&mut b);
        text.append(&mut mid);
        text.append(&mut a_digits);
        text.append(&mut mid2);
        text.append(&mut b_digits);
        text.append(&mut tail);
        proof {
            assert((ahead as u64) as nat == ahead as nat);
            assert((behind as u64) as nat == behind as nat);
            assert(text@ =~= spec_diverged_text(branch@, ahead as nat, behind as nat));
        }
        string_from_chars(&text)
    }

    /// The argv a pull command runs, after `git`.
    pub fn command_args(command: PullCommand) -> (r: Vec<String>)
        ensures
            command is FastForwardMerge ==> r@.len() == 3 && r@[0]@ == "merge"@ && r@[1]@
                == "--ff-only"@ && r@[2]@ == "HEAD@{u}"@,
            command is Rebase ==> r@.len() == 2 && r@[0]@ == "rebase"@ && r@[1]@ == "HEAD@{u}"@,
    {
        let mut r: Vec<String> = Vec::new();
        match command {
            PullCommand::FastForwardMerge => {
                r.push(String::from_str("merge"));
                r.push(String::from_str("--ff-only"));
                r.push(String::from_str("HEAD@{u}"));
            },
            PullCommand::Rebase => {
                r.push(String::from_str("rebase"));
                r.push(String::from_str("HEAD@{u}"));
            },
        }
        r
    }
}

impl Default for GitRemoteService {
    fn default() -> Self {
        Self::new()
    }
}

} // verus!
