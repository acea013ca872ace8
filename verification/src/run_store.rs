//! Detached execution runs: task-less execution lineages with the invariant
//! that a container reference, once set, is unique across all runs, so that
//! an inbound container callback resolves to exactly one run and project.

use vstd::prelude::*;

use crate::text::clone_opt_string;

verus! {

/// A detached executor invocation: like an attempt, minus the task linkage.
#[derive(Debug, Clone)]
pub struct ExecutionRun {
    pub id: u64,
    pub project_id: u64,
    pub branch: String,
    pub target_branch: String,
    pub executor: String,
    pub container_ref: Option<String>,
    pub prompt: String,
    pub worktree_deleted: bool,
}

/// Failure cases of the run store.
#[derive(Debug, Clone, Copy, PartialEq, Eq, Structural)]
pub enum RunError {
    /// No run has this id or container reference.
    NotFound,
    /// A run with this id already exists.
    DuplicateId,
    /// Another run already holds this container reference.
    ContainerRefInUse,
}

/// The stored runs, in creation order.
pub struct RunStore {
    pub runs: Vec<ExecutionRun>,
}

/// Run ids are unique, and set container references are unique as text.
pub open spec fn runs_wf(runs: Seq<ExecutionRun>) -> bool {
    &&& forall|i: int, j: int| 0 <= i < j < runs.len() ==> runs[i].id != runs[j].id
    &&& forall|i: int, j: int|
        0 <= i < j < runs.len() ==> match ((#[trigger] runs[i]).container_ref, (
        #[trigger] runs[j]).container_ref) {
            (Some(a), Some(b)) => a@ != b@,
            _ => true,
        }
}

/// Some run has this id.
pub open spec fn spec_has_run(runs: Seq<ExecutionRun>, id: u64) -> bool {
    exists|i: int| 0 <= i < runs.len() && (#[trigger] runs[i]).id == id
}

/// The first run with this id.
pub open spec fn spec_find_run(runs: Seq<ExecutionRun>, id: u64) -> Option<ExecutionRun>
    decreases runs.len(),
{
    if runs.len() == 0 {
        None
    } else if runs[0].id == id {
        Some(runs[0])
    } else {
        spec_find_run(runs.drop_first(), id)
    }
}

/// Some run holds this container reference.
pub open spec fn spec_container_ref_exists(runs: Seq<ExecutionRun>, cref: Seq<char>) -> bool {
    exists|i: int|
        0 <= i < runs.len() && match (#[trigger] runs[i]).container_ref {
            Some(c) => c@ == cref,
            None => false,
        }
}

/// Some run other than `run_id` holds this container reference.
pub open spec fn spec_other_run_holds_ref(
    runs: Seq<ExecutionRun>,
    run_id: u64,
    cref: Seq<char>,
) -> bool {
    exists|i: int|
        0 <= i < runs.len() && (#[trigger] runs[i]).id != run_id && match runs[i].container_ref {
            Some(c) => c@ == cref,
            None => false,
        }
}

/// The runs of a project (or all runs), newest first.
pub open spec fn spec_fetch_runs(runs: Seq<ExecutionRun>, project_id: Option<u64>) -> Seq<
    ExecutionRun,
>
    decreases runs.len(),
{
    if runs.len() == 0 {
        Seq::empty()
    } else {
        let rest = spec_fetch_runs(runs.drop_last(), project_id);
        let keep = match project_id {
            Some(p) => runs.last().project_id == p,
            None => true,
        };
        if keep {
            seq![runs.last()] + rest
        } else {
            rest
        }
    }
}

fn copy_run(r: &ExecutionRun) -> (c: ExecutionRun)
    ensures
        c == *r,
{
    ExecutionRun {
        id: r.id,
        project_id: r.project_id,
        branch: r.branch.clone(),
        target_branch: r.target_branch.clone(),
        executor: r.executor.clone(),
        container_ref: clone_opt_string(&r.container_ref),
        prompt: r.prompt.clone(),
        worktree_deleted: r.worktree_deleted,
    }
}

impl RunStore {
    /// An empty store.
    pub fn new() -> (r: Self)
        ensures
            r.runs@.len() == 0,
            runs_wf(r.runs@),
    {
        RunStore { runs: Vec::new() }
    }

    /// Some run has this id.
    pub fn has_run(&self, id: u64) -> (r: bool)
        ensures
            r == spec_has_run(self.runs@, id),
    {
        let mut i: usize = 0;
        while i < self.runs.len()
            invariant
                i <= self.runs@.len(),
                forall|m: int| 0 <= m < i ==> (#[trigger] self.runs@[m]).id != id,
            decreases self.runs@.len() - i,
        {
            if self.runs[i].id == id {
                proof {
                    assert((self.runs@[i as int]).id == id);
                }
                return true;
            }
            i = i + 1;
        }
        false
    }

    /// Create a run: appended with no container reference and its worktree
    /// intact, its target branch the requested base branch.
    pub fn create(
        &mut self,
        id: u64,
        project_id: u64,
        branch: String,
        base_branch: String,
        executor: String,
        prompt: String,
    ) -> (r: Result<(), RunError>)
        requires
            runs_wf(old(self).runs@),
        ensures
            runs_wf(final(self).runs@),
            r is Err ==> *final(self) == *old(self),
            r is Err <==> spec_has_run(old(self).runs@, id),
            r matches Err(e) ==> e is DuplicateId,
            r is Ok ==> final(self).runs@ == old(self).runs@.push(
                ExecutionRun {
                    id,
                    project_id,
                    branch,
                    target_branch: base_branch,
                    executor,
                    container_ref: None,
                    prompt,
                    worktree_deleted: false,
                },
            ),
    {
        if self.has_run(id) {
            return Err(RunError::DuplicateId);
        }
        let ghost pre = self.runs@;
        let run = ExecutionRun {
            id,
            project_id,
            branch,
            target_branch: base_branch,
            executor,
            container_ref: None,
            prompt,
            worktree_deleted: false,
        };
        self.runs.push(run);
        proof {
            assert forall|i: int, j: int|
                0 <= i < j < self.runs@.len() implies self.runs@[i].id != self.runs@[j].id by {
                if j == self.runs@.len() - 1 {
                    assert(self.runs@[i] == pre[i]);
                    assert((pre[i]).id != id);
                }
            }
            assert forall|i: int, j: int| 0 <= i < j < self.runs@.len() implies match ((
                #[trigger] self.runs@[i]).container_ref,
                (#[trigger] self.runs@[j]).container_ref,
            ) {
                (Some(a), Some(b)) => a@ != b@,
                _ => true,
            } by {
                if j < self.runs@.len() - 1 {
                    assert(self.runs@[i] == pre[i]);
                    assert(self.runs@[j] == pre[j]);
                }
            }
        }
        Ok(())
    }

    /// Find a run by id.
    pub fn find_by_id(&self, id: u64) -> (r: Option<ExecutionRun>)
        ensures
            r == spec_find_run(self.runs@, id),
    {
        let ghost all = self.runs@;
        proof {
            assert(all.skip(0) =~= all);
        }
        let mut i: usize = 0;
        while i < self.runs.len()
            invariant
                i <= self.runs@.len(),
                all == self.runs@,
                spec_find_run(all, id) == spec_find_run(all.skip(i as int), id),
            decreases self.runs@.len() - i,
        {
            proof {
                assert(all.skip(i as int)[0] == all[i as int]);
                assert(all.skip(i as int).drop_first() =~= all.skip((i + 1) as int));
            }
            if self.runs[i].id == id {
                return Some(copy_run(&self.runs[i]));
            }
            i = i + 1;
        }
        proof {
            assert(all.skip(self.runs@.len() as int) =~= Seq::<ExecutionRun>::empty());
        }
        None
    }

    /// Some run holds this container reference.
    pub fn container_ref_exists(&self, container_ref: &str) -> (r: bool)
        ensures
            r == spec_container_ref_exists(self.runs@, container_ref@),
    {
        let needle = crate::text::chars_vec(container_ref);
        let mut i: usize = 0;
        while i < self.runs.len()
            invariant
                i <= self.runs@.len(),
                needle@ == container_ref@,
                forall|m: int|
                    0 <= m < i ==> match (#[trigger] self.runs@[m]).container_ref {
                        Some(c) => c@ != container_ref@,
                        None => true,
                    },
            decreases self.runs@.len() - i,
        {
            match &self.runs[i].container_ref {
                Some(c) => {
                    let cv = crate::text::chars_vec(c.as_str());
                    if crate::text::eq_chars(&cv, &needle) {
                        proof {
                            assert(match self.runs@[i as int].container_ref {
                                Some(cc) => cc@ == container_ref@,
                                None => false,
                            });
                        }
                        return true;
                    }
                },
                None => {},
            }
            i = i + 1;
        }
        false
    }

    /// Resolve a container reference to its run and project. The uniqueness
    /// invariant makes the answer well defined.
    pub fn resolve_container_ref(&self, container_ref: &str) -> (r: Result<(u64, u64), RunError>)
        ensures
            r matches Ok((run_id, project_id)) ==> exists|i: int|
                0 <= i < self.runs@.len() && {
                    let run = #[trigger] self.runs@[i];
                    &&& run.id == run_id
                    &&& run.project_id == project_id
                    &&& match run.container_ref {
                        Some(c) => c@ == container_ref@,
                        None => false,
                    }
                },
            r is Err <==> !spec_container_ref_exists(self.runs@, container_ref@),
            r matches Err(e) ==> e is NotFound,
    {
        let needle = crate::text::chars_vec(container_ref);
        let mut i: usize = 0;
        while i < self.runs.len()
            invariant
                i <= self.runs@.len(),
                needle@ == container_ref@,
                forall|m: int|
                    0 <= m < i ==> match (#[trigger] self.runs@[m]).container_ref {
                        Some(c) => c@ != container_ref@,
                        None => true,
                    },
            decreases self.runs@.len() - i,
        {
            match &self.runs[i].container_ref {
                Some(c) => {
                    let cv = crate::text::chars_vec(c.as_str());
                    if crate::text::eq_chars(&cv, &needle) {
                        proof {
                            let run = self.runs@[i as int];
                            assert(run.id == self.runs@[i as int].id);
                        }
                        return Ok((self.runs[i].id, self.runs[i].project_id));
                    }
                },
                None => {},
            }
            i = i + 1;
        }
        Err(RunError::NotFound)
    }

    /// Set a run's container reference. Refused when no run has the id or
    /// when another run already holds the reference, which keeps set
    /// references unique.
    pub fn update_container_ref(&mut self, run_id: u64, container_ref: String) -> (r: Result<
        (),
        RunError,
    >)
        requires
            runs_wf(old(self).runs@),
        ensures
            runs_wf(final(self).runs@),
            r is Err ==> *final(self) == *old(self),
            (r matches Err(e) && e is NotFound) <==> !spec_has_run(old(self).runs@, run_id),
            (r matches Err(e) && e is ContainerRefInUse) <==> (spec_has_run(old(self).runs@, run_id)
                && spec_other_run_holds_ref(old(self).runs@, run_id, container_ref@)),
            r is Ok <==> (spec_has_run(old(self).runs@, run_id) && !spec_other_run_holds_ref(
                old(self).runs@,
                run_id,
                container_ref@,
            )),
            r is Ok ==> {
                &&& final(self).runs@.len() == old(self).runs@.len()
                &&& forall|i: int|
                    0 <= i < old(self).runs@.len() ==> {
                        let a = #[trigger] old(self).runs@[i];
                        let b = final(self).runs@[i];
                        if a.id == run_id {
                            b == ExecutionRun {
                                id: a.id,
                                project_id: a.project_id,
                                branch: a.branch,
                                target_branch: a.target_branch,
                                executor: a.executor,
                                container_ref: Some(container_ref),
                                prompt: a.prompt,
                                worktree_deleted: a.worktree_deleted,
                            }
                        } else {
                            b == a
                        }
                    }
            },
    {
        if !self.has_run(run_id) {
            return Err(RunError::NotFound);
        }
        // Refuse a reference that some other run already holds.
        let needle = crate::text::chars_vec(container_ref.as_str());
        let mut i: usize = 0;
        while i < self.runs.len()
            invariant
                i <= self.runs@.len(),
                needle@ == container_ref@,
                self.runs@ == old(self).runs@,
                runs_wf(self.runs@),
                spec_has_run(old(self).runs@, run_id),
                forall|m: int|
                    0 <= m < i ==> (self.runs@[m].id != run_id ==> match (
                        #[trigger] self.runs@[m]).container_ref {
                        Some(c) => c@ != container_ref@,
                        None => true,
                    }),
            decreases self.runs@.len() - i,
        {
            if self.runs[i].id != run_id {
                match &self.runs[i].container_ref {
                    Some(c) => {
                        let cv = crate::text::chars_vec(c.as_str());
                        if crate::text::eq_chars(&cv, &needle) {
                            proof {
                                let run = self.runs@[i as int];
                                assert(run.id != run_id && match run.container_ref {
                                    Some(cc) => cc@ == container_ref@,
                                    None => false,
                                });
                            }
                            return Err(RunError::ContainerRefInUse);
                        }
                    },
                    None => {},
                }
            }
            i = i + 1;
        }
        proof {
            if spec_other_run_holds_ref(self.runs@, run_id, container_ref@) {
                let w = choose|w: int|
                    0 <= w < self.runs@.len() && (#[trigger] self.runs@[w]).id != run_id && match self.runs@[w].container_ref {
                        Some(c) => c@ == container_ref@,
                        None => false,
                    };
            }
            assert(!spec_other_run_holds_ref(self.runs@, run_id, container_ref@));
        }
        let ghost pre = self.runs@;
        let mut updated: Vec<ExecutionRun> = Vec::new();
        let mut k: usize = 0;
        while k < self.runs.len()
            invariant
                k <= self.runs@.len(),
                pre == self.runs@,
                container_ref@ == needle@,
                updated@.len() == k,
                forall|m: int|
                    0 <= m < k ==> {
                        let a = #[trigger] pre[m];
                        let b = updated@[m];
                        if a.id == run_id {
                            b == ExecutionRun {
                                id: a.id,
                                project_id: a.project_id,
                                branch: a.branch,
                                target_branch: a.target_branch,
                                executor: a.executor,
                                container_ref: Some(container_ref),
                                prompt: a.prompt,
                                worktree_deleted: a.worktree_deleted,
                            }
                        } else {
                            b == a
                        }
                    },
            decreases self.runs@.len() - k,
        {
            let a = &self.runs[k];
            if a.id == run_id {
                updated.push(
                    ExecutionRun {
                        id: a.id,
                        project_id: a.project_id,
                        branch: a.branch.clone(),
                        target_branch: a.target_branch.clone(),
                        executor: a.executor.clone(),
                        container_ref: Some(container_ref.clone()),
                        prompt: a.prompt.clone(),
                        worktree_deleted: a.worktree_deleted,
                    },
                );
            } else {
                updated.push(copy_run(a));
            }
            k = k + 1;
        }
        self.runs = updated;
        proof {
            assert forall|i2: int, j2: int|
                0 <= i2 < j2 < self.runs@.len() implies self.runs@[i2].id != self.runs@[j2].id by {
                assert(self.runs@[i2].id == pre[i2].id);
                assert(self.runs@[j2].id == pre[j2].id);
            }
            assert forall|i2: int, j2: int| 0 <= i2 < j2 < self.runs@.len() implies match ((
                #[trigger] self.runs@[i2]).container_ref,
                (#[trigger] self.runs@[j2]).container_ref,
            ) {
                (Some(a), Some(b)) => a@ != b@,
                _ => true,
            } by {
                if pre[i2].id == run_id {
                    assert(self.runs@[j2] == pre[j2]);
                    assert(pre[j2].id != run_id);
                } else if pre[j2].id == run_id {
                    assert(self.runs@[i2] == pre[i2]);
                    assert(pre[i2].id != run_id);
                } else {
                    assert(self.runs@[i2] == pre[i2]);
                    assert(self.runs@[j2] == pre[j2]);
                }
            }
        }
        Ok(())
    }

    /// Record that a run's worktree is gone; the flag only ever moves from
    /// false to true.
    pub fn mark_worktree_deleted(&mut self, run_id: u64) -> (r: Result<(), RunError>)
        requires
            runs_wf(old(self).runs@),
        ensures
            runs_wf(final(self).runs@),
            r is Err ==> *final(self) == *old(self),
            r is Err <==> !spec_has_run(old(self).runs@, run_id),
            r is Ok ==> {
                &&& final(self).runs@.len() == old(self).runs@.len()
                &&& forall|i: int|
                    0 <= i < old(self).runs@.len() ==> {
                        let a = #[trigger] old(self).runs@[i];
                        let b = final(self).runs@[i];
                        if a.id == run_id {
                            b == ExecutionRun {
                                id: a.id,
                                project_id: a.project_id,
                                branch: a.branch,
                                target_branch: a.target_branch,
                                executor: a.executor,
                                container_ref: a.container_ref,
                                prompt: a.prompt,
                                worktree_deleted: true,
                            }
                        } else {
                            b == a
                        }
                    }
            },
    {
        if !self.has_run(run_id) {
            return Err(RunError::NotFound);
        }
        let ghost pre = self.runs@;
        let mut updated: Vec<ExecutionRun> = Vec::new();
        let mut k: usize = 0;
        while k < self.runs.len()
            invariant
                k <= self.runs@.len(),
                pre == self.runs@,
                updated@.len() == k,
                forall|m: int|
                    0 <= m < k ==> {
                        let a = #[trigger] pre[m];
                        let b = updated@[m];
                        if a.id == run_id {
                            b == ExecutionRun {
                                id: a.id,
                                project_id: a.project_id,
                                branch: a.branch,
                                target_branch: a.target_branch,
                                executor: a.executor,
                                container_ref: a.container_ref,
                                prompt: a.prompt,
                                worktree_deleted: true,
                            }
                        } else {
                            b == a
                        }
                    },
            decreases self.runs@.len() - k,
        {
            let a = &self.runs[k];
            let flag = if a.id == run_id {
                true
            } else {
                a.worktree_deleted
            };
            updated.push(
                ExecutionRun {
                    id: a.id,
                    project_id: a.project_id,
                    branch: a.branch.clone(),
                    target_branch: a.target_branch.clone(),
                    executor: a.executor.clone(),
                    container_ref: clone_opt_string(&a.container_ref),
                    prompt: a.prompt.clone(),
                    worktree_deleted: flag,
                },
            );
            k = k + 1;
        }
        self.runs = updated;
        proof {
            assert forall|i2: int, j2: int|
                0 <= i2 < j2 < self.runs@.len() implies self.runs@[i2].id != self.runs@[j2].id by {
                assert(self.runs@[i2].id == pre[i2].id);
                assert(self.runs@[j2].id == pre[j2].id);
            }
            assert forall|i2: int, j2: int| 0 <= i2 < j2 < self.runs@.len() implies match ((
                #[trigger] self.runs@[i2]).container_ref,
                (#[trigger] self.runs@[j2]).container_ref,
            ) {
                (Some(a), Some(b)) => a@ != b@,
                _ => true,
            } by {
                assert(self.runs@[i2].container_ref == pre[i2].container_ref);
                assert(self.runs@[j2].container_ref == pre[j2].container_ref);
            }
        }
        Ok(())
    }

    /// The runs of a project (or every run), newest first.
    pub fn fetch_all(&self, project_id: Option<u64>) -> (r: Vec<ExecutionRun>)
        ensures
            r@ == spec_fetch_runs(self.runs@, project_id),
    {
        let ghost all = self.runs@;
        let mut r: Vec<ExecutionRun> = Vec::new();
        proof {
            assert(all.take(all.len() as int) =~= all);
        }
        let mut k: usize = self.runs.len();
        while k > 0
            invariant
                k <= self.runs@.len(),
                all == self.runs@,
                r@ + spec_fetch_runs(all.take(k as int), project_id) == spec_fetch_runs(
                    all,
                    project_id,
                ),
            decreases k,
        {
            let ghost pre = r@;
            proof {
                assert(all.take(k as int).last() == all[k - 1]);
                assert(all.take(k as int).drop_last() =~= all.take((k - 1) as int));
            }
            let a = &self.runs[k - 1];
            let keep = match project_id {
                Some(p) => a.project_id == p,
                None => true,
            };
            if keep {
                let run = copy_run(a);
                r.push(run);
                proof {
                    assert(pre.push(all[k - 1]) =~= pre + seq![all[k - 1]]);
                    assert(pre + (seq![all[k - 1]] + spec_fetch_runs(
                        all.take((k - 1) as int),
                        project_id,
                    )) =~= (pre + seq![all[k - 1]]) + spec_fetch_runs(
                        all.take((k - 1) as int),
                        project_id,
                    ));
                }
            }
            k = k - 1;
        }
        proof {
            assert(all.take(0) =~= Seq::<ExecutionRun>::empty());
            assert(r@ + Seq::<ExecutionRun>::empty() =~= r@);
        }
        r
    }
}

} // verus!
