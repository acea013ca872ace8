//! Follow-up and session continuation: resolving the latest session and
//! executor profile of a subject and choosing between a fresh invocation and
//! a continuation of an existing conversation.

use vstd::prelude::*;

use crate::lifecycle::{is_terminal, ExecutionProcessStatus, RunReason};

verus! {

/// An executor together with an optional profile variant.
#[derive(Debug, Clone)]
pub struct ExecutorProfileId {
    pub executor: String,
    pub variant: Option<String>,
}

/// One recorded executor invocation of a subject, in creation order.
#[derive(Debug, Clone)]
pub struct ProcessRecord {
    pub id: u64,
    pub run_reason: RunReason,
    pub status: ExecutionProcessStatus,
    pub session_id: Option<String>,
    pub executor: String,
    pub variant: Option<String>,
}

/// The action a follow-up starts: a fresh conversation, or the continuation
/// of a recorded session.
#[derive(Debug)]
pub enum ExecutorActionType {
    CodingAgentInitial { prompt: String, executor_profile_id: ExecutorProfileId },
    CodingAgentFollowUp {
        prompt: String,
        session_id: String,
        executor_profile_id: ExecutorProfileId,
    },
}

/// A follow-up request: the new prompt, with an optional variant override.
#[derive(Debug, Clone)]
pub struct FollowUpRequest {
    pub prompt: String,
    pub variant: Option<String>,
}

/// `a` when present, else `b`.
pub open spec fn spec_or<T>(a: Option<T>, b: Option<T>) -> Option<T> {
    match a {
        Some(v) => Some(v),
        None => b,
    }
}

/// Choose the follow-up action. A recorded session is continued under its
/// id; without one a fresh conversation starts. The executor comes from the
/// most recent process (so variant switches on earlier turns are honored),
/// and an explicit override wins over the recorded variant.
pub fn resolve_continuation(
    latest_session_id: Option<String>,
    latest_profile: ExecutorProfileId,
    variant_override: Option<String>,
    prompt: String,
) -> (r: ExecutorActionType)
    ensures
        latest_session_id matches Some(sid) ==> r == (ExecutorActionType::CodingAgentFollowUp {
            prompt: prompt,
            session_id: sid,
            executor_profile_id: ExecutorProfileId {
                executor: latest_profile.executor,
                variant: spec_or(variant_override, latest_profile.variant),
            },
        }),
        latest_session_id is None ==> r == (ExecutorActionType::CodingAgentInitial {
            prompt: prompt,
            executor_profile_id: ExecutorProfileId {
                executor: latest_profile.executor,
                variant: spec_or(variant_override, latest_profile.variant),
            },
        }),
{
    let variant = match variant_override {
        Some(v) => Some(v),
        None => latest_profile.variant,
    };
    let executor_profile_id = ExecutorProfileId { executor: latest_profile.executor, variant };
    match latest_session_id {
        Some(session_id) => ExecutorActionType::CodingAgentFollowUp {
            prompt,
            session_id,
            executor_profile_id,
        },
        None => ExecutorActionType::CodingAgentInitial { prompt, executor_profile_id },
    }
}

/// The session id of the most recent process that recorded one.
pub open spec fn spec_latest_session(ps: Seq<ProcessRecord>) -> Option<String>
    decreases ps.len(),
{
    if ps.len() == 0 {
        None
    } else if ps.last().session_id is Some {
        ps.last().session_id
    } else {
        spec_latest_session(ps.drop_last())
    }
}

/// Find the most recent recorded session id of a subject.
pub fn find_latest_session_id(processes: &Vec<ProcessRecord>) -> (r: Option<String>)
    ensures
        r == spec_latest_session(processes@),
{
    let mut k: usize = processes.len();
    proof {
        assert(processes@.take(processes@.len() as int) =~= processes@);
    }
    while k > 0
        invariant
            k <= processes@.len(),
            spec_latest_session(processes@) == spec_latest_session(processes@.take(k as int)),
        decreases k,
    {
        proof {
            assert(processes@.take(k as int).last() == processes@[k - 1]);
            assert(processes@.take(k as int).drop_last() =~= processes@.take((k - 1) as int));
        }
        match &processes[k - 1].session_id {
            Some(sid) => {
                return Some(sid.clone());
            },
            None => {},
        }
        k = k - 1;
    }
    proof {
        assert(processes@.take(0) =~= Seq::<ProcessRecord>::empty());
    }
    None
}

/// The executor profile of the most recent process, re-read from the record
/// rather than assumed from the subject's original profile.
pub open spec fn spec_latest_profile(ps: Seq<ProcessRecord>) -> Option<ExecutorProfileId> {
    if ps.len() == 0 {
        None
    } else {
        Some(
            ExecutorProfileId { executor: ps.last().executor, variant: ps.last().variant },
        )
    }
}

pub fn latest_executor_profile(processes: &Vec<ProcessRecord>) -> (r: Option<ExecutorProfileId>)
    ensures
        r == spec_latest_profile(processes@),
{
    if processes.len() == 0 {
        return None;
    }
    let last = &processes[processes.len() - 1];
    let variant = match &last.variant {
        Some(v) => Some(v.clone()),
        None => None,
    };
    Some(ExecutorProfileId { executor: last.executor.clone(), variant })
}

/// The id of the most recent coding-agent process that is not yet terminal:
/// the one a stop request addresses.
pub open spec fn spec_latest_active_agent(ps: Seq<ProcessRecord>) -> Option<u64>
    decreases ps.len(),
{
    if ps.len() == 0 {
        None
    } else if ps.last().run_reason is CodingAgent && !is_terminal(ps.last().status) {
        Some(ps.last().id)
    } else {
        spec_latest_active_agent(ps.drop_last())
    }
}

/// Locate the process a stop request should address; stopping is idempotent
/// when none is active.
pub fn find_latest_active_agent(processes: &Vec<ProcessRecord>) -> (r: Option<u64>)
    ensures
        r == spec_latest_active_agent(processes@),
{
    let mut k: usize = processes.len();
    proof {
        assert(processes@.take(processes@.len() as int) =~= processes@);
    }
    while k > 0
        invariant
            k <= processes@.len(),
            spec_latest_active_agent(processes@) == spec_latest_active_agent(
                processes@.take(k as int),
            ),
        decreases k,
    {
        proof {
            assert(processes@.take(k as int).last() == processes@[k - 1]);
            assert(processes@.take(k as int).drop_last() =~= processes@.take((k - 1) as int));
        }
        let p = &processes[k - 1];
        let terminal = match p.status {
            ExecutionProcessStatus::Completed
            | ExecutionProcessStatus::Failed
            | ExecutionProcessStatus::Killed => true,
            _ => false,
        };
        let is_agent = match p.run_reason {
            RunReason::CodingAgent => true,
            _ => false,
        };
        if is_agent && !terminal {
            return Some(p.id);
        }
        k = k - 1;
    }
    proof {
        assert(processes@.take(0) =~= Seq::<ProcessRecord>::empty());
    }
    None
}

} // verus!
