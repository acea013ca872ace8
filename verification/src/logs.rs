//! Reconstruction of conversational views from process log payloads: the
//! `messages` array, each entry a role and a content, is the sole source for
//! the last-response and full-history views.

use vstd::prelude::*;

use crate::text::{chars_vec, eq_chars};

verus! {

/// One message of a process's structured log payload.
#[derive(Debug, Clone)]
pub struct LogMessage {
    pub role: String,
    pub content: String,
}

/// One turn of the reconstructed conversation.
#[derive(Debug, Clone)]
pub struct ConversationTurn {
    pub role: String,
    pub content: String,
    pub timestamp: Option<i64>,
}

/// The content of the most recent message whose role is `assistant`.
pub open spec fn spec_last_assistant(ms: Seq<LogMessage>) -> Option<Seq<char>>
    decreases ms.len(),
{
    if ms.len() == 0 {
        None
    } else if ms.last().role@ == "assistant"@ {
        Some(ms.last().content@)
    } else {
        spec_last_assistant(ms.drop_last())
    }
}

/// Extract the last assistant response from a process's messages.
pub fn extract_last_response(messages: &Vec<LogMessage>) -> (r: Option<String>)
    ensures
        match r {
            Some(s) => spec_last_assistant(messages@) == Some(s@),
            None => spec_last_assistant(messages@) is None,
        },
{
    let assistant = chars_vec("assistant");
    let mut k: usize = messages.len();
    proof {
        assert(messages@.take(messages@.len() as int) =~= messages@);
    }
    while k > 0
        invariant
            k <= messages@.len(),
            assistant@ == "assistant"@,
            spec_last_assistant(messages@) == spec_last_assistant(messages@.take(k as int)),
        decreases k,
    {
        proof {
            assert(messages@.take(k as int).last() == messages@[k - 1]);
            assert(messages@.take(k as int).drop_last() =~= messages@.take((k - 1) as int));
        }
        let role = chars_vec(messages[k - 1].role.as_str());
        if eq_chars(&role, &assistant) {
            return Some(messages[k - 1].content.clone());
        }
        k = k - 1;
    }
    proof {
        assert(messages@.take(0) =~= Seq::<LogMessage>::empty());
    }
    None
}

/// The status label an attempt view shows: pending before any process has
/// run, running once one has.
pub fn attempt_status_label(has_processes: bool) -> (r: String)
    ensures
        has_processes ==> r@ == "running"@,
        !has_processes ==> r@ == "pending"@,
{
    if has_processes {
        String::from_str("running")
    } else {
        String::from_str("pending")
    }
}

/// Turn a process's messages into conversation turns, in order, without
/// timestamps (the payload records none).
pub fn conversation_turns(messages: &Vec<LogMessage>) -> (r: Vec<ConversationTurn>)
    ensures
        r@.len() == messages@.len(),
        forall|i: int|
            0 <= i < messages@.len() ==> {
                let t = #[trigger] r@[i];
                t.role == messages@[i].role && t.content == messages@[i].content && t.timestamp
                    is None
            },
{
    let mut r: Vec<ConversationTurn> = Vec::new();
    let mut i: usize = 0;
    while i < messages.len()
        invariant
            i <= messages@.len(),
            r@.len() == i,
            forall|m: int|
                0 <= m < i ==> {
                    let t = #[trigger] r@[m];
                    t.role == messages@[m].role && t.content == messages@[m].content
                        && t.timestamp is None
                },
        decreases messages@.len() - i,
    {
        let m = &messages[i];
        r.push(ConversationTurn { role: m.role.clone(), content: m.content.clone(), timestamp: None });
        i = i + 1;
    }
    r
}

} // verus!
