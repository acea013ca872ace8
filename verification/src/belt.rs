//! Shared pieces of the tool-server surface: its error shape, URL joining,
//! protocol version negotiation, case-insensitive name resolution, and task
//! list filtering.

use vstd::prelude::*;

use crate::lifecycle::TaskStatus;
use crate::text::{
    chars_vec, string_from_chars, trim_end_matches_spec, trim_end_matches_chars,
    trim_start_matches_spec, trim_start_matches_chars,
};

verus! {

/// Request of the configuration-and-discovery tool.
#[derive(Debug, Clone)]
pub struct ForgeRequest {
    pub action: Option<String>,
    pub key: Option<String>,
    pub value: Option<String>,
}

/// Request of the project tool.
#[derive(Debug, Clone)]
pub struct ProjectRequest {
    pub name: String,
    pub action: Option<String>,
    pub path: Option<String>,
}

/// Request of the task-listing tool.
#[derive(Debug, Clone)]
pub struct TasksRequest {
    pub project: Option<String>,
    pub status: Option<String>,
    pub limit: Option<u32>,
}

/// Request of the task tool, whose start action creates and starts in one
/// call.
#[derive(Debug, Clone)]
pub struct TaskRequest {
    pub title: String,
    pub action: Option<String>,
    pub project: Option<String>,
    pub executor: Option<String>,
    pub branch: Option<String>,
    pub description: Option<String>,
    pub status: Option<String>,
}

/// Request of the attempt-listing tool.
#[derive(Debug, Clone)]
pub struct AttemptsRequest {
    pub task: String,
    pub all: Option<bool>,
}

/// Request of the attempt tool.
#[derive(Debug, Clone)]
pub struct AttemptRequest {
    pub id: String,
    pub history: Option<bool>,
}

/// Request of the continue tool.
#[derive(Debug, Clone)]
pub struct ContinueRequest {
    pub attempt: String,
    pub message: String,
    pub variant: Option<String>,
}

/// Request of the stop tool.
#[derive(Debug, Clone)]
pub struct StopRequest {
    pub attempt: String,
}

/// Request of the branch tool.
#[derive(Debug, Clone)]
pub struct BranchRequest {
    pub attempt: String,
    pub action: Option<String>,
    pub target: Option<String>,
}

/// Request of the merge tool.
#[derive(Debug, Clone)]
pub struct MergeRequest {
    pub attempt: String,
}

/// Request of the push tool.
#[derive(Debug, Clone)]
pub struct PushRequest {
    pub attempt: String,
}

/// Request of the pull-request tool.
#[derive(Debug, Clone)]
pub struct PrRequest {
    pub attempt: String,
    pub action: Option<String>,
    pub title: Option<String>,
    pub body: Option<String>,
    pub pr_number: Option<i64>,
}

/// One executor as the discovery tool reports it.
#[derive(Debug, Clone)]
pub struct ExecutorInfo {
    pub name: String,
    pub description: String,
    pub variants: Vec<String>,
}

/// The configured servers of one executor.
#[derive(Debug, Clone)]
pub struct McpServerInfo {
    pub executor: String,
    pub servers: Vec<String>,
}

/// The filters a task listing was produced under.
#[derive(Debug, Clone)]
pub struct TaskFilters {
    pub status: Option<String>,
    pub limit: u32,
}

/// A structured, actionable error of the tool surface.
#[derive(Debug, Clone)]
pub struct BeltError {
    pub success: bool,
    pub error: String,
    pub details: Option<String>,
    pub suggestions: Vec<String>,
}

impl BeltError {
    /// A bare error: not a success, no details, no suggestions.
    pub fn new(error: &str) -> (r: Self)
        ensures
            !r.success,
            r.error@ == error@,
            r.details is None,
            r.suggestions@.len() == 0,
    {
        BeltError { success: false, error: error.to_owned(), details: None, suggestions: Vec::new() }
    }

    /// The same error with details attached.
    pub fn with_details(self, details: &str) -> (r: Self)
        ensures
            r.success == self.success,
            r.error == self.error,
            r.details matches Some(d) && d@ == details@,
            r.suggestions == self.suggestions,
    {
        BeltError {
            success: self.success,
            error: self.error,
            details: Some(details.to_owned()),
            suggestions: self.suggestions,
        }
    }

    /// The same error with its suggestions replaced.
    pub fn with_suggestions(self, suggestions: Vec<String>) -> (r: Self)
        ensures
            r.success == self.success,
            r.error == self.error,
            r.details == self.details,
            r.suggestions == suggestions,
    {
        BeltError {
            success: self.success,
            error: self.error,
            details: self.details,
            suggestions,
        }
    }
}

/// A base URL and a path joined by exactly one slash.
pub open spec fn spec_join_url(base: Seq<char>, path: Seq<char>) -> Seq<char> {
    trim_end_matches_spec(base, "/"@) + "/"@ + trim_start_matches_spec(path, "/"@)
}

/// Join a base URL and a path, tolerating slashes on either side.
pub fn join_url(base: &str, path: &str) -> (r: String)
    ensures
        r@ == spec_join_url(base@, path@),
{
    let b = chars_vec(base);
    let p = chars_vec(path);
    let slash = chars_vec("/");
    let mut out = trim_end_matches_chars(&b, &slash);
    let mut sep = chars_vec("/");
    let mut tail = trim_start_matches_chars(&p, &slash);
    out.append(&mut sep);
    out.append(&mut tail);
    proof {
        assert(out@ =~= spec_join_url(base@, path@));
    }
    string_from_chars(&out)
}

/// Negotiate the protocol version: the newest supported version that is not
/// newer than the requested one. Versions are ordinals that grow over time;
/// the supported list is newest first.
pub fn negotiate_protocol_version(requested: u64, supported: &Vec<u64>) -> (r: Option<u64>)
    requires
        forall|i: int, j: int| 0 <= i < j < supported@.len() ==> supported@[i] >= supported@[j],
    ensures
        r matches Some(v) ==> supported@.contains(v) && v <= requested && (forall|m: int|
            0 <= m < supported@.len() && supported@[m] <= requested ==> supported@[m] <= v),
        r is None ==> forall|m: int| 0 <= m < supported@.len() ==> supported@[m] > requested,
{
    let mut k: usize = 0;
    while k < supported.len()
        invariant
            k <= supported@.len(),
            forall|m: int| 0 <= m < k ==> supported@[m] > requested,
            forall|i: int, j: int| 0 <= i < j < supported@.len() ==> supported@[i] >= supported@[j],
        decreases supported@.len() - k,
    {
        let v = supported[k];
        if v <= requested {
            proof {
                assert(supported@[k as int] == v);
            }
            return Some(v);
        }
        k = k + 1;
    }
    None
}

/// How one character of an executor name is normalized: hyphens become
/// underscores and ASCII lower-case letters become upper case.
pub open spec fn normalize_executor_char(c: char) -> char {
    if c == '-' {
        '_'
    } else if 97 <= (c as u32) <= 122 {
        (((c as u32) - 32) as u8) as char
    } else {
        c
    }
}

/// Normalize a user-supplied executor name before lookup, so that
/// `cursor-agent` and `CURSOR_AGENT` mean the same executor.
pub fn normalize_executor_name(name: &str) -> (r: String)
    ensures
        r@ == name@.map_values(|c: char| normalize_executor_char(c)),
{
    let v = chars_vec(name);
    let mut out: Vec<char> = Vec::new();
    let mut i: usize = 0;
    while i < v.len()
        invariant
            i <= v@.len(),
            v@ == name@,
            out@ == name@.take(i as int).map_values(|c: char| normalize_executor_char(c)),
        decreases v@.len() - i,
    {
        let c = v[i];
        let u = c as u32;
        let mapped: char = if c == '-' {
            '_'
        } else if 97 <= u && u <= 122 {
            ((u - 32) as u8) as char
        } else {
            c
        };
        out.push(mapped);
        proof {
            assert(name@.take((i + 1) as int) =~= name@.take(i as int).push(name@[i as int]));
            assert(name@.take((i + 1) as int).map_values(|c: char| normalize_executor_char(c))
                =~= name@.take(i as int).map_values(|c: char| normalize_executor_char(c)).push(
                normalize_executor_char(name@[i as int]),
            ));
        }
        i = i + 1;
    }
    proof {
        assert(name@.take(name@.len() as int) =~= name@);
    }
    string_from_chars(&out)
}

/// The executors the discovery tool reports, each with its default variant.
pub fn executor_catalog() -> (r: Vec<ExecutorInfo>)
    ensures
        r@.len() == 5,
        r@[0].name@ == "CLAUDE_CODE"@,
        r@[1].name@ == "CODEX"@,
        r@[2].name@ == "GEMINI"@,
        r@[3].name@ == "CURSOR_AGENT"@,
        r@[4].name@ == "OPENCODE"@,
        forall|i: int|
            0 <= i < 5 ==> (#[trigger] r@[i]).variants@.len() == 1 && r@[i].variants@[0]@
                == "DEFAULT"@,
{
    let mut r: Vec<ExecutorInfo> = Vec::new();
    let mut names: Vec<&str> = Vec::new();
    names.push("CLAUDE_CODE");
    names.push("CODEX");
    names.push("GEMINI");
    names.push("CURSOR_AGENT");
    names.push("OPENCODE");
    let mut descriptions: Vec<&str> = Vec::new();
    descriptions.push("Anthropic's coding agent");
    descriptions.push("OpenAI Codex");
    descriptions.push("Google Gemini");
    descriptions.push("Cursor IDE Agent");
    descriptions.push("OpenCode Agent");
    let mut i: usize = 0;
    while i < 5
        invariant
            i <= 5,
            names@.len() == 5,
            descriptions@.len() == 5,
            names@[0]@ == "CLAUDE_CODE"@,
            names@[1]@ == "CODEX"@,
            names@[2]@ == "GEMINI"@,
            names@[3]@ == "CURSOR_AGENT"@,
            names@[4]@ == "OPENCODE"@,
            r@.len() == i,
            forall|m: int| 0 <= m < i ==> (#[trigger] r@[m]).name@ == names@[m]@,
            forall|m: int|
                0 <= m < i ==> (#[trigger] r@[m]).variants@.len() == 1 && r@[m].variants@[0]@
                    == "DEFAULT"@,
        decreases 5 - i,
    {
        let mut variants: Vec<String> = Vec::new();
        variants.push(String::from_str("DEFAULT"));
        r.push(
            ExecutorInfo {
                name: names[i].to_owned(),
                description: descriptions[i].to_owned(),
                variants,
            },
        );
        i = i + 1;
    }
    r
}

/// Lower-case folding of an ASCII letter's code point.
pub open spec fn lower_ascii(u: u32) -> u32 {
    if 65 <= u <= 90 {
        (u + 32) as u32
    } else {
        u
    }
}

/// Equality up to ASCII case.
pub open spec fn spec_eq_ignore_ascii_case(a: Seq<char>, b: Seq<char>) -> bool {
    a.len() == b.len() && forall|i: int|
        0 <= i < a.len() ==> lower_ascii(#[trigger] (a[i] as u32)) == lower_ascii(b[i] as u32)
}

fn eq_ignore_ascii_case_chars(a: &Vec<char>, b: &Vec<char>) -> (r: bool)
    ensures
        r == spec_eq_ignore_ascii_case(a@, b@),
{
    if a.len() != b.len() {
        return false;
    }
    let mut k: usize = 0;
    while k < a.len()
        invariant
            k <= a@.len() == b@.len(),
            forall|m: int|
                0 <= m < k ==> lower_ascii(#[trigger] (a@[m] as u32)) == lower_ascii(b@[m] as u32),
        decreases a@.len() - k,
    {
        let ua = a[k] as u32;
        let ub = b[k] as u32;
        let la = if 65 <= ua && ua <= 90 {
            ua + 32
        } else {
            ua
        };
        let lb = if 65 <= ub && ub <= 90 {
            ub + 32
        } else {
            ub
        };
        if la != lb {
            return false;
        }
        k = k + 1;
    }
    true
}

/// A named record a lookup can resolve.
#[derive(Debug, Clone)]
pub struct NamedRecord {
    pub id: u64,
    pub name: String,
}

/// The id of the first record whose name matches up to ASCII case.
pub open spec fn spec_resolve_by_name(entries: Seq<NamedRecord>, name: Seq<char>) -> Option<u64>
    decreases entries.len(),
{
    if entries.len() == 0 {
        None
    } else if spec_eq_ignore_ascii_case(entries[0].name@, name) {
        Some(entries[0].id)
    } else {
        spec_resolve_by_name(entries.drop_first(), name)
    }
}

/// Resolve a project or task name case-insensitively.
pub fn resolve_by_name(entries: &Vec<NamedRecord>, name: &str) -> (r: Option<u64>)
    ensures
        r == spec_resolve_by_name(entries@, name@),
{
    let n = chars_vec(name);
    let ghost all = entries@;
    proof {
        assert(all.skip(0) =~= all);
    }
    let mut i: usize = 0;
    while i < entries.len()
        invariant
            i <= entries@.len(),
            all == entries@,
            n@ == name@,
            spec_resolve_by_name(all, name@) == spec_resolve_by_name(
                all.skip(i as int),
                name@,
            ),
        decreases entries@.len() - i,
    {
        proof {
            assert(all.skip(i as int)[0] == all[i as int]);
            assert(all.skip(i as int).drop_first() =~= all.skip((i + 1) as int));
        }
        let candidate = chars_vec(entries[i].name.as_str());
        if eq_ignore_ascii_case_chars(&candidate, &n) {
            return Some(entries[i].id);
        }
        i = i + 1;
    }
    proof {
        assert(all.skip(entries@.len() as int) =~= Seq::<NamedRecord>::empty());
    }
    None
}

/// One row of a task listing, as the tool surface summarizes it.
#[derive(Debug, Clone, Copy, PartialEq, Eq, Structural)]
pub struct TaskRow {
    pub id: u64,
    pub status: TaskStatus,
    pub has_active_attempt: bool,
}

/// The first `limit` rows that pass the optional status filter, in order.
pub open spec fn spec_filter_task_rows(
    rows: Seq<TaskRow>,
    status: Option<TaskStatus>,
    limit: nat,
) -> Seq<TaskRow>
    decreases rows.len(),
{
    if rows.len() == 0 || limit == 0 {
        Seq::empty()
    } else {
        let keep = match status {
            Some(s) => rows[0].status == s,
            None => true,
        };
        if keep {
            seq![rows[0]] + spec_filter_task_rows(rows.drop_first(), status, (limit - 1) as nat)
        } else {
            spec_filter_task_rows(rows.drop_first(), status, limit)
        }
    }
}

/// Filter a task listing by status and cap it at `limit` rows.
pub fn filter_task_rows(rows: &Vec<TaskRow>, status: Option<TaskStatus>, limit: usize) -> (r: Vec<
    TaskRow,
>)
    ensures
        r@ == spec_filter_task_rows(rows@, status, limit as nat),
{
    let ghost all = rows@;
    let mut r: Vec<TaskRow> = Vec::new();
    proof {
        assert(all.skip(0) =~= all);
        assert(Seq::<TaskRow>::empty() + spec_filter_task_rows(all, status, limit as nat)
            =~= spec_filter_task_rows(all, status, limit as nat));
    }
    let mut i: usize = 0;
    let mut taken: usize = 0;
    while i < rows.len() && taken < limit
        invariant
            i <= rows@.len(),
            taken <= limit,
            all == rows@,
            r@.len() == taken,
            r@ + spec_filter_task_rows(all.skip(i as int), status, (limit - taken) as nat)
                == spec_filter_task_rows(all, status, limit as nat),
        decreases rows@.len() - i,
    {
        let ghost pre = r@;
        proof {
            assert(all.skip(i as int)[0] == all[i as int]);
            assert(all.skip(i as int).drop_first() =~= all.skip((i + 1) as int));
        }
        let row = rows[i];
        let keep = match status {
            Some(s) => row.status == s,
            None => true,
        };
        if keep {
            r.push(row);
            taken = taken + 1;
            proof {
                assert(pre.push(all[i as int]) =~= pre + seq![all[i as int]]);
                assert(pre + (seq![all[i as int]] + spec_filter_task_rows(
                    all.skip((i + 1) as int),
                    status,
                    (limit - taken) as nat,
                )) =~= (pre + seq![all[i as int]]) + spec_filter_task_rows(
                    all.skip((i + 1) as int),
                    status,
                    (limit - taken) as nat,
                ));
            }
        }
        i = i + 1;
    }
    proof {
        if i == rows@.len() {
            assert(all.skip(rows@.len() as int) =~= Seq::<TaskRow>::empty());
        }
        assert(r@ + Seq::<TaskRow>::empty() =~= r@);
    }
    r
}

} // verus!
