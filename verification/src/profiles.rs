//! Profile discovery rules: which files and directories a scan considers,
//! how a variant name is derived, and how the frontmatter's executor
//! configuration shape is classified before it is normalized.

use vstd::prelude::*;

use crate::belt::spec_eq_ignore_ascii_case;
use crate::text::{
    chars_vec, eq_chars, find_first_match, has_prefix, spec_find_sub, starts_with_chars,
    string_from_chars, strip_cr, subrange_chars, trim_chars, trim_spec,
};

verus! {

/// What `convert_case` turns a string into under upper snake case. The
/// result depends on the input characters alone.
pub uninterp spec fn upper_snake_of(s: Seq<char>) -> Seq<char>;

/// Relies on `convert_case::Casing::to_case` with `Case::UpperSnake`: a pure
/// re-casing of the input, a function of its characters alone.
#[verifier::external_body]
fn to_upper_snake(s: &str) -> (r: String)
    ensures
        r@ == upper_snake_of(s@),
{
    convert_case::Casing::to_case(&s, convert_case::Case::UpperSnake)
}

/// Whether a character is upper case in Unicode, as `char::is_uppercase`
/// answers it.
pub uninterp spec fn is_uppercase_char(c: char) -> bool;

/// Relies on `char::is_uppercase`: the Unicode uppercase property of the
/// character, a function of the character alone.
#[verifier::external_body]
fn char_is_uppercase(c: char) -> (r: bool)
    ensures
        r == is_uppercase_char(c),
{
    c.is_uppercase()
}

/// Kind of a discovered profile file.
#[derive(Debug, Clone, Copy, PartialEq, Eq, Structural)]
pub enum AgentType {
    Agent,
    Neuron,
}

/// The namespaced key of a discovered file: collective agents under their
/// collective, neurons under `neurons/`, global agents under `agents/`.
pub open spec fn spec_namespaced_key(
    collective: Option<Seq<char>>,
    kind: AgentType,
    name: Seq<char>,
) -> Seq<char> {
    match (collective, kind) {
        (Some(c), AgentType::Agent) => c + "/"@ + name,
        (None, AgentType::Neuron) => "neurons/"@ + name,
        (None, AgentType::Agent) => "agents/"@ + name,
        (Some(c), AgentType::Neuron) => "neurons/"@ + name,
    }
}

pub fn namespaced_key(collective: Option<&str>, kind: AgentType, name: &str) -> (r: String)
    ensures
        r@ == spec_namespaced_key(
            match collective {
                Some(c) => Some(c@),
                None => None,
            },
            kind,
            name@,
        ),
{
    let mut out: Vec<char> = match (collective, kind) {
        (Some(c), AgentType::Agent) => {
            let mut o = chars_vec(c);
            let mut sep = chars_vec("/");
            o.append(&mut sep);
            o
        },
        (_, AgentType::Neuron) => chars_vec("neurons/"),
        (None, AgentType::Agent) => chars_vec("agents/"),
    };
    let mut n = chars_vec(name);
    out.append(&mut n);
    proof {
        assert(out@ =~= spec_namespaced_key(
            match collective {
                Some(c) => Some(c@),
                None => None,
            },
            kind,
            name@,
        ));
    }
    string_from_chars(&out)
}

/// The variant name a discovered file yields: the workspace directory name
/// in upper snake case, then the agent's name, with a collective prefix for
/// collective agents.
pub open spec fn spec_variant_name(
    workspace_dir_name: Seq<char>,
    agent_name: Seq<char>,
    collective: Option<Seq<char>>,
    kind: AgentType,
) -> Seq<char> {
    let base = if kind is Neuron {
        upper_snake_of(agent_name)
    } else {
        match collective {
            Some(c) => upper_snake_of(c) + "_"@ + upper_snake_of(agent_name),
            None => upper_snake_of(agent_name),
        }
    };
    upper_snake_of(workspace_dir_name) + "_"@ + base
}

/// Derive the variant name of a discovered profile, prefixed with the
/// project to keep names unique across workspaces.
pub fn derive_variant_name(
    workspace_dir_name: &str,
    agent_name: &str,
    collective: Option<&str>,
    kind: AgentType,
) -> (r: String)
    ensures
        r@ == spec_variant_name(
            workspace_dir_name@,
            agent_name@,
            match collective {
                Some(c) => Some(c@),
                None => None,
            },
            kind,
        ),
{
    let prefix = to_upper_snake(workspace_dir_name);
    let mut out = chars_vec(prefix.as_str());
    let mut underscore = chars_vec("_");
    out.append(&mut underscore);
    let is_neuron = match kind {
        AgentType::Neuron => true,
        AgentType::Agent => false,
    };
    if is_neuron {
        let base = to_upper_snake(agent_name);
        let mut b = chars_vec(base.as_str());
        out.append(&mut b);
    } else {
        match collective {
            Some(c) => {
                let cp = to_upper_snake(c);
                let mut cpv = chars_vec(cp.as_str());
                let mut sep = chars_vec("_");
                let an = to_upper_snake(agent_name);
                let mut anv = chars_vec(an.as_str());
                out.append(&mut cpv);
                out.append(&mut sep);
                out.append(&mut anv);
            },
            None => {
                let base = to_upper_snake(agent_name);
                let mut b = chars_vec(base.as_str());
                out.append(&mut b);
            },
        }
    }
    proof {
        assert(out@ =~= spec_variant_name(
            workspace_dir_name@,
            agent_name@,
            match collective {
                Some(c) => Some(c@),
                None => None,
            },
            kind,
        ));
    }
    string_from_chars(&out)
}

/// Directories a profile scan never descends into.
pub open spec fn excluded_scan_dirs() -> Seq<Seq<char>> {
    seq![
        "spells"@,
        "workflows"@,
        "specs"@,
        "reports"@,
        "state"@,
        "product"@,
        "qa"@,
        "wishes"@,
        "scripts"@,
        "utilities"@,
        ".cache"@,
        "node_modules"@,
        ".git"@,
        "backups"@,
    ]
}

/// Directories that collective discovery never treats as collectives; a
/// slightly different list than the file scan's: work and team folders are
/// ignored here, while backup folders only matter to the file scan.
pub open spec fn excluded_collective_dirs() -> Seq<Seq<char>> {
    seq![
        "spells"@,
        "workflows"@,
        "reports"@,
        "state"@,
        "product"@,
        "qa"@,
        "wishes"@,
        "scripts"@,
        "utilities"@,
        "teams"@,
        "specs"@,
        ".cache"@,
        "node_modules"@,
        ".git"@,
    ]
}

/// Is this directory ignored by collective discovery?
pub fn is_excluded_collective_dir(name: &str) -> (r: bool)
    ensures
        r == exists|k: int|
            0 <= k < excluded_collective_dirs().len() && name@ == #[trigger] excluded_collective_dirs()[k],
{
    let mut dirs: Vec<Vec<char>> = Vec::new();
    dirs.push(chars_vec("spells"));
    dirs.push(chars_vec("workflows"));
    dirs.push(chars_vec("reports"));
    dirs.push(chars_vec("state"));
    dirs.push(chars_vec("product"));
    dirs.push(chars_vec("qa"));
    dirs.push(chars_vec("wishes"));
    dirs.push(chars_vec("scripts"));
    dirs.push(chars_vec("utilities"));
    dirs.push(chars_vec("teams"));
    dirs.push(chars_vec("specs"));
    dirs.push(chars_vec(".cache"));
    dirs.push(chars_vec("node_modules"));
    dirs.push(chars_vec(".git"));
    proof {
        assert(dirs.deep_view() =~~= excluded_collective_dirs());
    }
    let n = chars_vec(name);
    let mut k: usize = 0;
    while k < dirs.len()
        invariant
            k <= dirs@.len(),
            n@ == name@,
            dirs.deep_view() == excluded_collective_dirs(),
            forall|m: int| 0 <= m < k ==> name@ != #[trigger] excluded_collective_dirs()[m],
        decreases dirs@.len() - k,
    {
        proof {
            assert(dirs.deep_view()[k as int] =~= dirs@[k as int]@);
        }
        if eq_chars(&n, &dirs[k]) {
            return true;
        }
        k = k + 1;
    }
    false
}

/// Is this directory excluded from the profile scan?
pub fn is_excluded_scan_dir(name: &str) -> (r: bool)
    ensures
        r == exists|k: int|
            0 <= k < excluded_scan_dirs().len() && name@ == #[trigger] excluded_scan_dirs()[k],
{
    let mut dirs: Vec<Vec<char>> = Vec::new();
    dirs.push(chars_vec("spells"));
    dirs.push(chars_vec("workflows"));
    dirs.push(chars_vec("specs"));
    dirs.push(chars_vec("reports"));
    dirs.push(chars_vec("state"));
    dirs.push(chars_vec("product"));
    dirs.push(chars_vec("qa"));
    dirs.push(chars_vec("wishes"));
    dirs.push(chars_vec("scripts"));
    dirs.push(chars_vec("utilities"));
    dirs.push(chars_vec(".cache"));
    dirs.push(chars_vec("node_modules"));
    dirs.push(chars_vec(".git"));
    dirs.push(chars_vec("backups"));
    proof {
        assert(dirs.deep_view() =~~= excluded_scan_dirs());
    }
    let n = chars_vec(name);
    let mut k: usize = 0;
    while k < dirs.len()
        invariant
            k <= dirs@.len(),
            n@ == name@,
            dirs.deep_view() == excluded_scan_dirs(),
            forall|m: int| 0 <= m < k ==> name@ != #[trigger] excluded_scan_dirs()[m],
        decreases dirs@.len() - k,
    {
        proof {
            assert(dirs.deep_view()[k as int] =~= dirs@[k as int]@);
        }
        if eq_chars(&n, &dirs[k]) {
            return true;
        }
        k = k + 1;
    }
    false
}

/// Is this file stem a documentation marker (`README` or `AGENTS`) that the
/// scan skips?
pub fn is_documentation_file(stem: &str) -> (r: bool)
    ensures
        r == (spec_eq_ignore_ascii_case(stem@, "README"@) || spec_eq_ignore_ascii_case(
            stem@,
            "AGENTS"@,
        )),
{
    let s = chars_vec(stem);
    let readme = chars_vec("README");
    let agents = chars_vec("AGENTS");
    eq_ignore_case(&s, &readme) || eq_ignore_case(&s, &agents)
}

fn eq_ignore_case(a: &Vec<char>, b: &Vec<char>) -> (r: bool)
    ensures
        r == spec_eq_ignore_ascii_case(a@, b@),
{
    if a.len() != b.len() {
        return false;
    }
    let mut k: usize = 0;
    while k < a.len()
        invariant
            k <= a@.len() == b@.len(),
            forall|m: int|
                0 <= m < k ==> crate::belt::lower_ascii(#[trigger] (a@[m] as u32))
                    == crate::belt::lower_ascii(b@[m] as u32),
        decreases a@.len() - k,
    {
        let ua = a[k] as u32;
        let ub = b[k] as u32;
        let la = if 65 <= ua && ua <= 90 {
            ua + 32
        } else {
            ua
        };
        let lb = if 65 <= ub && ub <= 90 {
            ub + 32
        } else {
            ub
        };
        if la != lb {
            return false;
        }
        k = k + 1;
    }
    true
}

/// Orchestration settings of a profile's frontmatter.
#[derive(Debug, Clone)]
pub struct GenieConfig {
    /// The executors the profile applies to; empty means the default.
    pub executor: Vec<String>,
    pub variant: Option<String>,
    pub background: Option<bool>,
}

/// A discovered profile file.
#[derive(Debug, Clone)]
pub struct AgentFile {
    pub file_path: String,
    pub collective: Option<String>,
    pub agent_type: AgentType,
    pub namespaced_key: String,
}

/// A collective: a directory the scan recognized by its context marker.
#[derive(Debug, Clone)]
pub struct Collective {
    pub id: String,
    pub agents_dir: String,
    pub context_file: String,
}

/// Entry point for profile discovery in one workspace. Walking the disk is
/// the caller's part; the rules above decide what counts.
#[derive(Debug, Clone)]
pub struct GenieProfileLoader {
    pub workspace_root: String,
}

impl GenieProfileLoader {
    pub fn new(workspace_root: String) -> (r: Self)
        ensures
            r.workspace_root == workspace_root,
    {
        GenieProfileLoader { workspace_root }
    }
}

/// The split of the text after the opening marker: the frontmatter ends at
/// the earliest following `---` line, under either line ending; an optional
/// carriage return before that line belongs to the closer, not to the
/// metadata.
pub open spec fn spec_frontmatter_from(rest: Seq<char>) -> Option<(Seq<char>, Seq<char>)> {
    let i_lf = spec_find_sub(rest, "\n---\n"@);
    let i_crlf = spec_find_sub(rest, "\n---\r\n"@);
    if i_lf >= 0 && (i_crlf < 0 || i_lf <= i_crlf) {
        Some((strip_cr(rest.take(i_lf)), trim_spec(rest.skip(i_lf + 5))))
    } else if i_crlf >= 0 {
        Some((strip_cr(rest.take(i_crlf)), trim_spec(rest.skip(i_crlf + 6))))
    } else {
        None
    }
}

/// How a profile file splits into frontmatter and body: the file opens with
/// a `---` line, and the earliest following `---` line closes the
/// frontmatter; what stands between is the metadata text, and the rest,
/// trimmed, is the instructions. Both line endings are accepted on every
/// marker. A file without that shape is all body.
pub open spec fn spec_frontmatter(s: Seq<char>) -> Option<(Seq<char>, Seq<char>)> {
    if has_prefix(s, "---\r\n"@) {
        spec_frontmatter_from(s.skip(5))
    } else if has_prefix(s, "---\n"@) {
        spec_frontmatter_from(s.skip(4))
    } else {
        None
    }
}

fn split_at_closer(rest: &Vec<char>, at: usize, skip_len: usize) -> (r: (String, String))
    requires
        at + skip_len <= rest@.len(),
    ensures
        r.0@ == strip_cr(rest@.take(at as int)),
        r.1@ == trim_spec(rest@.skip(at + skip_len)),
{
    let n = rest.len();
    let mut end = at;
    if end > 0 && rest[end - 1] == '\r' {
        end = end - 1;
    }
    let front = subrange_chars(rest, 0, end);
    let tail = subrange_chars(rest, at + skip_len, n);
    let body = trim_chars(&tail);
    proof {
        let cut = rest@.take(at as int);
        assert(cut =~= rest@.subrange(0, at as int));
        if at > 0 && rest@[at - 1] == '\r' {
            assert(cut.last() == rest@[at - 1]);
            assert(cut.drop_last() =~= rest@.subrange(0, end as int));
        } else {
            assert(strip_cr(cut) == cut);
        }
        assert(front@ =~= strip_cr(rest@.take(at as int)));
        assert(tail@ =~= rest@.skip(at + skip_len));
    }
    (string_from_chars(&front), string_from_chars(&body))
}

fn frontmatter_from(rest: &Vec<char>) -> (r: Option<(String, String)>)
    ensures
        r matches Some((front, body)) ==> spec_frontmatter_from(rest@) == Some((front@, body@)),
        r is None ==> spec_frontmatter_from(rest@) is None,
{
    proof {
        reveal_strlit("\n---\n");
        reveal_strlit("\n---\r\n");
    }
    let closer_lf = chars_vec("\n---\n");
    let closer_crlf = chars_vec("\n---\r\n");
    let m_lf = find_first_match(rest, &closer_lf);
    let m_crlf = find_first_match(rest, &closer_crlf);
    match (m_lf, m_crlf) {
        (Some(i), Some(j)) => if i <= j {
            Some(split_at_closer(rest, i, 5))
        } else {
            Some(split_at_closer(rest, j, 6))
        },
        (Some(i), None) => Some(split_at_closer(rest, i, 5)),
        (None, Some(j)) => Some(split_at_closer(rest, j, 6)),
        (None, None) => None,
    }
}

/// Split a profile file into its frontmatter text and its trimmed body, when
/// it has the frontmatter shape.
pub fn extract_frontmatter(content: &str) -> (r: Option<(String, String)>)
    ensures
        r matches Some((front, body)) ==> spec_frontmatter(content@) == Some((front@, body@)),
        r is None ==> spec_frontmatter(content@) is None,
{
    let v = chars_vec(content);
    proof {
        reveal_strlit("---\r\n");
        reveal_strlit("---\n");
    }
    let opener_crlf = chars_vec("---\r\n");
    let opener_lf = chars_vec("---\n");
    if starts_with_chars(&v, &opener_crlf) {
        let rest = subrange_chars(&v, 5, v.len());
        proof {
            assert(rest@ =~= content@.skip(5));
        }
        frontmatter_from(&rest)
    } else if starts_with_chars(&v, &opener_lf) {
        let rest = subrange_chars(&v, 4, v.len());
        proof {
            assert(rest@ =~= content@.skip(4));
        }
        frontmatter_from(&rest)
    } else {
        None
    }
}

/// One loaded profile variant: an executor, a variant name, and an opaque
/// handle to the configuration as the loader's caller stores it.
#[derive(Debug, Clone)]
pub struct ProfileEntry {
    pub executor: String,
    pub variant: String,
    pub config: u64,
}

/// Some override carries the same executor and variant as `e`.
pub open spec fn spec_profile_overridden(e: ProfileEntry, overrides: Seq<ProfileEntry>) -> bool {
    exists|j: int|
        0 <= j < overrides.len() && (#[trigger] overrides[j]).executor@ == e.executor@
            && overrides[j].variant@ == e.variant@
}

/// The base entries that no override replaces, in order.
pub open spec fn spec_kept_base(
    base: Seq<ProfileEntry>,
    overrides: Seq<ProfileEntry>,
) -> Seq<ProfileEntry>
    decreases base.len(),
{
    if base.len() == 0 {
        Seq::empty()
    } else if spec_profile_overridden(base[0], overrides) {
        spec_kept_base(base.drop_first(), overrides)
    } else {
        seq![base[0]] + spec_kept_base(base.drop_first(), overrides)
    }
}

fn copy_profile(e: &ProfileEntry) -> (r: ProfileEntry)
    ensures
        r == *e,
{
    ProfileEntry { executor: e.executor.clone(), variant: e.variant.clone(), config: e.config }
}

fn profile_overridden(e: &ProfileEntry, overrides: &Vec<ProfileEntry>) -> (r: bool)
    ensures
        r == spec_profile_overridden(*e, overrides@),
{
    let ex = chars_vec(e.executor.as_str());
    let va = chars_vec(e.variant.as_str());
    let mut j: usize = 0;
    while j < overrides.len()
        invariant
            j <= overrides@.len(),
            ex@ == e.executor@,
            va@ == e.variant@,
            forall|m: int|
                0 <= m < j ==> !((#[trigger] overrides@[m]).executor@ == e.executor@
                    && overrides@[m].variant@ == e.variant@),
        decreases overrides@.len() - j,
    {
        let oex = chars_vec(overrides[j].executor.as_str());
        let ova = chars_vec(overrides[j].variant.as_str());
        if eq_chars(&oex, &ex) && eq_chars(&ova, &va) {
            proof {
                assert((overrides@[j as int]).executor@ == e.executor@ && overrides@[
                    j as int].variant@ == e.variant@);
            }
            return true;
        }
        j = j + 1;
    }
    false
}

/// Merge the base profiles with the workspace's discovered profiles: a
/// workspace entry replaces the base entry with its executor and variant,
/// and everything else is kept. The result holds the workspace entries
/// first, then the surviving base entries, resolved once at load time.
pub fn merge_profiles(base: &Vec<ProfileEntry>, overrides: &Vec<ProfileEntry>) -> (r: Vec<
    ProfileEntry,
>)
    ensures
        r@ == overrides@ + spec_kept_base(base@, overrides@),
{
    let mut r: Vec<ProfileEntry> = Vec::new();
    let mut k: usize = 0;
    while k < overrides.len()
        invariant
            k <= overrides@.len(),
            r@ == overrides@.take(k as int),
        decreases overrides@.len() - k,
    {
        r.push(copy_profile(&overrides[k]));
        proof {
            assert(overrides@.take((k + 1) as int) =~= overrides@.take(k as int).push(
                overrides@[k as int],
            ));
        }
        k = k + 1;
    }
    proof {
        assert(overrides@.take(overrides@.len() as int) =~= overrides@);
    }
    let ghost all = base@;
    proof {
        assert(all.skip(0) =~= all);
        assert(overrides@ + (Seq::<ProfileEntry>::empty() + spec_kept_base(all, overrides@))
            =~= overrides@ + spec_kept_base(all, overrides@));
    }
    let mut i: usize = 0;
    while i < base.len()
        invariant
            i <= base@.len(),
            all == base@,
            r@ + spec_kept_base(all.skip(i as int), overrides@) == overrides@ + spec_kept_base(
                all,
                overrides@,
            ),
        decreases base@.len() - i,
    {
        let ghost pre = r@;
        proof {
            assert(all.skip(i as int)[0] == all[i as int]);
            assert(all.skip(i as int).drop_first() =~= all.skip((i + 1) as int));
        }
        if !profile_overridden(&base[i], overrides) {
            let kept = copy_profile(&base[i]);
            r.push(kept);
            proof {
                assert(pre.push(all[i as int]) =~= pre + seq![all[i as int]]);
                assert(pre + (seq![all[i as int]] + spec_kept_base(
                    all.skip((i + 1) as int),
                    overrides@,
                )) =~= (pre + seq![all[i as int]]) + spec_kept_base(
                    all.skip((i + 1) as int),
                    overrides@,
                ));
            }
        }
        i = i + 1;
    }
    proof {
        assert(all.skip(base@.len() as int) =~= Seq::<ProfileEntry>::empty());
        assert(r@ + Seq::<ProfileEntry>::empty() =~= r@);
    }
    r
}

/// No surviving base entry shares its executor and variant with an
/// override: after the merge every key is resolved exactly once.
pub proof fn lemma_merge_overrides_win(base: Seq<ProfileEntry>, overrides: Seq<ProfileEntry>)
    ensures
        forall|k: int|
            0 <= k < spec_kept_base(base, overrides).len() ==> !spec_profile_overridden(
                #[trigger] spec_kept_base(base, overrides)[k],
                overrides,
            ),
    decreases base.len(),
{
    if base.len() > 0 {
        lemma_merge_overrides_win(base.drop_first(), overrides);
        let res = spec_kept_base(base, overrides);
        let rest = spec_kept_base(base.drop_first(), overrides);
        if !spec_profile_overridden(base[0], overrides) {
            assert forall|k: int| 0 <= k < res.len() implies !spec_profile_overridden(
                #[trigger] res[k],
                overrides,
            ) by {
                if k > 0 {
                    assert(res[k] == rest[k - 1]);
                }
            }
        }
    }
}

/// Shape of the `forge` frontmatter section.
#[derive(Debug, Clone, Copy, PartialEq, Eq, Structural)]
pub enum ForgeConfigShape {
    /// No keys: nothing configured.
    Empty,
    /// Keys are executor names: one configuration per executor.
    PerExecutor,
    /// Keys are configuration fields: one flat configuration for all
    /// executors.
    Flat,
    /// Neither executor names nor known fields: treated as empty.
    Unknown,
    /// Flat fields and executor keys mixed: refused.
    Mixed,
}

/// The configuration fields that mark a flat shape.
pub open spec fn flat_config_fields() -> Seq<Seq<char>> {
    seq![
        "model"@,
        "dangerously_skip_permissions"@,
        "sandbox"@,
        "dangerously_allow_all"@,
        "model_reasoning_effort"@,
        "yolo"@,
        "force"@,
        "allow_all_tools"@,
        "additional_params"@,
        "append_prompt"@,
        "claude_code_router"@,
        "plan"@,
        "approvals"@,
    ]
}

/// A key that names an executor: every character upper case or an
/// underscore.
pub open spec fn spec_is_executor_key(k: Seq<char>) -> bool {
    forall|i: int| 0 <= i < k.len() ==> is_uppercase_char(#[trigger] k[i]) || k[i] == '_'
}

/// A key that is one of the flat configuration fields.
pub open spec fn spec_is_flat_field(k: Seq<char>) -> bool {
    exists|m: int| 0 <= m < flat_config_fields().len() && k == #[trigger] flat_config_fields()[m]
}

/// How a key set is classified.
pub open spec fn spec_forge_config_shape(keys: Seq<Seq<char>>) -> ForgeConfigShape {
    if keys.len() == 0 {
        ForgeConfigShape::Empty
    } else {
        let per = exists|i: int| 0 <= i < keys.len() && spec_is_executor_key(#[trigger] keys[i]);
        let flat = exists|i: int| 0 <= i < keys.len() && spec_is_flat_field(#[trigger] keys[i]);
        if per && !flat {
            ForgeConfigShape::PerExecutor
        } else if flat && !per {
            ForgeConfigShape::Flat
        } else if !flat && !per {
            ForgeConfigShape::Unknown
        } else {
            ForgeConfigShape::Mixed
        }
    }
}

fn is_executor_key(k: &Vec<char>) -> (r: bool)
    ensures
        r == spec_is_executor_key(k@),
{
    let mut i: usize = 0;
    while i < k.len()
        invariant
            i <= k@.len(),
            forall|m: int| 0 <= m < i ==> is_uppercase_char(#[trigger] k@[m]) || k@[m] == '_',
        decreases k@.len() - i,
    {
        let c = k[i];
        if !(char_is_uppercase(c) || c == '_') {
            return false;
        }
        i = i + 1;
    }
    true
}

fn is_flat_field(k: &Vec<char>) -> (r: bool)
    ensures
        r == spec_is_flat_field(k@),
{
    let mut fields: Vec<Vec<char>> = Vec::new();
    fields.push(chars_vec("model"));
    fields.push(chars_vec("dangerously_skip_permissions"));
    fields.push(chars_vec("sandbox"));
    fields.push(chars_vec("dangerously_allow_all"));
    fields.push(chars_vec("model_reasoning_effort"));
    fields.push(chars_vec("yolo"));
    fields.push(chars_vec("force"));
    fields.push(chars_vec("allow_all_tools"));
    fields.push(chars_vec("additional_params"));
    fields.push(chars_vec("append_prompt"));
    fields.push(chars_vec("claude_code_router"));
    fields.push(chars_vec("plan"));
    fields.push(chars_vec("approvals"));
    proof {
        assert(fields.deep_view() =~~= flat_config_fields());
    }
    let mut m: usize = 0;
    while m < fields.len()
        invariant
            m <= fields@.len(),
            fields.deep_view() == flat_config_fields(),
            forall|w: int| 0 <= w < m ==> k@ != #[trigger] flat_config_fields()[w],
        decreases fields@.len() - m,
    {
        proof {
            assert(fields.deep_view()[m as int] =~= fields@[m as int]@);
        }
        if eq_chars(k, &fields[m]) {
            return true;
        }
        m = m + 1;
    }
    false
}

/// Classify the `forge` section by its keys, so that the shape is resolved
/// once at load time instead of being re-examined at every use.
pub fn classify_forge_config(keys: &Vec<String>) -> (r: ForgeConfigShape)
    ensures
        r == spec_forge_config_shape(keys@.map_values(|k: String| k@)),
{
    let ghost kv = keys@.map_values(|k: String| k@);
    if keys.len() == 0 {
        return ForgeConfigShape::Empty;
    }
    let mut any_per = false;
    let mut any_flat = false;
    let mut i: usize = 0;
    while i < keys.len()
        invariant
            i <= keys@.len(),
            kv == keys@.map_values(|k: String| k@),
            any_per == exists|m: int| 0 <= m < i && spec_is_executor_key(#[trigger] kv[m]),
            any_flat == exists|m: int| 0 <= m < i && spec_is_flat_field(#[trigger] kv[m]),
        decreases keys@.len() - i,
    {
        let k = chars_vec(keys[i].as_str());
        proof {
            assert(kv[i as int] == keys@[i as int]@);
        }
        if is_executor_key(&k) {
            proof {
                assert(spec_is_executor_key(kv[i as int]));
            }
            any_per = true;
        }
        if is_flat_field(&k) {
            proof {
                assert(spec_is_flat_field(kv[i as int]));
            }
            any_flat = true;
        }
        i = i + 1;
    }
    if any_per && !any_flat {
        ForgeConfigShape::PerExecutor
    } else if any_flat && !any_per {
        ForgeConfigShape::Flat
    } else if !any_flat && !any_per {
        ForgeConfigShape::Unknown
    } else {
        ForgeConfigShape::Mixed
    }
}

} // verus!
