//! Generation of conventional commit messages from task context: an
//! executor-supplied message is used when it passes the validity check,
//! otherwise the task title is sanitized and formatted.

use vstd::prelude::*;

use crate::text::{
    byte_len, byte_len_u64, chars_vec, dec_digits, first_line, first_line_chars, has_prefix,
    join_lines, join_nl, split_lines, split_lines_chars, starts_with_chars, string_from_chars,
    subrange_chars, trim_chars, trim_end_matches_chars, trim_end_matches_spec, trim_spec,
    u64_to_chars,
};

verus! {

/// Failure cases of commit-message generation.
#[derive(Debug)]
pub enum CommitMessageError {
    GitError(String),
    InvalidFormat,
}

/// Service for generating conventional commit messages.
pub struct CommitMessageGenerator;

/// Conversational openings that are stripped from a task title, tried in
/// this order; only the first match is removed.
pub open spec fn conversational_prefixes() -> Seq<Seq<char>> {
    seq![
        "Perfect! Let me "@,
        "Perfect! "@,
        "Good, I can see "@,
        "Good, I "@,
        "Good, "@,
        "Let me "@,
        "I'll "@,
        "I will "@,
        "I can "@,
        "Sure, I'll "@,
        "Sure, "@,
        "Okay, I'll "@,
        "Okay, "@,
        "Great! I'll "@,
        "Great! "@,
    ]
}

/// Conversational openings that invalidate an executor-supplied message.
pub open spec fn rejection_patterns() -> Seq<Seq<char>> {
    seq![
        "Perfect!"@,
        "Good, I"@,
        "Let me"@,
        "I'll"@,
        "I will"@,
        "I can see"@,
        "Sure,"@,
        "Okay,"@,
    ]
}

/// `s` begins with one of the patterns.
pub open spec fn starts_with_any(s: Seq<char>, ps: Seq<Seq<char>>) -> bool {
    exists|k: int| 0 <= k < ps.len() && has_prefix(s, #[trigger] ps[k])
}

/// The first matching prefix removed from `s`; patterns are tried in order.
pub open spec fn strip_first_prefix(s: Seq<char>, ps: Seq<Seq<char>>) -> Seq<char>
    decreases ps.len(),
{
    if ps.len() == 0 {
        s
    } else if has_prefix(s, ps[0]) {
        s.skip(ps[0].len() as int)
    } else {
        strip_first_prefix(s, ps.drop_first())
    }
}

/// The sanitized form of a raw task title: trimmed, one conversational
/// prefix stripped, cut to its first line, truncated to 72 characters,
/// trailing ellipses removed, and trimmed again.
pub open spec fn spec_sanitize_title(raw: Seq<char>) -> Seq<char> {
    let t0 = trim_spec(raw);
    let t1 = strip_first_prefix(t0, conversational_prefixes());
    let t2 = first_line(t1);
    let t3 = if t2.len() <= 72 {
        t2
    } else {
        t2.take(72)
    };
    let t4 = trim_end_matches_spec(t3, "…"@);
    let t5 = trim_end_matches_spec(t4, "..."@);
    trim_spec(t5)
}

/// A line of a description is kept unless it looks like a markdown table
/// row, a horizontal rule, or a section heading.
pub open spec fn keep_line(l: Seq<char>) -> bool {
    let t = trim_spec(l);
    !has_prefix(t, "|"@) && !has_prefix(t, "---"@) && !has_prefix(t, "## "@) && !has_prefix(
        t,
        "### "@,
    )
}

/// Lines that [`keep_line`] accepts, in order.
pub open spec fn filter_kept(ls: Seq<Seq<char>>) -> Seq<Seq<char>>
    decreases ls.len(),
{
    if ls.len() == 0 {
        Seq::empty()
    } else if keep_line(ls[0]) {
        seq![ls[0]] + filter_kept(ls.drop_first())
    } else {
        filter_kept(ls.drop_first())
    }
}

/// Leading lines that are blank after trimming, removed.
pub open spec fn drop_leading_blank(ls: Seq<Seq<char>>) -> Seq<Seq<char>>
    decreases ls.len(),
{
    if ls.len() > 0 && trim_spec(ls[0]).len() == 0 {
        drop_leading_blank(ls.drop_first())
    } else {
        ls
    }
}

/// The sanitized form of a raw description: markdown tables and headings
/// dropped, leading blank lines skipped, at most ten lines kept, joined and
/// trimmed.
pub open spec fn spec_sanitize_description(raw: Seq<char>) -> Seq<char> {
    let kept = drop_leading_blank(filter_kept(split_lines(raw)));
    let taken = if kept.len() <= 10 {
        kept
    } else {
        kept.take(10)
    };
    trim_spec(join_nl(taken))
}

/// An executor-supplied message is valid when it is non-empty, its first
/// line starts with no conversational pattern, and that line is longer than
/// 5 and shorter than 200 bytes.
pub open spec fn spec_is_valid_commit_message(msg: Seq<char>) -> bool {
    &&& msg.len() > 0
    &&& !starts_with_any(first_line(msg), rejection_patterns())
    &&& byte_len(first_line(msg)) > 5
    &&& byte_len(first_line(msg)) < 200
}

/// The formatted message: sanitized title, then ` (#N)` when an issue
/// number is given, then a blank line and the sanitized description when
/// that is non-empty and under 500 bytes.
pub open spec fn spec_sanitize_and_format(
    title: Seq<char>,
    description: Option<Seq<char>>,
    github_issue: Option<u32>,
) -> Seq<char> {
    let m0 = spec_sanitize_title(title);
    let m1 = match github_issue {
        Some(n) => m0 + " (#"@ + dec_digits(n as nat) + ")"@,
        None => m0,
    };
    match description {
        Some(d) => {
            let sd = spec_sanitize_description(d);
            if sd.len() > 0 && byte_len(sd) < 500 {
                m1 + "\n\n"@ + sd
            } else {
                m1
            }
        },
        None => m1,
    }
}

/// View of an optional borrowed string.
pub open spec fn opt_str_view(o: Option<&str>) -> Option<Seq<char>> {
    match o {
        Some(s) => Some(s@),
        None => None,
    }
}

/// What `generate` returns: the executor message when it is valid, else the
/// formatted title.
pub open spec fn spec_generate(
    title: Seq<char>,
    description: Option<Seq<char>>,
    github_issue: Option<u32>,
    executor_message: Option<Seq<char>>,
) -> Seq<char> {
    match executor_message {
        Some(m) => if spec_is_valid_commit_message(m) {
            m
        } else {
            spec_sanitize_and_format(title, description, github_issue)
        },
        None => spec_sanitize_and_format(title, description, github_issue),
    }
}

fn conversational_prefixes_exec() -> (r: Vec<Vec<char>>)
    ensures
        r.deep_view() == conversational_prefixes(),
{
    let mut r: Vec<Vec<char>> = Vec::new();
    r.push(chars_vec("Perfect! Let me "));
    r.push(chars_vec("Perfect! "));
    r.push(chars_vec("Good, I can see "));
    r.push(chars_vec("Good, I "));
    r.push(chars_vec("Good, "));
    r.push(chars_vec("Let me "));
    r.push(chars_vec("I'll "));
    r.push(chars_vec("I will "));
    r.push(chars_vec("I can "));
    r.push(chars_vec("Sure, I'll "));
    r.push(chars_vec("Sure, "));
    r.push(chars_vec("Okay, I'll "));
    r.push(chars_vec("Okay, "));
    r.push(chars_vec("Great! I'll "));
    r.push(chars_vec("Great! "));
    proof {
        assert(r.deep_view() =~~= conversational_prefixes());
    }
    r
}

fn rejection_patterns_exec() -> (r: Vec<Vec<char>>)
    ensures
        r.deep_view() == rejection_patterns(),
{
    let mut r: Vec<Vec<char>> = Vec::new();
    r.push(chars_vec("Perfect!"));
    r.push(chars_vec("Good, I"));
    r.push(chars_vec("Let me"));
    r.push(chars_vec("I'll"));
    r.push(chars_vec("I will"));
    r.push(chars_vec("I can see"));
    r.push(chars_vec("Sure,"));
    r.push(chars_vec("Okay,"));
    proof {
        assert(r.deep_view() =~~= rejection_patterns());
    }
    r
}

/// Does `v` start with any of the patterns?
pub(crate) fn starts_with_any_exec(v: &Vec<char>, ps: &Vec<Vec<char>>) -> (r: bool)
    ensures
        r == starts_with_any(v@, ps.deep_view()),
{
    let mut k: usize = 0;
    while k < ps.len()
        invariant
            k <= ps@.len(),
            forall|m: int| 0 <= m < k ==> !has_prefix(v@, #[trigger] ps.deep_view()[m]),
        decreases ps@.len() - k,
    {
        if starts_with_chars(v, &ps[k]) {
            proof {
                assert(ps.deep_view()[k as int] =~= ps@[k as int]@);
                assert(has_prefix(v@, ps.deep_view()[k as int]));
            }
            return true;
        }
        proof {
            assert(ps.deep_view()[k as int] =~= ps@[k as int]@);
        }
        k = k + 1;
    }
    false
}

fn strip_conversational_prefix(v: &Vec<char>) -> (r: Vec<char>)
    ensures
        r@ == strip_first_prefix(v@, conversational_prefixes()),
{
    let ps = conversational_prefixes_exec();
    let ghost full = ps.deep_view();
    proof {
        assert(full.skip(0) =~= full);
    }
    let mut k: usize = 0;
    while k < ps.len()
        invariant
            k <= ps@.len(),
            ps.deep_view() == full,
            full == conversational_prefixes(),
            strip_first_prefix(v@, full.skip(k as int)) == strip_first_prefix(v@, full),
        decreases ps@.len() - k,
    {
        proof {
            assert(full.skip(k as int)[0] =~= full[k as int]);
            assert(full[k as int] =~= ps@[k as int]@);
        }
        if starts_with_chars(v, &ps[k]) {
            let plen = ps[k].len();
            let r = subrange_chars(v, plen, v.len());
            proof {
                assert(v@.skip(plen as int) =~= v@.subrange(plen as int, v@.len() as int));
                assert(strip_first_prefix(v@, full.skip(k as int)) == v@.skip(plen as int));
            }
            return r;
        }
        proof {
            assert(full.skip(k as int).drop_first() =~= full.skip((k + 1) as int));
        }
        k = k + 1;
    }
    proof {
        assert(full.skip(ps@.len() as int) =~= Seq::<Seq<char>>::empty());
    }
    let r = subrange_chars(v, 0, v.len());
    proof {
        assert(v@.subrange(0, v@.len() as int) =~= v@);
    }
    r
}

impl CommitMessageGenerator {
    pub fn new() -> Self {
        Self
    }

    /// Sanitize a raw task title into a usable commit subject.
    pub fn sanitize_title(raw_title: &str) -> (r: String)
        ensures
            r@ == spec_sanitize_title(raw_title@),
    {
        let v = chars_vec(raw_title);
        let t0 = trim_chars(&v);
        let t1 = strip_conversational_prefix(&t0);
        let t2 = first_line_chars(&t1);
        let t3 = if t2.len() <= 72 {
            t2
        } else {
            let cut = subrange_chars(&t2, 0, 72);
            proof {
                assert(t2@.take(72) =~= t2@.subrange(0, 72));
            }
            cut
        };
        let ell = chars_vec("…");
        let t4 = trim_end_matches_chars(&t3, &ell);
        let dots = chars_vec("...");
        let t5 = trim_end_matches_chars(&t4, &dots);
        let t6 = trim_chars(&t5);
        string_from_chars(&t6)
    }

    /// Sanitize a raw task description for inclusion in the message body.
    pub fn sanitize_description(raw_desc: &str) -> (r: String)
        ensures
            r@ == spec_sanitize_description(raw_desc@),
    {
        let v = chars_vec(raw_desc);
        let lines = split_lines_chars(&v);
        let ghost ls = lines.deep_view();

        // Filter out table rows, rules and headings.
        let bar = chars_vec("|");
        let rule = chars_vec("---");
        let h2 = chars_vec("## ");
        let h3 = chars_vec("### ");
        let mut kept: Vec<Vec<char>> = Vec::new();
        proof {
            assert(ls.skip(0) =~= ls);
            assert(kept.deep_view() =~= Seq::<Seq<char>>::empty());
            assert(Seq::<Seq<char>>::empty() + filter_kept(ls) =~= filter_kept(ls));
        }
        let mut i: usize = 0;
        while i < lines.len()
            invariant
                i <= lines@.len(),
                ls == lines.deep_view(),
                bar@ == "|"@,
                rule@ == "---"@,
                h2@ == "## "@,
                h3@ == "### "@,
                kept.deep_view() + filter_kept(ls.skip(i as int)) == filter_kept(ls),
            decreases lines@.len() - i,
        {
            let ghost pre = kept.deep_view();
            proof {
                assert(ls.skip(i as int)[0] =~= ls[i as int]);
                assert(ls[i as int] =~= lines@[i as int]@);
                assert(ls.skip(i as int).drop_first() =~= ls.skip((i + 1) as int));
            }
            let t = trim_chars(&lines[i]);
            let is_kept = !starts_with_chars(&t, &bar) && !starts_with_chars(&t, &rule)
                && !starts_with_chars(&t, &h2) && !starts_with_chars(&t, &h3);
            if is_kept {
                let line = subrange_chars(&lines[i], 0, lines[i].len());
                proof {
                    assert(line@ =~= lines@[i as int]@.subrange(0, lines@[i as int]@.len() as int));
                    assert(line@ =~= ls[i as int]);
                }
                kept.push(line);
                proof {
                    assert(kept.deep_view() =~~= pre.push(ls[i as int]));
                    assert(pre.push(ls[i as int]) + filter_kept(ls.skip((i + 1) as int)) =~= pre + (
                    seq![ls[i as int]] + filter_kept(ls.skip((i + 1) as int))));
                }
            }
            i = i + 1;
        }
        proof {
            assert(ls.skip(lines@.len() as int) =~= Seq::<Seq<char>>::empty());
            assert(kept.deep_view() + Seq::<Seq<char>>::empty() =~= kept.deep_view());
        }

        // Skip leading blank lines.
        let ghost kv = kept.deep_view();
        let mut start: usize = 0;
        proof {
            assert(kv.skip(0) =~= kv);
        }
        loop
            invariant_except_break
                start <= kept@.len(),
                kv == kept.deep_view(),
                drop_leading_blank(kv) == drop_leading_blank(kv.skip(start as int)),
            ensures
                start <= kept@.len(),
                kv == kept.deep_view(),
                drop_leading_blank(kv) == kv.skip(start as int),
            decreases kept@.len() - start,
        {
            if start >= kept.len() {
                proof {
                    assert(kv.skip(start as int) =~= Seq::<Seq<char>>::empty());
                }
                break;
            }
            let t = trim_chars(&kept[start]);
            proof {
                assert(kv.skip(start as int)[0] =~= kv[start as int]);
                assert(kv[start as int] =~= kept@[start as int]@);
            }
            if t.len() > 0 {
                break;
            }
            proof {
                assert(kv.skip(start as int).drop_first() =~= kv.skip((start + 1) as int));
            }
            start = start + 1;
        }

        // Keep at most ten lines.
        let remaining = kept.len() - start;
        let upto = if remaining <= 10 {
            kept.len()
        } else {
            start + 10
        };
        let mut taken: Vec<Vec<char>> = Vec::new();
        let mut k: usize = start;
        while k < upto
            invariant
                start <= k <= upto <= kept@.len(),
                kv == kept.deep_view(),
                taken.deep_view() == kv.skip(start as int).take((k - start) as int),
            decreases upto - k,
        {
            let ghost pre = taken.deep_view();
            let line = subrange_chars(&kept[k], 0, kept[k].len());
            proof {
                assert(line@ =~= kept@[k as int]@.subrange(0, kept@[k as int]@.len() as int));
                assert(line@ =~= kv[k as int]);
            }
            taken.push(line);
            proof {
                assert(taken.deep_view() =~~= pre.push(kv[k as int]));
                assert(kv.skip(start as int).take((k + 1 - start) as int) =~= kv.skip(
                    start as int,
                ).take((k - start) as int).push(kv[k as int]));
            }
            k = k + 1;
        }
        proof {
            let tail = kv.skip(start as int);
            if tail.len() <= 10 {
                assert(upto == kept@.len());
                assert(tail.take((upto - start) as int) =~= tail);
            } else {
                assert(upto == start + 10);
                assert(tail.take(10) =~= tail.take((upto - start) as int));
            }
        }

        let joined = crate::text::join_lines(&taken);
        let trimmed = trim_chars(&joined);
        string_from_chars(&trimmed)
    }

    /// Check an executor-supplied message for basic usability.
    pub fn is_valid_commit_message(msg: &str) -> (r: bool)
        ensures
            r == spec_is_valid_commit_message(msg@),
    {
        let v = chars_vec(msg);
        if v.len() == 0 {
            return false;
        }
        let fl = first_line_chars(&v);
        let ps = rejection_patterns_exec();
        if starts_with_any_exec(&fl, &ps) {
            return false;
        }
        let blen = byte_len_u64(&fl);
        blen > 5 && blen < 200
    }

    /// Format the sanitized title, issue reference and description into one
    /// message.
    pub fn sanitize_and_format(
        title: &str,
        description: Option<&str>,
        github_issue: Option<u32>,
    ) -> (r: String)
        ensures
            r@ == spec_sanitize_and_format(title@, opt_str_view(description), github_issue),
    {
        let head = Self::sanitize_title(title);
        let mut msg = chars_vec(head.as_str());
        if let Some(n) = github_issue {
            let mut open_issue = chars_vec(" (#");
            let mut digits = u64_to_chars(n as u64);
            let mut close_issue = chars_vec(")");
            msg.append(&mut open_issue);
            msg.append(&mut digits);
            msg.append(&mut close_issue);
            proof {
                assert((n as u64) as nat == n as nat);
            }
        }
        if let Some(d) = description {
            let sd = Self::sanitize_description(d);
            let sdv = chars_vec(sd.as_str());
            let blen = byte_len_u64(&sdv);
            if sdv.len() > 0 && blen < 500 {
                let mut sep = chars_vec("\n\n");
                let mut body = sdv;
                msg.append(&mut sep);
                msg.append(&mut body);
            }
        }
        proof {
            assert(msg@ =~= spec_sanitize_and_format(title@, opt_str_view(description), github_issue));
        }
        string_from_chars(&msg)
    }

    /// Generate a commit message. The executor-supplied message wins when it
    /// is valid; otherwise the task title is sanitized and formatted. This
    /// never fails: the fallback always yields a message.
    pub fn generate(
        &self,
        task_title: &str,
        task_description: Option<&str>,
        github_issue: Option<u32>,
        executor_commit_message: Option<&str>,
    ) -> (r: Result<String, CommitMessageError>)
        ensures
            r is Ok,
            r matches Ok(m) ==> m@ == spec_generate(
                task_title@,
                opt_str_view(task_description),
                github_issue,
                opt_str_view(executor_commit_message),
            ),
    {
        if let Some(msg) = executor_commit_message {
            if Self::is_valid_commit_message(msg) {
                return Ok(msg.to_owned());
            }
        }
        Ok(Self::sanitize_and_format(task_title, task_description, github_issue))
    }
}

} // verus!
