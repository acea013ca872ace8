//! Quality checks on finished commit messages: conversational openings,
//! subject length, internal identifiers, markdown noise, and missing issue
//! references.

use vstd::prelude::*;

use crate::commit_message::{starts_with_any, starts_with_any_exec};
use crate::text::{
    byte_len, byte_len_sat, byte_len_u64, chars_vec, contains_char, contains_char_exec,
    contains_chars, contains_seq, dec_digits, first_line, first_line_chars, split_lines,
    split_lines_chars, string_from_chars, u64_to_chars,
};

verus! {

/// How serious a finding is.
#[derive(Debug, Clone, Copy, PartialEq, Eq, Structural)]
pub enum WarningSeverity {
    Info,
    Warning,
    Error,
}

/// One finding about a commit message.
#[derive(Debug, Clone)]
pub struct ValidationWarning {
    pub message: String,
    pub severity: WarningSeverity,
}

/// Commit message validator.
pub struct CommitValidator;

/// Conversational openings that make a message unacceptable.
pub open spec fn conversational_patterns() -> Seq<Seq<char>> {
    seq![
        "Perfect!"@,
        "Good, I"@,
        "Good,"@,
        "Let me"@,
        "I'll"@,
        "I will"@,
        "I can see"@,
        "Sure,"@,
        "Okay,"@,
        "Great!"@,
    ]
}

/// Prefixes accepted by the loose conventional-commits check.
pub open spec fn conventional_prefixes() -> Seq<Seq<char>> {
    seq![
        "feat:"@,
        "fix:"@,
        "docs:"@,
        "style:"@,
        "refactor:"@,
        "perf:"@,
        "test:"@,
        "build:"@,
        "ci:"@,
        "chore:"@,
        "revert:"@,
        "feat("@,
        "fix("@,
        "docs("@,
        "style("@,
        "refactor("@,
        "perf("@,
        "test("@,
        "build("@,
        "ci("@,
        "chore("@,
        "revert("@,
    ]
}

/// The first line opens with a conversational pattern.
pub open spec fn spec_has_conversational_pattern(msg: Seq<char>) -> bool {
    starts_with_any(first_line(msg), conversational_patterns())
}

/// `c` is a decimal digit.
pub open spec fn is_ascii_digit(c: char) -> bool {
    48 <= (c as u32) <= 57
}

/// The message mentions `#` and holds at least one digit.
pub open spec fn spec_has_issue_reference(msg: Seq<char>) -> bool {
    contains_char(msg, '#') && exists|i: int| 0 <= i < msg.len() && is_ascii_digit(#[trigger] msg[i])
}

/// The first line starts with a conventional-commits prefix.
pub open spec fn spec_follows_conventional_commits(msg: Seq<char>) -> bool {
    starts_with_any(first_line(msg), conventional_prefixes())
}

/// The warning raised when the subject line is over 72 bytes.
pub open spec fn subject_length_text(n: nat) -> Seq<char> {
    "Subject line is "@ + dec_digits(n) + " characters (recommended: 50, max: 72)"@
}

/// The findings for a message, in the order they are reported.
pub open spec fn spec_validate(msg: Seq<char>) -> Seq<(Seq<char>, WarningSeverity)> {
    let w1: Seq<(Seq<char>, WarningSeverity)> = if spec_has_conversational_pattern(msg) {
        seq![
            (
                "Commit message contains conversational AI patterns (e.g., 'Perfect!', 'Let me')"@,
                WarningSeverity::Error,
            ),
        ]
    } else {
        Seq::empty()
    };
    let w2: Seq<(Seq<char>, WarningSeverity)> = if byte_len(first_line(msg)) > 72 {
        seq![(subject_length_text(byte_len_sat(first_line(msg))), WarningSeverity::Warning)]
    } else {
        Seq::empty()
    };
    let w3: Seq<(Seq<char>, WarningSeverity)> = if contains_seq(msg, "automagik-forge"@) {
        seq![
            (
                "Commit message contains internal identifier 'automagik-forge'"@,
                WarningSeverity::Warning,
            ),
        ]
    } else {
        Seq::empty()
    };
    let w4: Seq<(Seq<char>, WarningSeverity)> = if contains_char(msg, '|') && split_lines(
        msg,
    ).len() > 3 {
        seq![
            (
                "Commit message contains markdown tables or excessive formatting"@,
                WarningSeverity::Info,
            ),
        ]
    } else {
        Seq::empty()
    };
    let w5: Seq<(Seq<char>, WarningSeverity)> = if !spec_has_issue_reference(msg) {
        seq![("Consider adding GitHub issue reference (e.g., '#123')"@, WarningSeverity::Info)]
    } else {
        Seq::empty()
    };
    w1 + w2 + w3 + w4 + w5
}

/// View of a warning list as message text and severity pairs.
pub open spec fn warning_views(ws: Seq<ValidationWarning>) -> Seq<(Seq<char>, WarningSeverity)> {
    ws.map_values(|w: ValidationWarning| (w.message@, w.severity))
}

fn conversational_patterns_exec() -> (r: Vec<Vec<char>>)
    ensures
        r.deep_view() == conversational_patterns(),
{
    let mut r: Vec<Vec<char>> = Vec::new();
    r.push(chars_vec("Perfect!"));
    r.push(chars_vec("Good, I"));
    r.push(chars_vec("Good,"));
    r.push(chars_vec("Let me"));
    r.push(chars_vec("I'll"));
    r.push(chars_vec("I will"));
    r.push(chars_vec("I can see"));
    r.push(chars_vec("Sure,"));
    r.push(chars_vec("Okay,"));
    r.push(chars_vec("Great!"));
    proof {
        assert(r.deep_view() =~~= conversational_patterns());
    }
    r
}

fn conventional_prefixes_exec() -> (r: Vec<Vec<char>>)
    ensures
        r.deep_view() == conventional_prefixes(),
{
    let mut r: Vec<Vec<char>> = Vec::new();
    r.push(chars_vec("feat:"));
    r.push(chars_vec("fix:"));
    r.push(chars_vec("docs:"));
    r.push(chars_vec("style:"));
    r.push(chars_vec("refactor:"));
    r.push(chars_vec("perf:"));
    r.push(chars_vec("test:"));
    r.push(chars_vec("build:"));
    r.push(chars_vec("ci:"));
    r.push(chars_vec("chore:"));
    r.push(chars_vec("revert:"));
    r.push(chars_vec("feat("));
    r.push(chars_vec("fix("));
    r.push(chars_vec("docs("));
    r.push(chars_vec("style("));
    r.push(chars_vec("refactor("));
    r.push(chars_vec("perf("));
    r.push(chars_vec("test("));
    r.push(chars_vec("build("));
    r.push(chars_vec("ci("));
    r.push(chars_vec("chore("));
    r.push(chars_vec("revert("));
    proof {
        assert(r.deep_view() =~~= conventional_prefixes());
    }
    r
}

fn digit_exec(c: char) -> (r: bool)
    ensures
        r == is_ascii_digit(c),
{
    let u = c as u32;
    48 <= u && u <= 57
}

fn any_digit(v: &Vec<char>) -> (r: bool)
    ensures
        r == exists|i: int| 0 <= i < v@.len() && is_ascii_digit(#[trigger] v@[i]),
{
    let mut i: usize = 0;
    while i < v.len()
        invariant
            i <= v@.len(),
            forall|m: int| 0 <= m < i ==> !is_ascii_digit(#[trigger] v@[m]),
        decreases v@.len() - i,
    {
        if digit_exec(v[i]) {
            return true;
        }
        i = i + 1;
    }
    false
}

impl CommitValidator {
    /// Check the message and report the findings, exactly as
    /// [`spec_validate`] lists them.
    pub fn validate(commit_message: &str) -> (r: Vec<ValidationWarning>)
        ensures
            warning_views(r@) == spec_validate(commit_message@),
    {
        let v = chars_vec(commit_message);
        let mut warnings: Vec<ValidationWarning> = Vec::new();

        let fl = first_line_chars(&v);
        let ps = conversational_patterns_exec();
        if starts_with_any_exec(&fl, &ps) {
            warnings.push(
                ValidationWarning {
                    message: String::from_str(
                        "Commit message contains conversational AI patterns (e.g., 'Perfect!', 'Let me')",
                    ),
                    severity: WarningSeverity::Error,
                },
            );
        }

        let flen = byte_len_u64(&fl);
        if flen > 72 {
            let mut text = chars_vec("Subject line is ");
            let mut digits = u64_to_chars(flen);
            let mut rest = chars_vec(" characters (recommended: 50, max: 72)");
            text.append(&mut digits);
            text.append(&mut rest);
            proof {
                assert(text@ =~= subject_length_text(byte_len_sat(first_line(
                    commit_message@,
                ))));
            }
            warnings.push(
                ValidationWarning {
                    message: string_from_chars(&text),
                    severity: WarningSeverity::Warning,
                },
            );
        }

        let ident = chars_vec("automagik-forge");
        if contains_chars(&v, &ident) {
            warnings.push(
                ValidationWarning {
                    message: String::from_str(
                        "Commit message contains internal identifier 'automagik-forge'",
                    ),
                    severity: WarningSeverity::Warning,
                },
            );
        }

        if contains_char_exec(&v, '|') {
            let lines = split_lines_chars(&v);
            if lines.len() > 3 {
                warnings.push(
                    ValidationWarning {
                        message: String::from_str(
                            "Commit message contains markdown tables or excessive formatting",
                        ),
                        severity: WarningSeverity::Info,
                    },
                );
            }
        }

        if !Self::has_issue_reference(commit_message) {
            warnings.push(
                ValidationWarning {
                    message: String::from_str(
                        "Consider adding GitHub issue reference (e.g., '#123')",
                    ),
                    severity: WarningSeverity::Info,
                },
            );
        }

        proof {
            assert(warning_views(warnings@) =~~= spec_validate(commit_message@));
        }
        warnings
    }

    /// Loose conventional-commits check on the first line.
    pub fn follows_conventional_commits(commit_message: &str) -> (r: bool)
        ensures
            r == spec_follows_conventional_commits(commit_message@),
    {
        let v = chars_vec(commit_message);
        let fl = first_line_chars(&v);
        let ps = conventional_prefixes_exec();
        starts_with_any_exec(&fl, &ps)
    }

    /// The first line opens with a conversational pattern.
    pub fn has_conversational_pattern(msg: &str) -> (r: bool)
        ensures
            r == spec_has_conversational_pattern(msg@),
    {
        let v = chars_vec(msg);
        let fl = first_line_chars(&v);
        let ps = conversational_patterns_exec();
        starts_with_any_exec(&fl, &ps)
    }

    /// The message carries something that looks like an issue reference.
    pub fn has_issue_reference(msg: &str) -> (r: bool)
        ensures
            r == spec_has_issue_reference(msg@),
    {
        let v = chars_vec(msg);
        contains_char_exec(&v, '#') && any_digit(&v)
    }
}

} // verus!
