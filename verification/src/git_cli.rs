//! Parsing of git plumbing output: the two counters of a left-right
//! rev-list, the porcelain status summary, and the classification of a
//! failed pull.

use vstd::prelude::*;

use crate::commit_validator::is_ascii_digit;
use crate::text::{
    chars_vec, contains_chars, contains_seq, has_prefix, is_blank, split_lines, split_lines_chars,
    starts_with_chars, subrange_chars,
};

verus! {

/// Index of the first whitespace character, or `s.len()` if there is none.
pub open spec fn first_blank_at(s: Seq<char>) -> int
    decreases s.len(),
{
    if s.len() == 0 {
        0
    } else if is_blank(s[0]) {
        0
    } else {
        1 + first_blank_at(s.drop_first())
    }
}

proof fn lemma_first_blank_at(s: Seq<char>, k: int)
    requires
        0 <= k <= s.len(),
        forall|m: int| 0 <= m < k ==> !is_blank(s[m]),
        k == s.len() || is_blank(s[k]),
    ensures
        first_blank_at(s) == k,
    decreases k,
{
    if k == 0 {
        if s.len() > 0 {
            assert(is_blank(s[0]));
        }
    } else {
        assert(!is_blank(s[0]));
        lemma_first_blank_at(s.drop_first(), k - 1);
    }
}

/// The whitespace-separated tokens of `s`, in order.
pub open spec fn spec_split_ws(s: Seq<char>) -> Seq<Seq<char>>
    decreases s.len(),
{
    if s.len() == 0 {
        Seq::empty()
    } else if is_blank(s[0]) {
        spec_split_ws(s.drop_first())
    } else {
        let i = first_blank_at(s);
        if 0 < i <= s.len() {
            seq![s.take(i)] + spec_split_ws(s.skip(i))
        } else {
            seq![s]
        }
    }
}

/// Split into whitespace-separated tokens.
pub fn split_ws_chars(v: &Vec<char>) -> (r: Vec<Vec<char>>)
    ensures
        r.deep_view() == spec_split_ws(v@),
{
    let n = v.len();
    let mut tokens: Vec<Vec<char>> = Vec::new();
    proof {
        assert(v@.skip(0) =~= v@);
        assert(tokens.deep_view() =~= Seq::<Seq<char>>::empty());
        assert(Seq::<Seq<char>>::empty() + spec_split_ws(v@) =~= spec_split_ws(v@));
    }
    let mut pos: usize = 0;
    while pos < n
        invariant
            pos <= n,
            n == v@.len(),
            tokens.deep_view() + spec_split_ws(v@.skip(pos as int)) == spec_split_ws(v@),
        decreases n - pos,
    {
        let ghost tail = v@.skip(pos as int);
        proof {
            assert(tail[0] == v@[pos as int]);
            assert(tail.drop_first() =~= v@.skip((pos + 1) as int));
        }
        if crate::text::blank_char(v[pos]) {
            pos = pos + 1;
        } else {
            let ghost pre = tokens.deep_view();
            let mut e: usize = pos;
            while e < n && !crate::text::blank_char(v[e])
                invariant
                    pos <= e <= n,
                    n == v@.len(),
                    forall|m: int| pos <= m < e ==> !is_blank(v@[m]),
                decreases n - e,
            {
                e = e + 1;
            }
            proof {
                assert forall|m: int| 0 <= m < e - pos implies !is_blank(tail[m]) by {
                    assert(tail[m] == v@[m + pos]);
                }
                if e < n {
                    assert(tail[e - pos] == v@[e as int]);
                }
                lemma_first_blank_at(tail, e - pos);
                assert(tail.take(e - pos) =~= v@.subrange(pos as int, e as int));
                assert(tail.skip(e - pos) =~= v@.skip(e as int));
            }
            let token = subrange_chars(v, pos, e);
            tokens.push(token);
            proof {
                assert(tokens.deep_view() =~~= pre.push(token@));
                assert(pre.push(token@) + spec_split_ws(v@.skip(e as int)) =~= pre + (seq![token@]
                    + spec_split_ws(v@.skip(e as int))));
            }
            pos = e;
        }
    }
    proof {
        assert(v@.skip(n as int) =~= Seq::<char>::empty());
        assert(tokens.deep_view() + Seq::<Seq<char>>::empty() =~= tokens.deep_view());
    }
    tokens
}

/// Value of a digit character; zero for anything else.
pub open spec fn digit_val(c: char) -> nat {
    if is_ascii_digit(c) {
        (c as u32 - 48) as nat
    } else {
        0
    }
}

/// Decimal value of a digit string, most significant first.
pub open spec fn dec_value(s: Seq<char>) -> nat
    decreases s.len(),
{
    if s.len() == 0 {
        0
    } else {
        dec_value(s.drop_last()) * 10 + digit_val(s.last())
    }
}

/// Every character is a decimal digit.
pub open spec fn all_digits(s: Seq<char>) -> bool {
    forall|i: int| 0 <= i < s.len() ==> is_ascii_digit(#[trigger] s[i])
}

proof fn lemma_dec_value_prefix_le(s: Seq<char>, i: int)
    requires
        0 <= i <= s.len(),
    ensures
        dec_value(s.take(i)) <= dec_value(s),
    decreases s.len(),
{
    if i < s.len() && s.len() > 0 {
        assert(s.take(i) =~= s.drop_last().take(i));
        lemma_dec_value_prefix_le(s.drop_last(), i);
        assert(dec_value(s.drop_last()) * 10 >= dec_value(s.drop_last()));
    } else {
        assert(s.take(i) =~= s);
    }
}

/// Parse a decimal number. The result exists exactly for non-empty digit
/// strings whose value fits.
pub fn parse_u32(v: &Vec<char>) -> (r: Option<u32>)
    ensures
        r is Some <==> (v@.len() > 0 && all_digits(v@) && dec_value(v@) <= u32::MAX),
        r matches Some(n) ==> n == dec_value(v@),
{
    if v.len() == 0 {
        return None;
    }
    let n = v.len();
    let mut acc: u64 = 0;
    let mut i: usize = 0;
    proof {
        assert(v@.take(0) =~= Seq::<char>::empty());
    }
    while i < n
        invariant
            i <= n,
            n == v@.len(),
            acc <= u32::MAX,
            acc == dec_value(v@.take(i as int)),
            all_digits(v@.take(i as int)),
        decreases n - i,
    {
        let c = v[i];
        let u = c as u32;
        if !(48 <= u && u <= 57) {
            proof {
                assert(!is_ascii_digit(v@[i as int]));
            }
            return None;
        }
        let d = (u - 48) as u64;
        let next = acc * 10 + d;
        proof {
            assert(v@.take((i + 1) as int).drop_last() =~= v@.take(i as int));
            assert(v@.take((i + 1) as int).last() == v@[i as int]);
            assert(next == dec_value(v@.take((i + 1) as int)));
            assert forall|m: int| 0 <= m < i + 1 implies is_ascii_digit(
                #[trigger] v@.take((i + 1) as int)[m],
            ) by {
                if m < i {
                    assert(v@.take(i as int)[m] == v@.take((i + 1) as int)[m]);
                }
            }
        }
        if next > u32::MAX as u64 {
            proof {
                lemma_dec_value_prefix_le(v@, i + 1);
            }
            return None;
        }
        acc = next;
        i = i + 1;
    }
    proof {
        assert(v@.take(n as int) =~= v@);
    }
    Some(acc as u32)
}

/// What the two counters of a left-right rev-list output parse to: exactly
/// two whitespace-separated decimal fields, each in range.
pub open spec fn spec_parse_counts(s: Seq<char>) -> Option<(u32, u32)> {
    let toks = spec_split_ws(s);
    if toks.len() == 2 && toks[0].len() > 0 && all_digits(toks[0]) && dec_value(toks[0])
        <= u32::MAX && toks[1].len() > 0 && all_digits(toks[1]) && dec_value(toks[1]) <= u32::MAX {
        Some((dec_value(toks[0]) as u32, dec_value(toks[1]) as u32))
    } else {
        None
    }
}

/// Parse the output of a left-right, counted rev-list: the commits only in
/// the left tip, then the commits only in the right tip.
pub fn parse_left_right_counts(s: &str) -> (r: Option<(u32, u32)>)
    ensures
        r == spec_parse_counts(s@),
{
    let v = chars_vec(s);
    let tokens = split_ws_chars(&v);
    if tokens.len() != 2 {
        return None;
    }
    proof {
        assert(tokens.deep_view()[0] =~= tokens@[0]@);
        assert(tokens.deep_view()[1] =~= tokens@[1]@);
    }
    let left = parse_u32(&tokens[0]);
    let right = parse_u32(&tokens[1]);
    match (left, right) {
        (Some(a), Some(b)) => Some((a, b)),
        _ => None,
    }
}

/// Lines of a porcelain status that are not untracked entries.
pub open spec fn spec_count_uncommitted(ls: Seq<Seq<char>>) -> nat
    decreases ls.len(),
{
    if ls.len() == 0 {
        0
    } else {
        (if !has_prefix(ls[0], "??"@) {
            1 as nat
        } else {
            0 as nat
        }) + spec_count_uncommitted(ls.drop_first())
    }
}

/// Lines of a porcelain status that are untracked entries.
pub open spec fn spec_count_untracked(ls: Seq<Seq<char>>) -> nat
    decreases ls.len(),
{
    if ls.len() == 0 {
        0
    } else {
        (if has_prefix(ls[0], "??"@) {
            1 as nat
        } else {
            0 as nat
        }) + spec_count_untracked(ls.drop_first())
    }
}

/// Summarize a porcelain status output: whether anything is dirty, how many
/// lines are tracked changes, and how many are untracked files.
pub fn porcelain_summary(s: &str) -> (r: (bool, usize, usize))
    ensures
        r.0 == (split_lines(s@).len() > 0),
        r.1 == spec_count_uncommitted(split_lines(s@)),
        r.2 == spec_count_untracked(split_lines(s@)),
{
    let v = chars_vec(s);
    let lines = split_lines_chars(&v);
    let ghost ls = lines.deep_view();
    let marker = chars_vec("??");
    let mut uncommitted: usize = 0;
    let mut untracked: usize = 0;
    proof {
        assert(ls.skip(0) =~= ls);
    }
    let mut i: usize = 0;
    while i < lines.len()
        invariant
            i <= lines@.len(),
            ls == lines.deep_view(),
            marker@ == "??"@,
            uncommitted + untracked == i,
            uncommitted + spec_count_uncommitted(ls.skip(i as int)) == spec_count_uncommitted(ls),
            untracked + spec_count_untracked(ls.skip(i as int)) == spec_count_untracked(ls),
        decreases lines@.len() - i,
    {
        proof {
            assert(ls.skip(i as int)[0] =~= ls[i as int]);
            assert(ls[i as int] =~= lines@[i as int]@);
            assert(ls.skip(i as int).drop_first() =~= ls.skip((i + 1) as int));
        }
        if starts_with_chars(&lines[i], &marker) {
            untracked = untracked + 1;
        } else {
            uncommitted = uncommitted + 1;
        }
        i = i + 1;
    }
    proof {
        assert(ls.skip(lines@.len() as int) =~= Seq::<Seq<char>>::empty());
    }
    (lines.len() > 0, uncommitted, untracked)
}

/// A failed pull whose error output mentions a conflict or an impossible
/// rebase is a conflict the user must resolve; anything else is an internal
/// failure.
pub fn pull_failure_is_conflict(stderr: &str) -> (r: bool)
    ensures
        r == (contains_seq(stderr@, "conflict"@) || contains_seq(stderr@, "Cannot rebase"@)),
{
    let v = chars_vec(stderr);
    let conflict = chars_vec("conflict");
    let rebase = chars_vec("Cannot rebase");
    contains_chars(&v, &conflict) || contains_chars(&v, &rebase)
}

} // verus!
