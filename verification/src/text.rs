//! Character-sequence utilities shared by the text-processing parts of the
//! library. All executable functions work on `Vec<char>` and are specified
//! against `Seq<char>` models.

use vstd::prelude::*;

verus! {

/// Whitespace as the sanitizers understand it.
pub open spec fn is_blank(c: char) -> bool {
    c == ' ' || c == '\t' || c == '\r' || c == '\n'
}

/// Executable counterpart of [`is_blank`].
pub fn blank_char(c: char) -> (r: bool)
    ensures
        r == is_blank(c),
{
    c == ' ' || c == '\t' || c == '\r' || c == '\n'
}

pub open spec fn trim_start_spec(s: Seq<char>) -> Seq<char>
    decreases s.len(),
{
    if s.len() > 0 && is_blank(s[0]) {
        trim_start_spec(s.drop_first())
    } else {
        s
    }
}

pub open spec fn trim_end_spec(s: Seq<char>) -> Seq<char>
    decreases s.len(),
{
    if s.len() > 0 && is_blank(s.last()) {
        trim_end_spec(s.drop_last())
    } else {
        s
    }
}

/// Both ends trimmed of whitespace.
pub open spec fn trim_spec(s: Seq<char>) -> Seq<char> {
    trim_end_spec(trim_start_spec(s))
}

/// Copy of `v[from..to]`.
pub fn subrange_chars(v: &Vec<char>, from: usize, to: usize) -> (r: Vec<char>)
    requires
        from <= to <= v@.len(),
    ensures
        r@ == v@.subrange(from as int, to as int),
{
    let mut r: Vec<char> = Vec::new();
    let mut k: usize = from;
    while k < to
        invariant
            from <= k <= to <= v@.len(),
            r@ == v@.subrange(from as int, k as int),
        decreases to - k,
    {
        r.push(v[k]);
        proof {
            assert(v@.subrange(from as int, (k + 1) as int) == v@.subrange(
                from as int,
                k as int,
            ).push(v@[k as int]));
        }
        k = k + 1;
    }
    r
}

/// Trim whitespace from both ends.
pub fn trim_chars(v: &Vec<char>) -> (r: Vec<char>)
    ensures
        r@ == trim_spec(v@),
{
    let n = v.len();
    proof {
        assert(v@.subrange(0, n as int) =~= v@);
    }
    let mut i: usize = 0;
    while i < n && blank_char(v[i])
        invariant
            i <= n,
            n == v@.len(),
            trim_start_spec(v@) == trim_start_spec(v@.subrange(i as int, n as int)),
        decreases n - i,
    {
        proof {
            assert(v@.subrange(i as int, n as int).drop_first() =~= v@.subrange(
                (i + 1) as int,
                n as int,
            ));
        }
        i = i + 1;
    }
    proof {
        assert(trim_start_spec(v@) =~= v@.subrange(i as int, n as int));
    }
    let mut j: usize = n;
    while j > i && blank_char(v[j - 1])
        invariant
            i <= j <= n,
            n == v@.len(),
            trim_start_spec(v@) == v@.subrange(i as int, n as int),
            trim_end_spec(v@.subrange(i as int, n as int)) == trim_end_spec(
                v@.subrange(i as int, j as int),
            ),
        decreases j,
    {
        proof {
            assert(v@.subrange(i as int, j as int).drop_last() =~= v@.subrange(
                i as int,
                (j - 1) as int,
            ));
        }
        j = j - 1;
    }
    proof {
        assert(trim_end_spec(v@.subrange(i as int, j as int)) =~= v@.subrange(i as int, j as int));
    }
    subrange_chars(v, i, j)
}

/// `p` is a prefix of `s`.
pub open spec fn has_prefix(s: Seq<char>, p: Seq<char>) -> bool {
    p.len() <= s.len() && s.subrange(0, p.len() as int) == p
}

/// `p` is a suffix of `s`.
pub open spec fn has_suffix(s: Seq<char>, p: Seq<char>) -> bool {
    p.len() <= s.len() && s.subrange(s.len() - p.len(), s.len() as int) == p
}

pub fn starts_with_chars(v: &Vec<char>, p: &Vec<char>) -> (r: bool)
    ensures
        r == has_prefix(v@, p@),
{
    if p.len() > v.len() {
        proof {
            assert(!has_prefix(v@, p@));
        }
        return false;
    }
    let mut k: usize = 0;
    while k < p.len()
        invariant
            k <= p@.len() <= v@.len(),
            forall|m: int| 0 <= m < k ==> v@[m] == p@[m],
        decreases p@.len() - k,
    {
        if v[k] != p[k] {
            proof {
                assert(v@.subrange(0, p@.len() as int)[k as int] == v@[k as int]);
                assert(!has_prefix(v@, p@));
            }
            return false;
        }
        k = k + 1;
    }
    proof {
        assert(v@.subrange(0, p@.len() as int) =~= p@);
    }
    true
}

pub fn ends_with_chars(v: &Vec<char>, p: &Vec<char>) -> (r: bool)
    ensures
        r == has_suffix(v@, p@),
{
    if p.len() > v.len() {
        proof {
            assert(!has_suffix(v@, p@));
        }
        return false;
    }
    let nv = v.len();
    let off = nv - p.len();
    let mut k: usize = 0;
    while k < p.len()
        invariant
            k <= p@.len() <= v@.len(),
            nv == v@.len(),
            off == v@.len() - p@.len(),
            forall|m: int| 0 <= m < k ==> v@[off + m] == p@[m],
        decreases p@.len() - k,
    {
        if v[off + k] != p[k] {
            proof {
                assert(v@.subrange(v@.len() - p@.len(), v@.len() as int)[k as int] == v@[off + k]);
                assert(!has_suffix(v@, p@));
            }
            return false;
        }
        k = k + 1;
    }
    proof {
        assert(v@.subrange(v@.len() - p@.len(), v@.len() as int) =~= p@);
    }
    true
}

/// Character-for-character equality.
pub fn eq_chars(a: &Vec<char>, b: &Vec<char>) -> (r: bool)
    ensures
        r == (a@ == b@),
{
    if a.len() != b.len() {
        return false;
    }
    let mut k: usize = 0;
    while k < a.len()
        invariant
            k <= a@.len() == b@.len(),
            forall|m: int| 0 <= m < k ==> a@[m] == b@[m],
        decreases a@.len() - k,
    {
        if a[k] != b[k] {
            return false;
        }
        k = k + 1;
    }
    proof {
        assert(a@ =~= b@);
    }
    true
}

/// Index of the first line feed in `s`, or `s.len()` if there is none.
pub open spec fn first_nl(s: Seq<char>) -> int
    decreases s.len(),
{
    if s.len() == 0 {
        0
    } else if s[0] == '\n' {
        0
    } else {
        1 + first_nl(s.drop_first())
    }
}

pub proof fn lemma_first_nl_at(s: Seq<char>, k: int)
    requires
        0 <= k <= s.len(),
        forall|m: int| 0 <= m < k ==> s[m] != '\n',
        k == s.len() || s[k] == '\n',
    ensures
        first_nl(s) == k,
    decreases k,
{
    if k == 0 {
        if s.len() > 0 {
            assert(s[0] == '\n');
        }
    } else {
        assert(s[0] != '\n');
        lemma_first_nl_at(s.drop_first(), k - 1);
    }
}

/// A line terminated by a line feed also loses one trailing carriage return.
pub open spec fn strip_cr(l: Seq<char>) -> Seq<char> {
    if l.len() > 0 && l.last() == '\r' {
        l.drop_last()
    } else {
        l
    }
}

/// The first line of `s`, with the semantics of `str::lines`: the text up to
/// the first line feed; if that line feed exists, one trailing carriage
/// return is dropped too.
pub open spec fn first_line(s: Seq<char>) -> Seq<char> {
    let i = first_nl(s);
    if i < s.len() {
        strip_cr(s.take(i))
    } else {
        s
    }
}

/// All lines of `s`, with the semantics of `str::lines`.
pub open spec fn split_lines(s: Seq<char>) -> Seq<Seq<char>>
    decreases s.len(),
{
    if s.len() == 0 {
        Seq::empty()
    } else {
        let i = first_nl(s);
        if 0 <= i && i < s.len() {
            seq![strip_cr(s.take(i))] + split_lines(s.skip(i + 1))
        } else {
            seq![s]
        }
    }
}


/// Find the first line feed at or after `start`.
pub fn find_nl(v: &Vec<char>, start: usize) -> (r: usize)
    requires
        start <= v@.len(),
    ensures
        start <= r <= v@.len(),
        r - start == first_nl(v@.skip(start as int)),
        forall|m: int| start <= m < r ==> v@[m] != '\n',
        r < v@.len() ==> v@[r as int] == '\n',
    decreases v@.len() - start,
{
    let n = v.len();
    let mut k: usize = start;
    while k < n && v[k] != '\n'
        invariant
            start <= k <= n,
            n == v@.len(),
            forall|m: int| start <= m < k ==> v@[m] != '\n',
        decreases n - k,
    {
        k = k + 1;
    }
    proof {
        let tail = v@.skip(start as int);
        assert(forall|m: int| 0 <= m < k - start ==> tail[m] == v@[m + start] && tail[m] != '\n');
        if k < n {
            assert(tail[k - start] == '\n');
        }
        lemma_first_nl_at(tail, k - start);
    }
    k
}

/// Copy of the first line of `v`.
pub fn first_line_chars(v: &Vec<char>) -> (r: Vec<char>)
    ensures
        r@ == first_line(v@),
{
    let n = v.len();
    let k = find_nl(v, 0);
    proof {
        assert(v@.skip(0) =~= v@);
    }
    if k < n {
        let mut end = k;
        if end > 0 && v[end - 1] == '\r' {
            end = end - 1;
        }
        proof {
            assert(v@.take(k as int) =~= v@.subrange(0, k as int));
            if k > 0 && v@[k - 1] == '\r' {
                assert(v@.take(k as int).last() == v@[k - 1]);
                assert(v@.take(k as int).drop_last() =~= v@.subrange(0, end as int));
            }
        }
        subrange_chars(v, 0, end)
    } else {
        proof {
            assert(v@.subrange(0, n as int) =~= v@);
        }
        subrange_chars(v, 0, n)
    }
}

proof fn lemma_split_lines_step(s: Seq<char>, i: int)
    requires
        0 <= i < s.len(),
        forall|m: int| 0 <= m < i ==> s[m] != '\n',
        s[i] == '\n',
    ensures
        split_lines(s) == seq![strip_cr(s.take(i))] + split_lines(s.skip(i + 1)),
{
    lemma_first_nl_at(s, i);
}

proof fn lemma_split_lines_whole(s: Seq<char>)
    requires
        s.len() > 0,
        forall|m: int| 0 <= m < s.len() ==> s[m] != '\n',
    ensures
        split_lines(s) == seq![s],
{
    lemma_first_nl_at(s, s.len() as int);
}

/// Split `v` into its lines.
pub fn split_lines_chars(v: &Vec<char>) -> (r: Vec<Vec<char>>)
    ensures
        r.deep_view() == split_lines(v@),
{
    let n = v.len();
    let mut lines: Vec<Vec<char>> = Vec::new();
    proof {
        assert(v@.skip(0) =~= v@);
        assert(lines.deep_view() =~= Seq::<Seq<char>>::empty());
        assert(Seq::<Seq<char>>::empty() + split_lines(v@) =~= split_lines(v@));
    }
    let mut start: usize = 0;
    while start < n
        invariant
            start <= n,
            n == v@.len(),
            lines.deep_view() + split_lines(v@.skip(start as int)) == split_lines(v@),
        decreases n - start,
    {
        let ghost pre = lines.deep_view();
        let ghost tail = v@.skip(start as int);
        let k = find_nl(v, start);
        if k < n {
            let mut end = k;
            if end > start && v[end - 1] == '\r' {
                end = end - 1;
            }
            let line = subrange_chars(v, start, end);
            proof {
                assert forall|m: int| 0 <= m < k - start implies tail[m] != '\n' by {
                    assert(tail[m] == v@[m + start]);
                }
                assert(tail[k - start] == v@[k as int]);
                lemma_split_lines_step(tail, k - start);
                assert(tail.take(k - start) =~= v@.subrange(start as int, k as int));
                if k > start && v@[k - 1] == '\r' {
                    assert(tail.take(k - start).last() == v@[k - 1]);
                    assert(tail.take(k - start).drop_last() =~= v@.subrange(
                        start as int,
                        end as int,
                    ));
                } else {
                    assert(strip_cr(tail.take(k - start)) == tail.take(k - start));
                }
                assert(line@ == strip_cr(tail.take(k - start)));
                assert(tail.skip(k - start + 1) =~= v@.skip(k + 1));
            }
            lines.push(line);
            proof {
                assert(lines.deep_view() =~~= pre.push(line@));
                assert(pre.push(line@) + split_lines(v@.skip(k + 1)) =~= pre + (seq![line@]
                    + split_lines(v@.skip(k + 1))));
            }
            start = k + 1;
        } else {
            let line = subrange_chars(v, start, n);
            proof {
                assert forall|m: int| 0 <= m < tail.len() implies tail[m] != '\n' by {
                    assert(tail[m] == v@[m + start]);
                }
                lemma_split_lines_whole(tail);
                assert(line@ =~= tail);
                assert(lines.deep_view().push(line@) =~~= pre.push(line@));
                assert(pre.push(line@) =~= pre + seq![line@]);
                assert(v@.skip(n as int) =~= Seq::<char>::empty());
            }
            lines.push(line);
            start = n;
            proof {
                assert(lines.deep_view() =~~= pre.push(line@));
            }
        }
    }
    proof {
        assert(v@.skip(start as int) =~= Seq::<char>::empty());
        assert(lines.deep_view() + Seq::<Seq<char>>::empty() =~= lines.deep_view());
    }
    lines
}

/// Lines joined with a line feed between each pair.
pub open spec fn join_nl(lines: Seq<Seq<char>>) -> Seq<char>
    decreases lines.len(),
{
    if lines.len() == 0 {
        Seq::empty()
    } else if lines.len() == 1 {
        lines[0]
    } else {
        lines[0] + seq!['\n'] + join_nl(lines.drop_first())
    }
}

proof fn lemma_join_nl_push(lines: Seq<Seq<char>>, l: Seq<char>)
    ensures
        lines.len() == 0 ==> join_nl(lines.push(l)) == l,
        lines.len() > 0 ==> join_nl(lines.push(l)) == join_nl(lines) + seq!['\n'] + l,
    decreases lines.len(),
{
    if lines.len() == 0 {
        assert(lines.push(l)[0] == l);
    } else if lines.len() == 1 {
        assert(lines.push(l)[0] == lines[0]);
        assert(lines.push(l).drop_first() =~= seq![l]);
        assert(join_nl(seq![l]) == l);
    } else {
        assert(lines.push(l)[0] == lines[0]);
        assert(lines.push(l).drop_first() =~= lines.drop_first().push(l));
        lemma_join_nl_push(lines.drop_first(), l);
        assert(join_nl(lines.push(l)) == lines[0] + seq!['\n'] + join_nl(
            lines.drop_first().push(l),
        ));
        assert(lines[0] + seq!['\n'] + (join_nl(lines.drop_first()) + seq!['\n'] + l) =~= (lines[0]
            + seq!['\n'] + join_nl(lines.drop_first())) + seq!['\n'] + l);
    }
}

/// Join lines with a line feed between each pair.
pub fn join_lines(lines: &Vec<Vec<char>>) -> (r: Vec<char>)
    ensures
        r@ == join_nl(lines.deep_view()),
{
    let mut r: Vec<char> = Vec::new();
    let mut i: usize = 0;
    while i < lines.len()
        invariant
            i <= lines@.len(),
            r@ == join_nl(lines.deep_view().take(i as int)),
        decreases lines@.len() - i,
    {
        let ghost pre = lines.deep_view().take(i as int);
        if i > 0 {
            r.push('\n');
        }
        let mut k: usize = 0;
        let ghost base = r@;
        while k < lines[i].len()
            invariant
                i < lines@.len(),
                k <= lines@[i as int]@.len(),
                r@ == base + lines@[i as int]@.subrange(0, k as int),
            decreases lines@[i as int]@.len() - k,
        {
            r.push(lines[i][k]);
            proof {
                let li = lines@[i as int]@;
                assert(li.subrange(0, (k + 1) as int) =~= li.subrange(0, k as int).push(
                    li[k as int],
                ));
                assert(base + li.subrange(0, (k + 1) as int) =~= (base + li.subrange(
                    0,
                    k as int,
                )).push(li[k as int]));
            }
            k = k + 1;
        }
        proof {
            let l = lines.deep_view()[i as int];
            assert(l =~= lines@[i as int]@);
            assert(l.subrange(0, l.len() as int) =~= l);
            lemma_join_nl_push(pre, l);
            assert(lines.deep_view().take((i + 1) as int) =~= pre.push(l));
            if i == 0 {
                assert(pre.len() == 0);
                assert(base =~= Seq::<char>::empty());
                assert(r@ =~= l);
            } else {
                assert(pre.len() > 0);
                assert(base =~= join_nl(pre) + seq!['\n']);
                assert(r@ =~= join_nl(pre) + seq!['\n'] + l);
            }
        }
        i = i + 1;
    }
    proof {
        assert(lines.deep_view().take(lines@.len() as int) =~= lines.deep_view());
    }
    r
}

/// All trailing copies of `p` removed, with the semantics of
/// `str::trim_end_matches`.
pub open spec fn trim_end_matches_spec(s: Seq<char>, p: Seq<char>) -> Seq<char>
    decreases s.len(),
{
    if p.len() > 0 && has_suffix(s, p) {
        trim_end_matches_spec(s.take(s.len() - p.len()), p)
    } else {
        s
    }
}

/// Remove every trailing copy of `p`.
pub fn trim_end_matches_chars(v: &Vec<char>, p: &Vec<char>) -> (r: Vec<char>)
    ensures
        r@ == trim_end_matches_spec(v@, p@),
{
    let mut r = subrange_chars(v, 0, v.len());
    proof {
        assert(v@.subrange(0, v@.len() as int) =~= v@);
    }
    while p.len() > 0 && ends_with_chars(&r, p)
        invariant
            trim_end_matches_spec(r@, p@) == trim_end_matches_spec(v@, p@),
        decreases r@.len(),
    {
        let keep = r.len() - p.len();
        r.truncate(keep);
        proof {
            assert(r@ =~= r@.take(keep as int));
        }
    }
    r
}

/// All leading copies of `p` removed, with the semantics of
/// `str::trim_start_matches`.
pub open spec fn trim_start_matches_spec(s: Seq<char>, p: Seq<char>) -> Seq<char>
    decreases s.len(),
{
    if p.len() > 0 && has_prefix(s, p) {
        trim_start_matches_spec(s.skip(p.len() as int), p)
    } else {
        s
    }
}

/// Remove every leading copy of `p`.
pub fn trim_start_matches_chars(v: &Vec<char>, p: &Vec<char>) -> (r: Vec<char>)
    ensures
        r@ == trim_start_matches_spec(v@, p@),
{
    let mut start: usize = 0;
    let np = p.len();
    proof {
        assert(v@.skip(0) =~= v@);
    }
    loop
        invariant_except_break
            start <= v@.len(),
            np == p@.len(),
            trim_start_matches_spec(v@, p@) == trim_start_matches_spec(v@.skip(start as int), p@),
        ensures
            start <= v@.len(),
            trim_start_matches_spec(v@, p@) == v@.subrange(start as int, v@.len() as int),
        decreases v@.len() - start,
    {
        let tail = subrange_chars(v, start, v.len());
        if np == 0 || !starts_with_chars(&tail, p) {
            proof {
                assert(trim_start_matches_spec(v@.skip(start as int), p@) == v@.skip(start as int));
                assert(v@.skip(start as int) =~= v@.subrange(start as int, v@.len() as int));
            }
            break;
        }
        proof {
            assert(v@.skip(start as int).skip(np as int) =~= v@.skip((start + np) as int));
            assert(v@.skip(start as int).len() >= np);
        }
        start = start + np;
    }
    subrange_chars(v, start, v.len())
}

/// `n` occurs as a contiguous run inside `h`.
pub open spec fn contains_seq(h: Seq<char>, n: Seq<char>) -> bool {
    exists|i: int| 0 <= i <= h.len() - n.len() && #[trigger] h.subrange(i, i + n.len()) == n
}

/// Does `v[at .. at + p.len()]` equal `p`?
fn matches_at(v: &Vec<char>, p: &Vec<char>, at: usize) -> (r: bool)
    requires
        at + p@.len() <= v@.len(),
    ensures
        r == (v@.subrange(at as int, at + p@.len()) == p@),
{
    let np = p.len();
    let nv = v.len();
    let mut k: usize = 0;
    while k < np
        invariant
            k <= np == p@.len(),
            nv == v@.len(),
            at + np <= nv,
            forall|m: int| 0 <= m < k ==> v@[at + m] == p@[m],
        decreases np - k,
    {
        if v[at + k] != p[k] {
            proof {
                assert(v@.subrange(at as int, at + p@.len())[k as int] == v@[at + k]);
            }
            return false;
        }
        k = k + 1;
    }
    proof {
        assert(v@.subrange(at as int, at + p@.len()) =~= p@);
    }
    true
}

/// Substring search.
pub fn contains_chars(v: &Vec<char>, p: &Vec<char>) -> (r: bool)
    ensures
        r == contains_seq(v@, p@),
{
    if p.len() > v.len() {
        proof {
            assert(!contains_seq(v@, p@));
        }
        return false;
    }
    if p.len() == 0 {
        proof {
            assert(v@.subrange(0, 0 + p@.len() as int) =~= p@);
        }
        return true;
    }
    let nv = v.len();
    let np = p.len();
    let last = nv - np;
    let mut i: usize = 0;
    while i <= last
        invariant
            i <= last + 1,
            nv == v@.len(),
            np == p@.len(),
            1 <= np <= nv,
            last == nv - np,
            forall|m: int| 0 <= m < i ==> #[trigger] v@.subrange(m, m + p@.len()) != p@,
        decreases last - i + 1,
    {
        if matches_at(v, p, i) {
            proof {
                assert(v@.subrange(i as int, i as int + p@.len()) == p@);
            }
            return true;
        }
        i = i + 1;
    }
    false
}

/// Index of the first occurrence of `n` in `h`, or a negative value if
/// there is none.
pub open spec fn spec_find_sub(h: Seq<char>, n: Seq<char>) -> int
    decreases h.len(),
{
    if n.len() > h.len() {
        -1
    } else if h.take(n.len() as int) == n {
        0
    } else if h.len() == 0 {
        -1
    } else {
        let r = spec_find_sub(h.drop_first(), n);
        if r < 0 {
            -1
        } else {
            1 + r
        }
    }
}

proof fn lemma_find_sub_at(h: Seq<char>, n: Seq<char>, k: int)
    requires
        0 <= k,
        k + n.len() <= h.len(),
        h.subrange(k, k + n.len()) == n,
        forall|j: int| 0 <= j < k ==> #[trigger] h.subrange(j, j + n.len()) != n,
    ensures
        spec_find_sub(h, n) == k,
    decreases k,
{
    if k == 0 {
        assert(h.take(n.len() as int) =~= h.subrange(0, n.len() as int));
    } else {
        assert(h.subrange(0, 0 + n.len() as int) != n);
        assert(h.take(n.len() as int) =~= h.subrange(0, 0 + n.len() as int));
        let t = h.drop_first();
        assert(t.subrange(k - 1, k - 1 + n.len()) =~= h.subrange(k, k + n.len()));
        assert forall|j: int| 0 <= j < k - 1 implies #[trigger] t.subrange(j, j + n.len())
            != n by {
            assert(t.subrange(j, j + n.len()) =~= h.subrange(j + 1, j + 1 + n.len()));
            assert(h.subrange(j + 1, j + 1 + n.len()) != n);
        }
        lemma_find_sub_at(t, n, k - 1);
    }
}

proof fn lemma_find_sub_none(h: Seq<char>, n: Seq<char>)
    requires
        forall|j: int|
            0 <= j <= h.len() - n.len() ==> #[trigger] h.subrange(j, j + n.len()) != n,
    ensures
        spec_find_sub(h, n) < 0,
    decreases h.len(),
{
    if n.len() <= h.len() {
        assert(h.subrange(0, 0 + n.len() as int) != n);
        assert(h.take(n.len() as int) =~= h.subrange(0, 0 + n.len() as int));
        if h.len() > 0 {
            let t = h.drop_first();
            assert forall|j: int|
                0 <= j <= t.len() - n.len() implies #[trigger] t.subrange(j, j + n.len())
                != n by {
                assert(t.subrange(j, j + n.len()) =~= h.subrange(j + 1, j + 1 + n.len()));
                assert(h.subrange(j + 1, j + 1 + n.len()) != n);
            }
            lemma_find_sub_none(t, n);
        }
    }
}

/// Find the first occurrence of `p` in `v`.
pub fn find_first_match(v: &Vec<char>, p: &Vec<char>) -> (r: Option<usize>)
    ensures
        r matches Some(i) ==> i + p@.len() <= v@.len() && spec_find_sub(v@, p@) == i,
        r is None ==> spec_find_sub(v@, p@) < 0,
{
    if p.len() > v.len() {
        return None;
    }
    if p.len() == 0 {
        proof {
            assert(v@.take(0) =~= p@);
        }
        return Some(0);
    }
    let nv = v.len();
    let np = p.len();
    let last = nv - np;
    let mut i: usize = 0;
    while i <= last
        invariant
            i <= last + 1,
            nv == v@.len(),
            np == p@.len(),
            1 <= np <= nv,
            last == nv - np,
            forall|m: int| 0 <= m < i ==> #[trigger] v@.subrange(m, m + p@.len()) != p@,
        decreases last - i + 1,
    {
        if matches_at(v, p, i) {
            proof {
                assert(v@.subrange(i as int, i as int + p@.len()) == p@);
                lemma_find_sub_at(v@, p@, i as int);
            }
            return Some(i);
        }
        i = i + 1;
    }
    proof {
        lemma_find_sub_none(v@, p@);
    }
    None
}

/// `c` occurs in `s`.
pub open spec fn contains_char(s: Seq<char>, c: char) -> bool {
    exists|i: int| 0 <= i < s.len() && s[i] == c
}

pub fn contains_char_exec(v: &Vec<char>, c: char) -> (r: bool)
    ensures
        r == contains_char(v@, c),
{
    let mut i: usize = 0;
    while i < v.len()
        invariant
            i <= v@.len(),
            forall|m: int| 0 <= m < i ==> v@[m] != c,
        decreases v@.len() - i,
    {
        if v[i] == c {
            return true;
        }
        i = i + 1;
    }
    false
}

/// Bytes a character takes in UTF-8.
pub open spec fn utf8_len(c: char) -> nat {
    if (c as u32) < 0x80 {
        1
    } else if (c as u32) < 0x800 {
        2
    } else if (c as u32) < 0x10000 {
        3
    } else {
        4
    }
}

/// Byte length of `s` in UTF-8.
pub open spec fn byte_len(s: Seq<char>) -> nat
    decreases s.len(),
{
    if s.len() == 0 {
        0
    } else {
        utf8_len(s[0]) + byte_len(s.drop_first())
    }
}

proof fn lemma_byte_len_push(s: Seq<char>, c: char)
    ensures
        byte_len(s.push(c)) == byte_len(s) + utf8_len(c),
    decreases s.len(),
{
    if s.len() == 0 {
        assert(s.push(c)[0] == c);
        assert(s.push(c).drop_first() =~= Seq::<char>::empty());
        assert(byte_len(s.push(c)) == utf8_len(c) + byte_len(Seq::<char>::empty()));
    } else {
        assert(s.push(c)[0] == s[0]);
        assert(s.push(c).drop_first() =~= s.drop_first().push(c));
        lemma_byte_len_push(s.drop_first(), c);
        assert(byte_len(s.push(c)) == utf8_len(s[0]) + byte_len(s.drop_first().push(c)));
        assert(byte_len(s) == utf8_len(s[0]) + byte_len(s.drop_first()));
    }
}

fn utf8_len_exec(c: char) -> (r: usize)
    ensures
        r == utf8_len(c),
        1 <= r <= 4,
{
    let u = c as u32;
    if u < 0x80 {
        1
    } else if u < 0x800 {
        2
    } else if u < 0x10000 {
        3
    } else {
        4
    }
}

/// Byte length of `v`, saturated at `u64::MAX`.
pub open spec fn byte_len_sat(s: Seq<char>) -> nat {
    if byte_len(s) < u64::MAX {
        byte_len(s)
    } else {
        u64::MAX as nat
    }
}

pub fn byte_len_u64(v: &Vec<char>) -> (r: u64)
    ensures
        r as nat == byte_len_sat(v@),
{
    let mut acc: u64 = 0;
    let mut i: usize = 0;
    while i < v.len()
        invariant
            i <= v@.len(),
            acc as nat == byte_len_sat(v@.take(i as int)),
        decreases v@.len() - i,
    {
        let ghost pre = v@.take(i as int);
        let step = utf8_len_exec(v[i]) as u64;
        proof {
            lemma_byte_len_push(pre, v@[i as int]);
            assert(v@.take((i + 1) as int) =~= pre.push(v@[i as int]));
        }
        if acc <= u64::MAX - step {
            acc = acc + step;
        } else {
            acc = u64::MAX;
        }
        proof {
            if acc < u64::MAX {
                assert(byte_len(pre) < u64::MAX);
            }
        }
        i = i + 1;
    }
    proof {
        assert(v@.take(v@.len() as int) =~= v@);
    }
    acc
}

/// Decimal digits of `n`, most significant first.
pub open spec fn dec_digits(n: nat) -> Seq<char>
    decreases n,
{
    if n < 10 {
        seq![digit_char(n)]
    } else {
        dec_digits(n / 10) + seq![digit_char(n % 10)]
    }
}

pub open spec fn digit_char(d: nat) -> char {
    if d == 0 {
        '0'
    } else if d == 1 {
        '1'
    } else if d == 2 {
        '2'
    } else if d == 3 {
        '3'
    } else if d == 4 {
        '4'
    } else if d == 5 {
        '5'
    } else if d == 6 {
        '6'
    } else if d == 7 {
        '7'
    } else if d == 8 {
        '8'
    } else {
        '9'
    }
}

fn digit_char_exec(d: u64) -> (r: char)
    requires
        d < 10,
    ensures
        r == digit_char(d as nat),
{
    if d == 0 {
        '0'
    } else if d == 1 {
        '1'
    } else if d == 2 {
        '2'
    } else if d == 3 {
        '3'
    } else if d == 4 {
        '4'
    } else if d == 5 {
        '5'
    } else if d == 6 {
        '6'
    } else if d == 7 {
        '7'
    } else if d == 8 {
        '8'
    } else {
        '9'
    }
}

/// Decimal rendering of `n`.
pub fn u64_to_chars(n: u64) -> (r: Vec<char>)
    ensures
        r@ == dec_digits(n as nat),
    decreases n,
{
    if n < 10 {
        let mut r: Vec<char> = Vec::new();
        r.push(digit_char_exec(n));
        proof {
            assert(r@ =~= seq![digit_char(n as nat)]);
        }
        r
    } else {
        proof {
            assert(n / 10 < n) by (nonlinear_arith)
                requires
                    n >= 10,
            ;
        }
        let mut r = u64_to_chars(n / 10);
        r.push(digit_char_exec(n % 10));
        proof {
            assert((n as nat) / 10 == (n / 10) as nat);
            assert((n as nat) % 10 == (n % 10) as nat);
            assert(dec_digits((n / 10) as nat).push(digit_char((n % 10) as nat)) =~= dec_digits(
                (n / 10) as nat,
            ) + seq![digit_char((n % 10) as nat)]);
        }
        r
    }
}

/// The characters of `s` as a vector.
pub fn chars_vec(s: &str) -> (r: Vec<char>)
    ensures
        r@ == s@,
{
    let n = s.unicode_len();
    let mut r: Vec<char> = Vec::new();
    let mut i: usize = 0;
    while i < n
        invariant
            i <= n,
            n == s@.len(),
            r@ == s@.take(i as int),
        decreases n - i,
    {
        r.push(s.get_char(i));
        proof {
            assert(s@.take((i + 1) as int) =~= s@.take(i as int).push(s@[i as int]));
        }
        i = i + 1;
    }
    proof {
        assert(s@.take(n as int) =~= s@);
    }
    r
}

/// Copy of an optional string.
pub fn clone_opt_string(o: &Option<String>) -> (r: Option<String>)
    ensures
        r == *o,
{
    match o {
        Some(s) => Some(s.clone()),
        None => None,
    }
}

/// Relies on `core::iter::Iterator::collect`: collecting characters yields
/// the string consisting of exactly those characters, in order.
#[verifier::external_body]
pub fn string_from_chars(v: &Vec<char>) -> (r: String)
    ensures
        r@ == v@,
{
    v.iter().collect()
}

} // verus!
