//! The shape of a type signature: a plain name, or an outer name followed by
//! one bracketed, comma-separated argument list.

use crate::chars::{texts, to_chars, trim, trimmed};
use vstd::prelude::*;

verus! {

/// What one character adds to the bracket depth.
pub open spec fn bracket_step(c: char) -> int {
    if c == '<' {
        1
    } else if c == '>' {
        -1
    } else {
        0
    }
}

/// Opening minus closing angle brackets among the first `i` characters of `s`.
pub open spec fn depth(s: Seq<char>, i: int) -> int
    decreases i,
{
    if i <= 0 || i > s.len() {
        0
    } else {
        depth(s, i - 1) + bracket_step(s[i - 1])
    }
}

/// The first index at or after `i` that holds an angle bracket, or the length
/// of `s` if there is none.
pub open spec fn first_bracket(s: Seq<char>, i: int) -> int
    decreases s.len() - i,
{
    if 0 <= i < s.len() && s[i] != '<' && s[i] != '>' {
        first_bracket(s, i + 1)
    } else {
        i
    }
}

/// Where the argument list of `t` opens.
pub open spec fn open_index(t: Seq<char>) -> int {
    first_bracket(t, 0)
}

/// Whether `t` reads `Outer<...>`: a non-empty outer part without brackets, an
/// opening bracket, and brackets that balance so that the one opened first is
/// closed by the last character and not before.
pub open spec fn is_parameterized(t: Seq<char>) -> bool {
    let p = open_index(t);
    &&& 0 < p < t.len()
    &&& t[p] == '<'
    &&& forall|k: int| p < k < t.len() ==> #[trigger] depth(t, k) >= 1
    &&& depth(t, t.len() as int) == 0
}

/// The first index `k` with `i <= k < end` that holds a comma directly inside
/// the outer brackets, or `end` if there is none.
pub open spec fn next_top_comma(t: Seq<char>, i: int, end: int) -> int
    decreases end - i,
{
    if i >= end {
        end
    } else if t[i] == ',' && depth(t, i) == 1 {
        i
    } else {
        next_top_comma(t, i + 1, end)
    }
}

/// The trimmed pieces of `t` between `from` and `end`, cut at the commas that
/// stand directly inside the outer brackets.
pub open spec fn arguments_from(t: Seq<char>, from: int, end: int) -> Seq<Seq<char>>
    decreases end - from,
{
    if from > end {
        seq![]
    } else {
        let k = next_top_comma(t, from, end);
        let piece = trimmed(t.subrange(from, k));
        if from <= k < end {
            seq![piece] + arguments_from(t, k + 1, end)
        } else {
            seq![piece]
        }
    }
}

/// The name a signature refers to when it is a direct reference.
pub open spec fn whole_name(sig: Seq<char>) -> Seq<char> {
    trimmed(sig)
}

/// The trimmed arguments of a parameterized signature, in the order written;
/// empty for every other signature.
pub open spec fn arguments(sig: Seq<char>) -> Seq<Seq<char>> {
    let t = trimmed(sig);
    if is_parameterized(t) {
        arguments_from(t, open_index(t) + 1, t.len() - 1)
    } else {
        seq![]
    }
}

/// `first_bracket` stays within the sequence; nothing before it is a bracket.
pub proof fn lemma_first_bracket(s: Seq<char>, i: int)
    requires
        0 <= i <= s.len(),
    ensures
        i <= first_bracket(s, i) <= s.len(),
        forall|k: int| i <= k < first_bracket(s, i) ==> bracket_step(#[trigger] s[k]) == 0,
        first_bracket(s, i) < s.len() ==> bracket_step(s[first_bracket(s, i)]) != 0,
    decreases s.len() - i,
{
    if i < s.len() && s[i] != '<' && s[i] != '>' {
        lemma_first_bracket(s, i + 1);
    }
}

/// The depth is zero as long as no bracket has been read.
pub proof fn lemma_depth_before_brackets(s: Seq<char>, i: int)
    requires
        0 <= i <= first_bracket(s, 0) <= s.len(),
    ensures
        depth(s, i) == 0,
    decreases i,
{
    if i > 0 {
        lemma_first_bracket(s, 0);
        lemma_depth_before_brackets(s, i - 1);
    }
}

/// Finds where the first angle bracket of `cs` stands.
fn find_bracket(cs: &Vec<char>) -> (p: usize)
    ensures
        p == open_index(cs@),
        p <= cs.len(),
{
    let n: usize = cs.len();
    let mut p: usize = 0;
    while p < n && cs[p] != '<' && cs[p] != '>'
        invariant
            n == cs.len(),
            p <= n,
            first_bracket(cs@, p as int) == first_bracket(cs@, 0),
        decreases n - p,
    {
        p += 1;
    }
    p
}

/// Tells whether the brackets after the opening one at `p` balance, the first
/// being closed by the last character and not before.
fn brackets_close(cs: &Vec<char>, p: usize) -> (ok: bool)
    requires
        p < cs.len(),
        depth(cs@, p as int) == 0,
        cs[p as int] == '<',
    ensures
        ok == ((forall|k: int| p < k < cs.len() ==> #[trigger] depth(cs@, k) >= 1) && depth(
            cs@,
            cs.len() as int,
        ) == 0),
{
    let n: usize = cs.len();
    let mut k: usize = p + 1;
    let mut d: usize = 1;
    while k < n
        invariant
            n == cs.len(),
            p < k <= n,
            d == depth(cs@, k as int),
            1 <= d <= k,
            forall|j: int| p < j <= k ==> #[trigger] depth(cs@, j) >= 1,
        decreases n - k,
    {
        let c = cs[k];
        assert(depth(cs@, k + 1) == depth(cs@, k as int) + bracket_step(c));
        if c == '<' {
            d += 1;
        } else if c == '>' {
            d -= 1;
        }
        k += 1;
        if d == 0 {
            return k == n;
        }
    }
    false
}

/// Cuts the argument list that opens at `p` into its trimmed arguments.
fn split_arguments(t: &str, cs: &Vec<char>, p: usize) -> (out: Vec<String>)
    requires
        cs@ == t@,
        p + 1 < cs.len(),
        depth(cs@, p + 1) == 1,
        forall|k: int| p < k < cs.len() ==> #[trigger] depth(cs@, k) >= 1,
    ensures
        texts(out@) == arguments_from(t@, p + 1, cs.len() - 1),
{
    let end: usize = cs.len() - 1;
    let mut out: Vec<String> = Vec::new();
    let mut from: usize = p + 1;
    let mut done = false;
    while !done
        invariant
            cs@ == t@,
            end == cs.len() - 1,
            p < from <= end,
            forall|k: int| p < k < cs.len() ==> #[trigger] depth(cs@, k) >= 1,
            depth(cs@, from as int) == 1,
            !done ==> arguments_from(t@, p + 1, end as int) == texts(out@) + arguments_from(
                t@,
                from as int,
                end as int,
            ),
            done ==> arguments_from(t@, p + 1, end as int) == texts(out@),
        decreases end - from + (if done { 0int } else { 1int }),
    {
        let mut k: usize = from;
        let mut d: usize = 1;
        while k < end && !(cs[k] == ',' && d == 1)
            invariant
                end == cs.len() - 1,
                p < from <= k <= end,
                forall|j: int| p < j < cs.len() ==> #[trigger] depth(cs@, j) >= 1,
                d == depth(cs@, k as int),
                1 <= d <= k,
                next_top_comma(cs@, k as int, end as int) == next_top_comma(
                    cs@,
                    from as int,
                    end as int,
                ),
            decreases end - k,
        {
            let c = cs[k];
            assert(depth(cs@, k + 1) == depth(cs@, k as int) + bracket_step(c));
            if c == '<' {
                d += 1;
            } else if c == '>' {
                d -= 1;
            }
            k += 1;
        }
        let piece = trim(t.substring_char(from, k)).to_owned();
        let ghost before = texts(out@);
        out.push(piece);
        if k < end {
            assert(arguments_from(t@, from as int, end as int) == seq![piece@] + arguments_from(
                t@,
                k + 1,
                end as int,
            ));
            assert(texts(out@) + arguments_from(t@, k + 1, end as int) =~= before + (seq![piece@]
                + arguments_from(t@, k + 1, end as int)));
            from = k + 1;
        } else {
            done = true;
        }
    }
    out
}

/// The trimmed arguments of a parameterized signature, in the order written;
/// empty for every other signature.
pub fn parse_arguments(sig: &str) -> (out: Vec<String>)
    ensures
        texts(out@) == arguments(sig@),
{
    let t = trim(sig);
    let cs = to_chars(t);
    let p = find_bracket(&cs);
    proof {
        lemma_first_bracket(cs@, 0);
        lemma_depth_before_brackets(cs@, p as int);
    }
    if 0 < p && p < cs.len() && cs[p] == '<' && brackets_close(&cs, p) {
        split_arguments(t, &cs, p)
    } else {
        Vec::new()
    }
}

} // verus!
