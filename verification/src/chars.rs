//! Character classes and trimming over sequences of characters.

use vstd::prelude::*;

verus! {

/// Whether `c` is white space as Unicode defines it (`White_Space`).
pub open spec fn is_space(c: char) -> bool {
    ||| c == ' '
    ||| ('\u{9}' <= c && c <= '\u{d}')
    ||| c == '\u{85}'
    ||| c == '\u{a0}'
    ||| c == '\u{1680}'
    ||| ('\u{2000}' <= c && c <= '\u{200a}')
    ||| c == '\u{2028}'
    ||| c == '\u{2029}'
    ||| c == '\u{202f}'
    ||| c == '\u{205f}'
    ||| c == '\u{3000}'
}

/// Tells whether `c` is white space.
pub fn char_is_space(c: char) -> (b: bool)
    ensures
        b == is_space(c),
{
    c == ' ' || ('\u{9}' <= c && c <= '\u{d}') || c == '\u{85}' || c == '\u{a0}' || c == '\u{1680}'
        || ('\u{2000}' <= c && c <= '\u{200a}') || c == '\u{2028}' || c == '\u{2029}' || c
        == '\u{202f}' || c == '\u{205f}' || c == '\u{3000}'
}

/// The texts of a sequence of strings.
pub open spec fn texts(v: Seq<String>) -> Seq<Seq<char>> {
    v.map_values(|s: String| s@)
}

/// The characters of `s`, in order.
pub fn to_chars(s: &str) -> (v: Vec<char>)
    ensures
        v@ == s@,
{
    let mut v: Vec<char> = Vec::new();
    for c in it: s.chars()
        invariant
            it.seq() == s@,
            v@ == s@.take(it.index() as int),
    {
        v.push(c);
    }
    v
}

/// The first index at or after `i` whose character is not white space, or the
/// length of `s` if there is none.
pub open spec fn skip_spaces(s: Seq<char>, i: int) -> int
    decreases s.len() - i,
{
    if 0 <= i < s.len() && is_space(s[i]) {
        skip_spaces(s, i + 1)
    } else {
        i
    }
}

/// The least end `e` with `lo <= e <= j` such that every character of `s` from
/// `e` up to `j` is white space.
pub open spec fn drop_spaces(s: Seq<char>, lo: int, j: int) -> int
    decreases j - lo,
{
    if lo < j <= s.len() && is_space(s[j - 1]) {
        drop_spaces(s, lo, j - 1)
    } else {
        j
    }
}

/// Where the trimmed text starts in `s`.
pub open spec fn trim_start(s: Seq<char>) -> int {
    skip_spaces(s, 0)
}

/// Where the trimmed text ends in `s`.
pub open spec fn trim_end(s: Seq<char>) -> int {
    drop_spaces(s, trim_start(s), s.len() as int)
}

/// `s` without its leading and trailing white space.
pub open spec fn trimmed(s: Seq<char>) -> Seq<char> {
    s.subrange(trim_start(s), trim_end(s))
}

/// `skip_spaces` stays within the sequence and never moves backwards.
pub proof fn lemma_skip_spaces_bounds(s: Seq<char>, i: int)
    requires
        0 <= i <= s.len(),
    ensures
        i <= skip_spaces(s, i) <= s.len(),
        forall|k: int| i <= k < skip_spaces(s, i) ==> is_space(#[trigger] s[k]),
        skip_spaces(s, i) < s.len() ==> !is_space(s[skip_spaces(s, i)]),
    decreases s.len() - i,
{
    if i < s.len() && is_space(s[i]) {
        lemma_skip_spaces_bounds(s, i + 1);
    }
}

/// `drop_spaces` stays between its lower bound and its starting point.
pub proof fn lemma_drop_spaces_bounds(s: Seq<char>, lo: int, j: int)
    requires
        0 <= lo <= j <= s.len(),
    ensures
        lo <= drop_spaces(s, lo, j) <= j,
        forall|k: int| drop_spaces(s, lo, j) <= k < j ==> is_space(#[trigger] s[k]),
        lo < drop_spaces(s, lo, j) ==> !is_space(s[drop_spaces(s, lo, j) - 1]),
    decreases j - lo,
{
    if lo < j && is_space(s[j - 1]) {
        lemma_drop_spaces_bounds(s, lo, j - 1);
    }
}

/// The bounds of the trimmed text lie in order within the sequence.
pub proof fn lemma_trim_bounds(s: Seq<char>)
    ensures
        0 <= trim_start(s) <= trim_end(s) <= s.len(),
        trimmed(s).len() == trim_end(s) - trim_start(s),
{
    lemma_skip_spaces_bounds(s, 0);
    lemma_drop_spaces_bounds(s, trim_start(s), s.len() as int);
}

/// The trimmed text neither starts nor ends with white space, and what was
/// cut off on either side is white space only.
pub proof fn lemma_trimmed_is_tight(s: Seq<char>)
    ensures
        trimmed(s).len() > 0 ==> !is_space(trimmed(s).first()) && !is_space(trimmed(s).last()),
        forall|k: int| 0 <= k < trim_start(s) ==> is_space(#[trigger] s[k]),
        forall|k: int| trim_end(s) <= k < s.len() ==> is_space(#[trigger] s[k]),
{
    lemma_trim_bounds(s);
    lemma_skip_spaces_bounds(s, 0);
    lemma_drop_spaces_bounds(s, trim_start(s), s.len() as int);
}

/// Removes leading and trailing white space.
pub fn trim(s: &str) -> (r: &str)
    ensures
        r@ == trimmed(s@),
{
    let cs = to_chars(s);
    let n: usize = cs.len();
    let mut a: usize = 0;
    while a < n && char_is_space(cs[a])
        invariant
            n == cs.len(),
            a <= n,
            skip_spaces(cs@, a as int) == skip_spaces(cs@, 0),
        decreases n - a,
    {
        a += 1;
    }
    let mut b: usize = n;
    while a < b && char_is_space(cs[b - 1])
        invariant
            n == cs.len(),
            a <= b <= n,
            drop_spaces(cs@, a as int, b as int) == drop_spaces(cs@, a as int, n as int),
        decreases b - a,
    {
        b -= 1;
    }
    s.substring_char(a, b)
}

} // verus!
