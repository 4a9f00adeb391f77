//! Character-level helpers shared by the scanner and the parsers.
//!
//! A line is modelled as the sequence of its characters; positions are
//! character positions, never byte offsets.

use vstd::prelude::*;
use vstd::string::StrSliceExecFns;

verus! {

/// Whether `c` is white space: the Unicode `White_Space` code points.
pub open spec fn is_space(c: char) -> bool {
    ||| '\u{9}' <= c <= '\u{d}'
    ||| c == ' '
    ||| c == '\u{85}'
    ||| c == '\u{a0}'
    ||| c == '\u{1680}'
    ||| '\u{2000}' <= c <= '\u{200a}'
    ||| c == '\u{2028}'
    ||| c == '\u{2029}'
    ||| c == '\u{202f}'
    ||| c == '\u{205f}'
    ||| c == '\u{3000}'
}

/// Whether `c` is one of the ten ASCII digits.
pub open spec fn is_digit(c: char) -> bool {
    '0' <= c <= '9'
}

/// `s` without its leading white space.
pub open spec fn trim_start(s: Seq<char>) -> Seq<char>
    decreases s.len(),
{
    if s.len() > 0 && is_space(s[0]) {
        trim_start(s.drop_first())
    } else {
        s
    }
}

/// `s` without its trailing white space.
pub open spec fn trim_end(s: Seq<char>) -> Seq<char>
    decreases s.len(),
{
    if s.len() > 0 && is_space(s.last()) {
        trim_end(s.drop_last())
    } else {
        s
    }
}

/// `s` without its leading and trailing white space.
pub open spec fn trim(s: Seq<char>) -> Seq<char> {
    trim_end(trim_start(s))
}

/// The least position at or after `from` that holds `a` or `b`; the length
/// of `s` where there is none.
pub open spec fn find_either(s: Seq<char>, from: int, a: char, b: char) -> int
    decreases s.len() - from,
{
    if from < 0 || from >= s.len() {
        s.len() as int
    } else if s[from] == a || s[from] == b {
        from
    } else {
        find_either(s, from + 1, a, b)
    }
}

/// Whether `pat` stands in `s` at position `at`.
pub open spec fn occurs_at(s: Seq<char>, at: int, pat: Seq<char>) -> bool {
    &&& 0 <= at
    &&& at + pat.len() <= s.len()
    &&& s.subrange(at, at + pat.len()) == pat
}

/// The least position at or after `from` where `pat` stands; the length of
/// `s` where there is none.
pub open spec fn find_seq(s: Seq<char>, from: int, pat: Seq<char>) -> int
    decreases s.len() - from,
{
    if from < 0 || from >= s.len() {
        s.len() as int
    } else if occurs_at(s, from, pat) {
        from
    } else {
        find_seq(s, from + 1, pat)
    }
}

/// `find_either` returns the first match and nothing before it matches.
pub proof fn lemma_find_either_is_first(s: Seq<char>, from: int, a: char, b: char)
    requires
        0 <= from <= s.len(),
    ensures
        from <= find_either(s, from, a, b) <= s.len(),
        forall|k: int| from <= k < find_either(s, from, a, b) ==> s[k] != a && s[k] != b,
        find_either(s, from, a, b) < s.len() ==> {
            let r = find_either(s, from, a, b);
            s[r] == a || s[r] == b
        },
    decreases s.len() - from,
{
    if from < s.len() && !(s[from] == a || s[from] == b) {
        lemma_find_either_is_first(s, from + 1, a, b);
    }
}

/// `find_seq` returns the first occurrence and the pattern stands nowhere
/// before it.
pub proof fn lemma_find_seq_is_first(s: Seq<char>, from: int, pat: Seq<char>)
    requires
        0 <= from <= s.len(),
    ensures
        from <= find_seq(s, from, pat) <= s.len(),
        forall|k: int| from <= k < find_seq(s, from, pat) ==> !occurs_at(s, k, pat),
        find_seq(s, from, pat) < s.len() ==> occurs_at(s, find_seq(s, from, pat), pat),
    decreases s.len() - from,
{
    if from < s.len() && !occurs_at(s, from, pat) {
        lemma_find_seq_is_first(s, from + 1, pat);
    }
}

/// The characters of `s`, in order.
pub(crate) fn chars_of(s: &str) -> (v: Vec<char>)
    ensures
        v@ == s@,
{
    let mut v: Vec<char> = Vec::new();
    for c in it: s.chars()
        invariant
            it.seq() == s@,
            v@ == it.seq().take(it.index()),
    {
        v.push(c);
    }
    v
}

/// The part of `s` between two character positions.
pub(crate) fn slice_of<'a>(s: &'a str, from: usize, to: usize) -> (r: &'a str)
    requires
        from <= to <= s@.len(),
    ensures
        r@ == s@.subrange(from as int, to as int),
{
    s.substring_char(from, to)
}

/// Tests a character for white space.
pub(crate) fn is_whitespace(c: char) -> (r: bool)
    ensures
        r == is_space(c),
{
    ('\u{9}' <= c && c <= '\u{d}') || c == ' ' || c == '\u{85}' || c == '\u{a0}' || c == '\u{1680}'
        || ('\u{2000}' <= c && c <= '\u{200a}') || c == '\u{2028}' || c == '\u{2029}' || c
        == '\u{202f}' || c == '\u{205f}' || c == '\u{3000}'
}

/// Tests a character for an ASCII digit.
pub(crate) fn is_ascii_digit(c: char) -> (r: bool)
    ensures
        r == is_digit(c),
{
    '0' <= c && c <= '9'
}

/// Trims the part of `chars` between `from` and `to`: the bounds of what
/// is left.
pub(crate) fn trim_range(chars: &Vec<char>, from: usize, to: usize) -> (r: (usize, usize))
    requires
        from <= to <= chars.len(),
    ensures
        from <= r.0 <= r.1 <= to,
        chars@.subrange(r.0 as int, r.1 as int) == trim(chars@.subrange(from as int, to as int)),
{
    let mut lo: usize = from;
    while lo < to && is_whitespace(chars[lo])
        invariant
            from <= lo <= to <= chars.len(),
            trim_start(chars@.subrange(from as int, to as int)) == trim_start(
                chars@.subrange(lo as int, to as int),
            ),
        decreases to - lo,
    {
        assert(chars@.subrange(lo as int, to as int).drop_first() == chars@.subrange(
            lo as int + 1,
            to as int,
        ));
        lo = lo + 1;
    }
    let mut hi: usize = to;
    while lo < hi && is_whitespace(chars[hi - 1])
        invariant
            from <= lo <= hi <= to <= chars.len(),
            trim(chars@.subrange(from as int, to as int)) == trim_end(
                chars@.subrange(lo as int, hi as int),
            ),
        decreases hi - lo,
    {
        assert(chars@.subrange(lo as int, hi as int).drop_last() == chars@.subrange(
            lo as int,
            hi as int - 1,
        ));
        hi = hi - 1;
    }
    (lo, hi)
}

/// Searches `chars` from `from` on for the first `a` or `b`.
pub(crate) fn scan_for_either(chars: &Vec<char>, from: usize, a: char, b: char) -> (r: usize)
    requires
        from <= chars.len(),
    ensures
        r == find_either(chars@, from as int, a, b),
        from <= r <= chars.len(),
{
    let mut i: usize = from;
    while i < chars.len() && !(chars[i] == a || chars[i] == b)
        invariant
            from <= i <= chars.len(),
            find_either(chars@, from as int, a, b) == find_either(chars@, i as int, a, b),
        decreases chars.len() - i,
    {
        i = i + 1;
    }
    i
}

/// Tests whether `pat` stands in `chars` at `at`.
pub(crate) fn matches_at(chars: &Vec<char>, at: usize, pat: &Vec<char>) -> (r: bool)
    ensures
        r == occurs_at(chars@, at as int, pat@),
{
    if pat.len() > chars.len() || at > chars.len() - pat.len() {
        return false;
    }
    let mut k: usize = 0;
    while k < pat.len()
        invariant
            k <= pat.len(),
            at + pat.len() <= chars.len(),
            forall|j: int| 0 <= j < k ==> chars@[at + j] == pat@[j],
        decreases pat.len() - k,
    {
        if chars[at + k] != pat[k] {
            assert(chars@.subrange(at as int, at + pat.len())[k as int] != pat@[k as int]);
            return false;
        }
        k = k + 1;
    }
    assert(chars@.subrange(at as int, at + pat.len()) =~= pat@);
    true
}

/// Searches `chars` from `from` on for the first place where `pat` stands.
pub(crate) fn scan_for_seq(chars: &Vec<char>, from: usize, pat: &Vec<char>) -> (r: usize)
    requires
        from <= chars.len(),
    ensures
        r == find_seq(chars@, from as int, pat@),
        from <= r <= chars.len(),
{
    let mut i: usize = from;
    while i < chars.len() && !matches_at(chars, i, pat)
        invariant
            from <= i <= chars.len(),
            find_seq(chars@, from as int, pat@) == find_seq(chars@, i as int, pat@),
        decreases chars.len() - i,
    {
        i = i + 1;
    }
    i
}

} // verus!
