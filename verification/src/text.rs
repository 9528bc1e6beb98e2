//! Verified text predicates the content filters are built on: prefix and
//! substring matching over the character view of a string.

use vstd::prelude::*;
use vstd::string::StrSliceExecFns;

verus! {

/// `p` is a prefix of `s`.
pub open spec fn starts_with(s: Seq<char>, p: Seq<char>) -> bool {
    p.len() <= s.len() && p == s.take(p.len() as int)
}

/// `p` occurs as a contiguous run inside `s`.
pub open spec fn contains_sub(s: Seq<char>, p: Seq<char>) -> bool {
    exists|i: int| 0 <= i && i + p.len() <= s.len() && p == #[trigger] s.subrange(i, i + p.len())
}

/// Whether the characters of `s` starting at `at` spell out `p`.
fn matches_at(s: &str, p: &str, at: usize) -> (b: bool)
    requires
        at + p@.len() <= s@.len(),
        s@.len() <= usize::MAX,
    ensures
        b == (p@ == s@.subrange(at as int, at + p@.len())),
{
    let n: usize = p.unicode_len();
    let mut i: usize = 0;
    while i < n
        invariant
            n == p@.len(),
            at + n <= s@.len(),
            s@.len() <= usize::MAX,
            0 <= i <= n,
            forall|m: int| 0 <= m < i ==> p@[m] == s@[at + m],
        decreases n - i,
    {
        if s.get_char(at + i) != p.get_char(i) {
            assert(p@[i as int] != s@.subrange(at as int, at + p@.len())[i as int]);
            return false;
        }
        i = i + 1;
    }
    assert(p@ =~= s@.subrange(at as int, at + p@.len()));
    true
}

/// Whether `s` starts with the prefix `p`.
pub fn str_starts_with(s: &str, p: &str) -> (b: bool)
    ensures
        b == starts_with(s@, p@),
{
    let n: usize = p.unicode_len();
    if n > s.unicode_len() {
        return false;
    }
    let r = matches_at(s, p, 0);
    proof {
        assert(s@.subrange(0, p@.len() as int) =~= s@.take(p@.len() as int));
    }
    r
}

/// Whether `s` contains `p` as a contiguous run of characters.
pub fn str_contains(s: &str, p: &str) -> (b: bool)
    ensures
        b == contains_sub(s@, p@),
{
    let sl: usize = s.unicode_len();
    let pl: usize = p.unicode_len();
    if pl > sl {
        return false;
    }
    if pl == 0 {
        let r = matches_at(s, p, 0);
        proof {
            assert(p@ =~= s@.subrange(0, 0));
        }
        return r;
    }
    let mut i: usize = 0;
    while i <= sl - pl
        invariant
            sl == s@.len(),
            pl == p@.len(),
            1 <= pl <= sl,
            0 <= i <= sl - pl + 1,
            forall|m: int| 0 <= m < i ==> p@ != #[trigger] s@.subrange(m, m + p@.len()),
        decreases sl - pl + 1 - i,
    {
        if matches_at(s, p, i) {
            return true;
        }
        i = i + 1;
    }
    false
}

} // verus!
