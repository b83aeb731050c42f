use vstd::prelude::*;

verus! {

/// Whether `s` holds the characters of `expected` from index `start` on.
pub fn has_text_at(s: &str, start: usize, expected: &str) -> (r: bool)
    ensures
        r == (start + expected@.len() <= s@.len() && s@.subrange(
            start as int,
            start + expected@.len(),
        ) == expected@),
{
    let n = s.unicode_len();
    let m = expected.unicode_len();
    if m > n || start > n - m {
        return false;
    }
    let mut i: usize = 0;
    while i < m
        invariant
            n == s@.len(),
            m == expected@.len(),
            start + m <= n,
            i <= m,
            forall|k: int| 0 <= k < i ==> s@[start + k] == expected@[k],
        decreases m - i,
    {
        if s.get_char(start + i) != expected.get_char(i) {
            assert(s@.subrange(start as int, start + m)[i as int] != expected@[i as int]);
            return false;
        }
        i = i + 1;
    }
    assert(s@.subrange(start as int, start + m) =~= expected@);
    true
}

/// Whether `a` and `b` hold the same characters.
pub fn same_text(a: &str, b: &str) -> (r: bool)
    ensures
        r == (a@ == b@),
{
    if a.unicode_len() != b.unicode_len() {
        return false;
    }
    let r = has_text_at(a, 0, b);
    assert(a@.subrange(0, a@.len() as int) =~= a@);
    r
}

} // verus!
