//! Comparing texts: equality, and endings without regard to case.

use vstd::prelude::*;

verus! {

/// The small letter of a capital of the basic Latin alphabet, and any other
/// character itself.
pub open spec fn fold(c: char) -> char {
    if 'A' <= c && c <= 'Z' {
        ((c as u8 + 32) as u8) as char
    } else {
        c
    }
}

/// Whether `s` ends with `suffix` where capitals and small letters of the
/// basic Latin alphabet count as the same.
pub open spec fn spec_ends_with_folded(s: Seq<char>, suffix: Seq<char>) -> bool {
    &&& suffix.len() <= s.len()
    &&& forall|i: int|
        0 <= i < suffix.len() ==> fold(#[trigger] s[s.len() - suffix.len() + i]) == fold(
            suffix[i],
        )
}

/// Whether the two texts hold the same characters.
pub fn same_text(a: &str, b: &str) -> (r: bool)
    ensures
        r == (a@ == b@),
{
    let x = String::from_str(a);
    let y = String::from_str(b);
    x == y
}

/// The small letter of a capital, and any other character itself.
pub fn to_lower(c: char) -> (r: char)
    ensures
        r == fold(c),
{
    if 'A' <= c && c <= 'Z' {
        ((c as u8) + 32) as char
    } else {
        c
    }
}

/// Whether `s` ends with `suffix`, without regard to the case of letters.
pub fn ends_with_folded(s: &str, suffix: &str) -> (r: bool)
    ensures
        r == spec_ends_with_folded(s@, suffix@),
{
    let n: usize = s.unicode_len();
    let m: usize = suffix.unicode_len();
    if m > n {
        return false;
    }
    let offset: usize = n - m;
    let mut i: usize = 0;
    while i < m
        invariant
            n == s@.len(),
            m == suffix@.len(),
            offset == n - m,
            i <= m <= n,
            forall|j: int| 0 <= j < i ==> fold(#[trigger] s@[n - m + j]) == fold(suffix@[j]),
        decreases m - i,
    {
        if to_lower(s.get_char(offset + i)) != to_lower(suffix.get_char(i)) {
            return false;
        }
        i += 1;
    }
    true
}

} // verus!
