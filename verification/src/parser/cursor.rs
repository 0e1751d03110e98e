//! Matching fixed words at the front of a text.

use vstd::prelude::*;

verus! {

/// Why a grammar rule did not match its input.
#[derive(Debug, Clone, Copy, PartialEq, Eq, Structural)]
pub enum OracleError {
    /// None of the rule's alternatives matches the front of the input.
    NoMatch,
}

/// `s` begins with `p`.
pub open spec fn starts_with(s: Seq<char>, p: Seq<char>) -> bool {
    p.len() <= s.len() && s.subrange(0, p.len() as int) == p
}

/// Whether `input` begins with `word`, and if so how many characters the
/// word takes.
pub fn match_prefix(input: &str, word: &str) -> (r: Option<usize>)
    ensures
        r is Some <==> starts_with(input@, word@),
        r matches Some(n) ==> n == word@.len() && n <= input@.len(),
        input@.len() <= usize::MAX,
{
    let n = input.unicode_len();
    let m = word.unicode_len();
    if m > n {
        return None;
    }
    let mut i: usize = 0;
    while i < m
        invariant
            i <= m <= n,
            n == input@.len(),
            m == word@.len(),
            forall|j: int| 0 <= j < i ==> input@[j] == word@[j],
        decreases m - i,
    {
        if input.get_char(i) != word.get_char(i) {
            return None;
        }
        i = i + 1;
    }
    assert(input@.subrange(0, m as int) =~= word@);
    Some(m)
}

/// The text that follows the first `k` characters of `input`.
pub fn rest_after<'a>(input: &'a str, k: usize) -> (r: &'a str)
    requires
        k <= input@.len(),
    ensures
        r@ == input@.skip(k as int),
        input@.len() <= usize::MAX,
{
    let n = input.unicode_len();
    let r = input.substring_char(k, n);
    assert(r@ =~= input@.skip(k as int));
    r
}

} // verus!
