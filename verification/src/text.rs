//! Characters of a string, and runs of characters of one kind.

use vstd::prelude::*;

verus! {

/// How many characters at the front of `s` are of the kind `kind`: the
/// length of the longest prefix that holds no other character.
pub open spec fn leading_run(s: Seq<char>, kind: spec_fn(char) -> bool) -> int
    decreases s.len(),
{
    if s.len() == 0 || !kind(s[0]) {
        0
    } else {
        1 + leading_run(s.drop_first(), kind)
    }
}

/// A leading run lies within the string, holds only characters of its
/// kind, and ends at the first character of another kind.
pub proof fn lemma_leading_run_bounds(s: Seq<char>, kind: spec_fn(char) -> bool)
    ensures
        0 <= leading_run(s, kind) <= s.len(),
        leading_run(s, kind) < s.len() ==> !kind(s[leading_run(s, kind)]),
        forall|j: int| 0 <= j < leading_run(s, kind) ==> kind(#[trigger] s[j]),
    decreases s.len(),
{
    if s.len() == 0 || !kind(s[0]) {
    } else {
        let t = s.drop_first();
        lemma_leading_run_bounds(t, kind);
        assert forall|j: int| 0 <= j < leading_run(s, kind) implies kind(#[trigger] s[j]) by {
            if j > 0 {
                assert(s[j] == t[j - 1]);
            }
        }
        assert(leading_run(t, kind) < t.len() ==> t[leading_run(t, kind)] == s[leading_run(
            s,
            kind,
        )]);
    }
}

/// A prefix that holds only characters of one kind, and is followed by a
/// character of another kind or by nothing, is the leading run.
pub proof fn lemma_leading_run_is(s: Seq<char>, kind: spec_fn(char) -> bool, n: int)
    requires
        0 <= n <= s.len(),
        forall|j: int| 0 <= j < n ==> kind(#[trigger] s[j]),
        n < s.len() ==> !kind(s[n]),
    ensures
        leading_run(s, kind) == n,
{
    lemma_leading_run_bounds(s, kind);
    let m = leading_run(s, kind);
    if m < n {
        assert(kind(s[m]));
    } else if n < m {
        assert(kind(s[n]));
    }
}

/// The characters of `s`, in order, in a vector that can be indexed in
/// constant time.
pub fn chars_of(s: &str) -> (chars: Vec<char>)
    ensures
        chars@ == s@,
{
    let mut chars: Vec<char> = Vec::new();
    for c in it: s.chars()
        invariant
            chars@ == it.seq().take(it.index() as int),
            it.seq() == s@,
    {
        chars.push(c);
    }
    chars
}

/// Whether `pattern` stands in `chars` at position `at`.
pub fn matches_at(chars: &Vec<char>, at: usize, pattern: &Vec<char>) -> (found: bool)
    requires
        at + pattern.len() <= chars.len(),
    ensures
        found == (chars@.subrange(at as int, at + pattern.len()) == pattern@),
{
    let mut k: usize = 0;
    while k < pattern.len()
        invariant
            k <= pattern.len(),
            at + pattern.len() <= chars.len(),
            forall|j: int| 0 <= j < k ==> chars@[at + j] == pattern@[j],
        decreases pattern.len() - k,
    {
        if chars[at + k] != pattern[k] {
            proof {
                let window = chars@.subrange(at as int, at + pattern.len());
                assert(window[k as int] == chars@[at + k]);
            }
            return false;
        }
        k += 1;
    }
    proof {
        assert(chars@.subrange(at as int, at + pattern.len()) =~= pattern@);
    }
    true
}

} // verus!
