//! Dotted numeric versions: how they are read and how they are ordered.

use crate::decimal::{
    all_digits, decimal_value, digit_of, is_digit, lemma_decimal_value_push, push_digit,
};
use crate::text::{chars_of, leading_run, lemma_leading_run_is};
use vstd::prelude::*;

verus! {

/// Why a string is not a version.
#[derive(Clone, Copy, Debug, PartialEq, Eq, Structural)]
pub enum ParseError {
    /// Two dots with nothing between them, a dot at either end, or an empty
    /// string.
    EmptyComponent,
    /// A component holds a character that is no digit.
    NotNumeric,
    /// A component is a number too large for 64 bits.
    TooLarge,
}

/// A version: its numeric components, most significant first.
#[derive(Debug)]
pub struct Version {
    parts: Vec<u64>,
}

impl View for Version {
    type V = Seq<nat>;

    closed spec fn view(&self) -> Seq<nat> {
        self.parts@.map_values(|p: u64| p as nat)
    }
}

/// The kind of character that a component may hold next to its digits:
/// any but the dot.
pub open spec fn not_dot() -> spec_fn(char) -> bool {
    |c: char| c != '.'
}

/// Where the first dot of `s` stands; the length of `s` where it has none.
pub open spec fn first_dot(s: Seq<char>) -> int {
    leading_run(s, not_dot())
}

/// The number that one component spells, or what is wrong with it.
pub open spec fn component_of(segment: Seq<char>) -> Result<nat, ParseError> {
    if segment.len() == 0 {
        Err(ParseError::EmptyComponent)
    } else if !all_digits(segment) {
        Err(ParseError::NotNumeric)
    } else if decimal_value(segment) > u64::MAX {
        Err(ParseError::TooLarge)
    } else {
        Ok(decimal_value(segment))
    }
}

/// `head` in front of the components that follow it, unless those are in
/// error.
pub open spec fn prepend(head: Seq<nat>, tail: Result<Seq<nat>, ParseError>) -> Result<
    Seq<nat>,
    ParseError,
> {
    match tail {
        Ok(rest) => Ok(head + rest),
        Err(e) => Err(e),
    }
}

/// What a string means as a version. The string is cut at every dot and
/// each piece is read as a decimal number. The first piece that is no
/// number decides the error.
pub open spec fn parse_spec(s: Seq<char>) -> Result<Seq<nat>, ParseError>
    decreases s.len(),
{
    let n = first_dot(s);
    match component_of(s.take(n)) {
        Err(e) => Err(e),
        Ok(value) => if 0 <= n < s.len() {
            prepend(seq![value], parse_spec(s.skip(n + 1)))
        } else {
            Ok(seq![value])
        },
    }
}

/// The component of `v` at position `i`, where a version counts as
/// followed by zeros without end.
pub open spec fn component_at(v: Seq<nat>, i: int) -> nat {
    if 0 <= i < v.len() {
        v[i]
    } else {
        0
    }
}

/// Whether two versions have different components at position `i`.
pub open spec fn differ_at(a: Seq<nat>, b: Seq<nat>, i: int) -> bool {
    component_at(a, i) != component_at(b, i)
}

/// Whether `i` is the first position at which two versions differ.
pub open spec fn is_first_difference(a: Seq<nat>, b: Seq<nat>, i: int) -> bool {
    &&& 0 <= i
    &&& differ_at(a, b, i)
    &&& forall|j: int| 0 <= j < i ==> !differ_at(a, b, j)
}

/// The first position at which two versions differ, if they differ at all.
pub open spec fn first_difference(a: Seq<nat>, b: Seq<nat>) -> Option<int> {
    if exists|i: int| is_first_difference(a, b, i) {
        Some(choose|i: int| is_first_difference(a, b, i))
    } else {
        None
    }
}

/// Two versions have at most one first difference.
pub proof fn lemma_first_difference_unique(a: Seq<nat>, b: Seq<nat>, i: int, j: int)
    requires
        is_first_difference(a, b, i),
        is_first_difference(a, b, j),
    ensures
        i == j,
{
    if i < j {
        assert(!differ_at(a, b, i));
    } else if j < i {
        assert(!differ_at(a, b, j));
    }
}

/// A position known to be the first difference is what `first_difference`
/// gives.
pub proof fn lemma_first_difference_some(a: Seq<nat>, b: Seq<nat>, k: int)
    requires
        is_first_difference(a, b, k),
    ensures
        first_difference(a, b) == Some(k),
{
    let chosen = choose|i: int| is_first_difference(a, b, i);
    lemma_first_difference_unique(a, b, chosen, k);
}

/// Versions that differ somewhere have a first difference, no later than
/// that place.
pub proof fn lemma_least_difference(a: Seq<nat>, b: Seq<nat>, i: int)
    requires
        0 <= i,
        differ_at(a, b, i),
    ensures
        first_difference(a, b) is Some,
        is_first_difference(a, b, first_difference(a, b).unwrap()),
        first_difference(a, b).unwrap() <= i,
    decreases i,
{
    if exists|j: int| 0 <= j < i && differ_at(a, b, j) {
        let j = choose|j: int| 0 <= j < i && differ_at(a, b, j);
        lemma_least_difference(a, b, j);
    } else {
        assert(is_first_difference(a, b, i));
        lemma_first_difference_some(a, b, i);
    }
}

/// Versions without a first difference agree at every position.
pub proof fn lemma_no_difference(a: Seq<nat>, b: Seq<nat>)
    requires
        first_difference(a, b) is None,
    ensures
        forall|i: int| component_at(a, i) == component_at(b, i),
{
    assert forall|i: int| component_at(a, i) == component_at(b, i) by {
        if 0 <= i && differ_at(a, b, i) {
            lemma_least_difference(a, b, i);
        }
    }
}

/// Reads the component that begins at `start`: where it ends, and its
/// number or its fault.
fn scan_component(chars: &Vec<char>, start: usize) -> (r: (usize, Result<u64, ParseError>))
    requires
        start <= chars.len(),
    ensures
        start <= r.0 <= chars.len(),
        r.0 - start == first_dot(chars@.skip(start as int)),
        match r.1 {
            Ok(v) => component_of(chars@.subrange(start as int, r.0 as int)) == Ok::<
                nat,
                ParseError,
            >(v as nat),
            Err(e) => component_of(chars@.subrange(start as int, r.0 as int)) == Err::<
                nat,
                ParseError,
            >(e),
        },
{
    let mut i: usize = start;
    let mut value: u64 = 0;
    let mut numeric = true;
    let mut fits = true;
    while i < chars.len() && chars[i] != '.'
        invariant
            start <= i <= chars.len(),
            forall|j: int| start <= j < i ==> chars@[j] != '.',
            numeric == all_digits(chars@.subrange(start as int, i as int)),
            numeric && fits ==> value == decimal_value(chars@.subrange(start as int, i as int)),
            numeric && !fits ==> decimal_value(chars@.subrange(start as int, i as int)) > u64::MAX,
        decreases chars.len() - i,
    {
        let ghost before = chars@.subrange(start as int, i as int);
        let ghost after = chars@.subrange(start as int, i + 1);
        proof {
            assert(after =~= before.push(chars@[i as int]));
            lemma_decimal_value_push(before, chars@[i as int]);
            if all_digits(after) {
                assert forall|j: int| 0 <= j < before.len() implies is_digit(
                    #[trigger] before[j],
                ) by {
                    assert(before[j] == after[j]);
                }
            }
            if all_digits(before) && is_digit(chars@[i as int]) {
                assert forall|j: int| 0 <= j < after.len() implies is_digit(
                    #[trigger] after[j],
                ) by {
                    if j < before.len() {
                        assert(after[j] == before[j]);
                    }
                }
            }
            if !is_digit(chars@[i as int]) {
                assert(after[after.len() - 1] == chars@[i as int]);
            }
        }
        match digit_of(chars[i]) {
            None => {
                numeric = false;
            },
            Some(d) => {
                if numeric && fits {
                    match push_digit(value, d) {
                        Some(v) => {
                            value = v;
                        },
                        None => {
                            fits = false;
                        },
                    }
                }
            },
        }
        i += 1;
    }
    proof {
        let rest = chars@.skip(start as int);
        assert forall|j: int| 0 <= j < i - start implies not_dot()(#[trigger] rest[j]) by {
            assert(rest[j] == chars@[start + j]);
        }
        lemma_leading_run_is(rest, not_dot(), i - start);
    }
    let outcome = if i == start {
        Err(ParseError::EmptyComponent)
    } else if !numeric {
        Err(ParseError::NotNumeric)
    } else if !fits {
        Err(ParseError::TooLarge)
    } else {
        Ok(value)
    };
    (i, outcome)
}

impl Version {
    /// How many components the version was written with.
    pub fn len(&self) -> (n: usize)
        ensures
            n == self@.len(),
    {
        self.parts.len()
    }

    /// The component at position `i`, counted from zero; beyond the last
    /// written component every component is zero.
    pub fn component(&self, i: usize) -> (value: u64)
        ensures
            value == component_at(self@, i as int),
    {
        if i < self.parts.len() {
            self.parts[i]
        } else {
            0
        }
    }

    /// The first position at which `self` and `other` differ, once the
    /// shorter of the two is padded with zeros; `None` where they do not
    /// differ.
    pub fn first_difference(&self, other: &Version) -> (found: Option<usize>)
        ensures
            match found {
                Some(i) => first_difference(self@, other@) == Some(i as int),
                None => first_difference(self@, other@) is None,
            },
    {
        let n = if self.parts.len() >= other.parts.len() {
            self.parts.len()
        } else {
            other.parts.len()
        };
        let mut i: usize = 0;
        while i < n
            invariant
                i <= n,
                n >= self@.len(),
                n >= other@.len(),
                forall|j: int| 0 <= j < i ==> !differ_at(self@, other@, j),
            decreases n - i,
        {
            if self.component(i) != other.component(i) {
                proof {
                    lemma_first_difference_some(self@, other@, i as int);
                }
                return Some(i);
            }
            i += 1;
        }
        proof {
            if first_difference(self@, other@) is Some {
                let k = choose|k: int| is_first_difference(self@, other@, k);
                assert(!differ_at(self@, other@, k));
            }
        }
        None
    }

    /// Reads a version such as `12.66`: decimal numbers with a dot between
    /// each two. Every component must be a number of its own, so an empty
    /// string, a stray dot and any character other than a digit or a dot
    /// are errors, and so is a number that does not fit 64 bits.
    pub fn parse(s: &str) -> (result: Result<Version, ParseError>)
        ensures
            match result {
                Ok(version) => parse_spec(s@) == Ok::<Seq<nat>, ParseError>(version@),
                Err(e) => parse_spec(s@) == Err::<Seq<nat>, ParseError>(e),
            },
    {
        let chars = chars_of(s);
        let mut parts: Vec<u64> = Vec::new();
        let mut start: usize = 0;
        proof {
            assert(s@.skip(0) =~= s@);
            match parse_spec(s@) {
                Ok(all) => {
                    assert(parts@.map_values(|p: u64| p as nat) + all =~= all);
                },
                Err(_) => {},
            }
        }
        loop
            invariant
                chars@ == s@,
                start <= chars.len(),
                parse_spec(s@) == prepend(
                    parts@.map_values(|p: u64| p as nat),
                    parse_spec(s@.skip(start as int)),
                ),
            decreases chars.len() - start,
        {
            let ghost rest = s@.skip(start as int);
            let ghost done = parts@.map_values(|p: u64| p as nat);
            let (end, outcome) = scan_component(&chars, start);
            proof {
                assert(rest.take(end - start) =~= chars@.subrange(start as int, end as int));
            }
            match outcome {
                Err(e) => {
                    return Err(e);
                },
                Ok(value) => {
                    parts.push(value);
                    proof {
                        assert(parts@.map_values(|p: u64| p as nat) =~= done + seq![value as nat]);
                    }
                    if end >= chars.len() {
                        return Ok(Version { parts });
                    }
                    proof {
                        assert(rest.skip(end - start + 1) =~= s@.skip(end + 1));
                        let tail = parse_spec(s@.skip(end + 1));
                        match tail {
                            Ok(more) => {
                                assert(done + (seq![value as nat] + more) =~= (done + seq![
                                    value as nat,
                                ]) + more);
                            },
                            Err(_) => {},
                        }
                    }
                    start = end + 1;
                },
            }
        }
    }
}

} // verus!
