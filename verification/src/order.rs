//! The order of versions.
//!
//! Two versions are compared component by component, the shorter one
//! padded with zeros; the first component that differs decides.

use crate::version::{
    component_at, differ_at, first_difference, is_first_difference, lemma_first_difference_some,
    lemma_no_difference, Version,
};
use std::cmp::Ordering;
use vstd::prelude::*;

verus! {

/// How version `a` stands to version `b`. They are equal where they have no
/// first difference; otherwise the smaller component at the first
/// difference belongs to the smaller version.
pub open spec fn ordering_of(a: Seq<nat>, b: Seq<nat>) -> Ordering {
    match first_difference(a, b) {
        None => Ordering::Equal,
        Some(i) => if component_at(a, i) < component_at(b, i) {
            Ordering::Less
        } else {
            Ordering::Greater
        },
    }
}

impl Version {
    /// Compares two versions by their numbers: `12.66` is greater than
    /// `9.9`, and `1.2` equals `1.2.0`.
    pub fn compare(&self, other: &Version) -> (o: Ordering)
        ensures
            o == ordering_of(self@, other@),
    {
        match self.first_difference(other) {
            None => Ordering::Equal,
            Some(i) => if self.component(i) < other.component(i) {
                Ordering::Less
            } else {
                Ordering::Greater
            },
        }
    }
}

/// Two versions compare equal exactly where they agree at every position,
/// the shorter one padded with zeros.
pub proof fn lemma_equal_iff_same_components(a: Seq<nat>, b: Seq<nat>)
    ensures
        ordering_of(a, b) is Equal <==> forall|i: int| component_at(a, i) == component_at(b, i),
{
    if first_difference(a, b) is None {
        lemma_no_difference(a, b);
    } else {
        let k = first_difference(a, b).unwrap();
        assert(is_first_difference(a, b, k));
        assert(differ_at(a, b, k));
    }
}

/// The component at the first difference decides: where it is smaller in
/// `a` the order is `Less`, where it is greater the order is `Greater`.
pub proof fn lemma_first_difference_decides(a: Seq<nat>, b: Seq<nat>, k: int)
    requires
        is_first_difference(a, b, k),
    ensures
        component_at(a, k) < component_at(b, k) ==> ordering_of(a, b) is Less,
        component_at(a, k) > component_at(b, k) ==> ordering_of(a, b) is Greater,
{
    lemma_first_difference_some(a, b, k);
}

/// Every version equals itself.
pub proof fn lemma_compare_reflexive(a: Seq<nat>)
    ensures
        ordering_of(a, a) is Equal,
{
    lemma_equal_iff_same_components(a, a);
}

/// Swapping the two versions turns the order around: of `a < b`, `a == b`
/// and `a > b` exactly one holds, and it holds the other way round for `b`
/// and `a`.
pub proof fn lemma_compare_antisymmetric(a: Seq<nat>, b: Seq<nat>)
    ensures
        ordering_of(a, b) is Less <==> ordering_of(b, a) is Greater,
        ordering_of(a, b) is Equal <==> ordering_of(b, a) is Equal,
        ordering_of(a, b) is Greater <==> ordering_of(b, a) is Less,
{
    lemma_equal_iff_same_components(a, b);
    lemma_equal_iff_same_components(b, a);
    if first_difference(a, b) is Some {
        let k = first_difference(a, b).unwrap();
        assert(is_first_difference(a, b, k));
        assert forall|j: int| 0 <= j < k implies !differ_at(b, a, j) by {
            assert(!differ_at(a, b, j));
        }
        assert(is_first_difference(b, a, k));
        lemma_first_difference_some(b, a, k);
    }
}

/// The order is transitive: from `a <= b` and `b <= c` follows `a <= c`,
/// and `a < c` where either of the two is strict.
pub proof fn lemma_compare_transitive(a: Seq<nat>, b: Seq<nat>, c: Seq<nat>)
    requires
        !(ordering_of(a, b) is Greater),
        !(ordering_of(b, c) is Greater),
    ensures
        !(ordering_of(a, c) is Greater),
        ordering_of(a, b) is Less || ordering_of(b, c) is Less ==> ordering_of(a, c) is Less,
        ordering_of(a, b) is Equal && ordering_of(b, c) is Equal ==> ordering_of(a, c) is Equal,
{
    lemma_equal_iff_same_components(a, b);
    lemma_equal_iff_same_components(b, c);
    lemma_equal_iff_same_components(a, c);
    let ab = first_difference(a, b);
    let bc = first_difference(b, c);
    if ab is Some || bc is Some {
        // the earlier of the two first differences is where a and c part
        let k = if ab is Some && (bc is None || ab.unwrap() <= bc.unwrap()) {
            ab.unwrap()
        } else {
            bc.unwrap()
        };
        if ab is Some {
            assert(is_first_difference(a, b, ab.unwrap()));
        } else {
            lemma_no_difference(a, b);
        }
        if bc is Some {
            assert(is_first_difference(b, c, bc.unwrap()));
        } else {
            lemma_no_difference(b, c);
        }
        assert(component_at(a, k) <= component_at(b, k)) by {
            if ab is Some && ab.unwrap() != k {
                assert(!differ_at(a, b, k));
            }
        }
        assert(component_at(b, k) <= component_at(c, k)) by {
            if bc is Some && bc.unwrap() != k {
                assert(!differ_at(b, c, k));
            }
        }
        assert(differ_at(a, b, k) || differ_at(b, c, k));
        assert forall|j: int| 0 <= j < k implies !differ_at(a, c, j) by {
            assert(!differ_at(a, b, j));
            assert(!differ_at(b, c, j));
        }
        assert(is_first_difference(a, c, k));
        lemma_first_difference_some(a, c, k);
    }
}

/// A zero written at the end changes nothing: `1.2` equals `1.2.0`, and
/// both stand to any third version in the same way.
pub proof fn lemma_trailing_zero(a: Seq<nat>, b: Seq<nat>)
    ensures
        ordering_of(a, a.push(0)) is Equal,
        ordering_of(a.push(0), b) == ordering_of(a, b),
        ordering_of(b, a.push(0)) == ordering_of(b, a),
{
    let z = a.push(0);
    assert forall|i: int| component_at(z, i) == component_at(a, i) by {
        if 0 <= i < a.len() {
            assert(z[i] == a[i]);
        }
    }
    lemma_equal_iff_same_components(a, z);
    lemma_same_components_same_order(z, a, b);
}

/// The order looks at nothing but the components: versions that agree at
/// every position stand to any third version in the same way.
pub proof fn lemma_same_components_same_order(a: Seq<nat>, a2: Seq<nat>, b: Seq<nat>)
    requires
        forall|i: int| component_at(a, i) == component_at(a2, i),
    ensures
        ordering_of(a, b) == ordering_of(a2, b),
        ordering_of(b, a) == ordering_of(b, a2),
{
    if first_difference(a, b) is Some {
        let k = first_difference(a, b).unwrap();
        assert(is_first_difference(a, b, k));
        assert forall|j: int| 0 <= j < k implies !differ_at(a2, b, j) by {
            assert(!differ_at(a, b, j));
        }
        assert(is_first_difference(a2, b, k));
        lemma_first_difference_some(a2, b, k);
    } else {
        lemma_no_difference(a, b);
        if first_difference(a2, b) is Some {
            let k = first_difference(a2, b).unwrap();
            assert(is_first_difference(a2, b, k));
            assert(differ_at(a2, b, k));
        }
    }
    lemma_compare_antisymmetric(a, b);
    lemma_compare_antisymmetric(a2, b);
}

} // verus!
