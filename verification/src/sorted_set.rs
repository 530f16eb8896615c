//! Ordered sets kept as strictly increasing vectors.

use vstd::prelude::*;

verus! {

/// A value that is ordered by a strict total order on its view.
pub trait SetKey: View + Sized {
    /// `a` comes strictly before `b`.
    spec fn key_lt(a: <Self as View>::V, b: <Self as View>::V) -> bool;

    proof fn lemma_lt_irreflexive(a: <Self as View>::V)
        ensures
            !Self::key_lt(a, a),
    ;

    proof fn lemma_lt_transitive(a: <Self as View>::V, b: <Self as View>::V, c: <Self as View>::V)
        requires
            Self::key_lt(a, b),
            Self::key_lt(b, c),
        ensures
            Self::key_lt(a, c),
    ;

    proof fn lemma_lt_total(a: <Self as View>::V, b: <Self as View>::V)
        ensures
            a == b || Self::key_lt(a, b) || Self::key_lt(b, a),
    ;

    /// Whether `self` comes strictly before `other`.
    fn less(&self, other: &Self) -> (r: bool)
        ensures
            r == Self::key_lt(self@, other@),
    ;

    /// Whether `self` and `other` have the same view.
    fn same(&self, other: &Self) -> (r: bool)
        ensures
            r == (self@ == other@),
    ;
}

/// The views of the elements of `s`.
pub open spec fn views<T: View>(s: Seq<T>) -> Seq<<T as View>::V> {
    s.map_values(|x: T| x@)
}

/// Every element comes strictly before every later one.
pub open spec fn strictly_sorted<T: SetKey>(s: Seq<<T as View>::V>) -> bool {
    forall|i: int, j: int| 0 <= i < j < s.len() ==> T::key_lt(#[trigger] s[i], #[trigger] s[j])
}

/// Inserts `x` into the strictly increasing `v` at its place, unless an
/// element with its view is already there.
pub fn sorted_insert<T: SetKey>(v: &mut Vec<T>, x: T)
    requires
        strictly_sorted::<T>(views(old(v)@)),
    ensures
        strictly_sorted::<T>(views(final(v)@)),
        views(final(v)@).to_set() == views(old(v)@).to_set().insert(x@),
        views(old(v)@).contains(x@) ==> final(v)@ == old(v)@,
        !views(old(v)@).contains(x@) ==> exists|i: int|
            0 <= i <= old(v)@.len() && final(v)@ == old(v)@.insert(i, x),
{
    let ghost before = views(v@);
    let mut i: usize = 0;
    while i < v.len() && v[i].less(&x)
        invariant
            i <= v@.len(),
            v@ == old(v)@,
            forall|k: int| 0 <= k < i ==> T::key_lt(#[trigger] views(v@)[k], x@),
        decreases v.len() - i,
    {
        i = i + 1;
    }
    if i < v.len() && v[i].same(&x) {
        proof {
            assert(before[i as int] == x@);
            assert(before.to_set().insert(x@) =~= before.to_set());
        }
        return;
    }
    proof {
        // Everything from position i on comes strictly after x.
        assert forall|k: int| i <= k < before.len() implies T::key_lt(x@, #[trigger] before[k]) by {
            T::lemma_lt_total(x@, before[i as int]);
            if k > i {
                T::lemma_lt_transitive(x@, before[i as int], before[k]);
            }
        }
        assert forall|k: int| 0 <= k < before.len() implies before[k] != x@ by {
            if k < i {
                T::lemma_lt_irreflexive(x@);
            } else {
                T::lemma_lt_irreflexive(x@);
            }
        }
    }
    let ghost xv = x@;
    let ghost xx = x;
    v.insert(i, x);
    proof {
        let after = views(v@);
        assert(after =~= before.insert(i as int, xv));
        assert forall|a: int, b: int| 0 <= a < b < after.len() implies T::key_lt(
            #[trigger] after[a],
            #[trigger] after[b],
        ) by {
            if b < i {
            } else if b == i {
            } else if a < i {
                T::lemma_lt_transitive(after[a], xv, after[b]);
            } else if a == i {
            } else {
            }
        }
        assert(after.to_set() =~= before.to_set().insert(xv)) by {
            assert forall|y| after.to_set().contains(y) implies before.to_set().insert(xv).contains(y) by {
                let k = choose|k: int| 0 <= k < after.len() && after[k] == y;
                if k < i {
                    assert(before[k] == y);
                } else if k > i {
                    assert(before[k - 1] == y);
                }
            }
            assert forall|y| before.to_set().insert(xv).contains(y) implies after.to_set().contains(y) by {
                if y == xv {
                    assert(after[i as int] == y);
                } else {
                    let k = choose|k: int| 0 <= k < before.len() && before[k] == y;
                    if k < i {
                        assert(after[k] == y);
                    } else {
                        assert(after[k + 1] == y);
                    }
                }
            }
        }
        assert(!before.contains(xv));
        assert(v@ == old(v)@.insert(i as int, xx));
    }
}

/// Whether an element of the strictly increasing `v` has the view of `x`.
pub fn sorted_contains<T: SetKey>(v: &Vec<T>, x: &T) -> (r: bool)
    ensures
        r == views(v@).contains(x@),
{
    let mut i: usize = 0;
    while i < v.len()
        invariant
            i <= v@.len(),
            forall|k: int| 0 <= k < i ==> #[trigger] views(v@)[k] != x@,
        decreases v.len() - i,
    {
        if v[i].same(x) {
            proof {
                assert(views(v@)[i as int] == x@);
            }
            return true;
        }
        i = i + 1;
    }
    false
}

} // verus!
