//! Stable sorting by an integer key.

use vstd::prelude::*;

verus! {

/// A value that sorts by an integer key.
pub trait SortKey {
    /// The key, in specifications.
    spec fn sort_key(&self) -> u128;

    /// The key.
    fn key(&self) -> (r: u128)
        ensures
            r == self.sort_key(),
    ;
}

/// `s` with `x` placed after every element whose key is not above `x`'s,
/// scanning from the end: on a sequence sorted by key, `x` lands after its
/// equals.
pub open spec fn insert_by_key<T: SortKey>(s: Seq<T>, x: T) -> Seq<T>
    decreases s.len(),
{
    if s.len() == 0 {
        seq![x]
    } else if s.last().sort_key() <= x.sort_key() {
        s.push(x)
    } else {
        insert_by_key(s.drop_last(), x).push(s.last())
    }
}

/// `s` sorted by key, equal keys keeping their order in `s`.
pub open spec fn stable_sort_by_key<T: SortKey>(s: Seq<T>) -> Seq<T>
    decreases s.len(),
{
    if s.len() == 0 {
        s
    } else {
        insert_by_key(stable_sort_by_key(s.drop_last()), s.last())
    }
}

/// Keys never decrease along `s`.
pub open spec fn sorted_by_key<T: SortKey>(s: Seq<T>) -> bool {
    forall|i: int, j: int| 0 <= i < j < s.len() ==> s[i].sort_key() <= s[j].sort_key()
}

/// Inserting at the position found by scanning back over larger keys is
/// `insert_by_key`.
proof fn lemma_insert_at<T: SortKey>(s: Seq<T>, x: T, p: int)
    requires
        0 <= p <= s.len(),
        forall|k: int| p <= k < s.len() ==> s[k].sort_key() > x.sort_key(),
        p > 0 ==> s[p - 1].sort_key() <= x.sort_key(),
    ensures
        insert_by_key(s, x) == s.insert(p, x),
    decreases s.len(),
{
    if s.len() == 0 {
        assert(s.insert(p, x) =~= seq![x]);
    } else if p == s.len() {
        assert(s.insert(p, x) =~= s.push(x));
    } else {
        let t = s.drop_last();
        lemma_insert_at(t, x, p);
        assert(s.insert(p, x) =~= t.insert(p, x).push(s.last()));
    }
}

/// Inserting into a sorted sequence keeps it sorted and adds `x` once.
proof fn lemma_insert_sorted<T: SortKey>(s: Seq<T>, x: T)
    requires
        sorted_by_key(s),
    ensures
        sorted_by_key(insert_by_key(s, x)),
        insert_by_key(s, x).len() == s.len() + 1,
        insert_by_key(s, x).to_multiset() == s.to_multiset().insert(x),
    decreases s.len(),
{
    broadcast use vstd::seq_lib::group_to_multiset_ensures;

    if s.len() == 0 {
        assert(seq![x] =~= Seq::<T>::empty().push(x));
    } else if s.last().sort_key() <= x.sort_key() {
    } else {
        let t = s.drop_last();
        assert(sorted_by_key(t));
        lemma_insert_sorted(t, x);
        let u = insert_by_key(t, x);
        assert forall|k: int| 0 <= k < u.len() implies u[k].sort_key() <= s.last().sort_key() by {
            assert(u.to_multiset().count(u[k]) > 0);
            assert(u.to_multiset().count(u[k]) == t.to_multiset().insert(x).count(u[k]));
            if u[k] != x {
                assert(t.to_multiset().count(u[k]) > 0);
                let i = choose|i: int| 0 <= i < t.len() && t[i] == u[k];
                assert(s[i] == t[i]);
            }
        }
        assert(s =~= t.push(s.last()));
        assert(s.to_multiset() =~= t.to_multiset().insert(s.last()));
        assert(u.push(s.last()).to_multiset() =~= u.to_multiset().insert(s.last()));
        assert(s.to_multiset().insert(x) =~= t.to_multiset().insert(x).insert(s.last()));
    }
}

/// A stable sort by key is sorted and holds the same elements.
pub proof fn lemma_stable_sort_sorted<T: SortKey>(s: Seq<T>)
    ensures
        sorted_by_key(stable_sort_by_key(s)),
        stable_sort_by_key(s).len() == s.len(),
        stable_sort_by_key(s).to_multiset() == s.to_multiset(),
    decreases s.len(),
{
    broadcast use vstd::seq_lib::group_to_multiset_ensures;

    if s.len() > 0 {
        let t = s.drop_last();
        lemma_stable_sort_sorted(t);
        lemma_insert_sorted(stable_sort_by_key(t), s.last());
        assert(s =~= t.push(s.last()));
    }
}

/// `v` sorted by key, equal keys keeping their order.
pub fn sort_by_key_stable<T: SortKey>(v: Vec<T>) -> (r: Vec<T>)
    ensures
        r@ == stable_sort_by_key(v@),
{
    let mut rest = v;
    let ghost all = rest@;
    let mut out: Vec<T> = Vec::new();
    let mut done: usize = 0;
    while rest.len() > 0
        invariant
            done + rest@.len() == all.len(),
            rest@ == all.skip(done as int),
            out@ == stable_sort_by_key(all.take(done as int)),
            sorted_by_key(out@),
        decreases rest@.len(),
    {
        let x = rest.remove(0);
        proof {
            assert(x == all[done as int]);
            assert(all.take(done as int + 1).drop_last() =~= all.take(done as int));
            lemma_stable_sort_sorted(all.take(done as int + 1));
            assert(rest@ =~= all.skip(done as int + 1));
        }
        let kx = x.key();
        let mut p: usize = out.len();
        while p > 0 && out[p - 1].key() > kx
            invariant
                p <= out@.len(),
                kx == x.sort_key(),
                forall|k: int| p <= k < out@.len() ==> out@[k].sort_key() > x.sort_key(),
            decreases p,
        {
            p = p - 1;
        }
        proof {
            lemma_insert_at(out@, x, p as int);
            lemma_stable_sort_sorted(all.take(done as int));
        }
        out.insert(p, x);
        done = out.len();
    }
    proof {
        assert(all.take(done as int) =~= all);
    }
    out
}

} // verus!
