//! A stable sort from the largest key to the smallest.

use vstd::prelude::*;

verus! {

/// Where an item with key `k` goes among items sorted from the largest key
/// down: after every item whose key is at least `k`.
pub open spec fn insert_pos<T>(s: Seq<(T, i128)>, k: i128) -> int
    decreases s.len(),
{
    if s.len() == 0 {
        0
    } else if s.last().1 >= k {
        s.len() as int
    } else {
        insert_pos(s.drop_last(), k)
    }
}

/// `s` with `x` inserted at its place.
pub open spec fn insert_desc<T>(s: Seq<(T, i128)>, x: (T, i128)) -> Seq<(T, i128)> {
    let p = insert_pos(s, x.1);
    s.take(p).push(x) + s.skip(p)
}

/// The items sorted from the largest key to the smallest; items with equal
/// keys keep their order.
pub open spec fn sort_desc<T>(s: Seq<(T, i128)>) -> Seq<(T, i128)>
    decreases s.len(),
{
    if s.len() == 0 {
        Seq::empty()
    } else {
        insert_desc(sort_desc(s.drop_last()), s.last())
    }
}

/// The keys are in order from the largest down.
pub open spec fn keys_desc<T>(s: Seq<(T, i128)>) -> bool {
    forall|i: int, j: int| 0 <= i < j < s.len() ==> s[i].1 >= s[j].1
}

pub proof fn lemma_insert_pos<T>(s: Seq<(T, i128)>, k: i128)
    requires
        keys_desc(s),
    ensures
        0 <= insert_pos(s, k) <= s.len(),
        forall|i: int| 0 <= i < insert_pos(s, k) ==> s[i].1 >= k,
        forall|i: int| insert_pos(s, k) <= i < s.len() ==> s[i].1 < k,
    decreases s.len(),
{
    if s.len() > 0 {
        let n = s.len() - 1;
        if s.last().1 < k {
            let t = s.drop_last();
            assert forall|i: int, j: int| 0 <= i < j < t.len() implies t[i].1 >= t[j].1 by {
                assert(t[i] == s[i] && t[j] == s[j]);
            }
            lemma_insert_pos(t, k);
            assert forall|i: int| 0 <= i < insert_pos(s, k) implies s[i].1 >= k by {
                assert(t[i] == s[i]);
            }
            assert forall|i: int| insert_pos(s, k) <= i < s.len() implies s[i].1 < k by {
                if i < n {
                    assert(t[i] == s[i]);
                }
            }
        } else {
            assert forall|i: int| 0 <= i < insert_pos(s, k) implies s[i].1 >= k by {
                if i < n {
                    assert(s[i].1 >= s[n].1);
                }
            }
        }
    }
}

/// Sorting keeps the keys in order and the items as a multiset.
pub proof fn lemma_sort_desc<T>(s: Seq<(T, i128)>)
    ensures
        keys_desc(sort_desc(s)),
        sort_desc(s).len() == s.len(),
        sort_desc(s).to_multiset() == s.to_multiset(),
    decreases s.len(),
{
    if s.len() > 0 {
        let r = sort_desc(s.drop_last());
        lemma_sort_desc(s.drop_last());
        let x = s.last();
        lemma_insert_pos(r, x.1);
        let p = insert_pos(r, x.1);
        let out = r.take(p).push(x) + r.skip(p);
        assert forall|i: int, j: int| 0 <= i < j < out.len() implies out[i].1 >= out[j].1 by {
            if i < p && j < p {
                assert(out[i] == r[i] && out[j] == r[j]);
            } else if i < p && j == p {
                assert(out[i] == r[i]);
            } else if i < p {
                assert(out[i] == r[i] && out[j] == r[j - 1]);
            } else if i == p {
                assert(out[j] == r[j - 1]);
            } else {
                assert(out[i] == r[i - 1] && out[j] == r[j - 1]);
            }
        }
        assert(r == r.take(p) + r.skip(p));
        vstd::seq_lib::lemma_multiset_commutative(r.take(p), r.skip(p));
        vstd::seq_lib::lemma_multiset_commutative(r.take(p).push(x), r.skip(p));
        r.take(p).to_multiset_ensures();
        s.drop_last().to_multiset_ensures();
        assert(s == s.drop_last().push(x));
        assert(out.to_multiset() =~= r.to_multiset().insert(x));
        assert(sort_desc(s) == out);
        assert(s.to_multiset() =~= s.drop_last().to_multiset().insert(x));
    } else {
        assert(sort_desc(s) =~= s);
    }
}

/// Sorts items from the largest key down, keeping the order of equal keys.
pub fn stable_sort_desc<T>(v: Vec<(T, i128)>) -> (r: Vec<(T, i128)>)
    ensures
        r@ == sort_desc(v@),
{
    let ghost orig = v@;
    let mut rest = v;
    let mut taken: Vec<(T, i128)> = Vec::new();
    // Take the items from the back, so they can be inserted from the front.
    while rest.len() > 0
        invariant
            rest@ == orig.take(rest@.len() as int),
            rest@.len() + taken@.len() == orig.len(),
            forall|k: int| 0 <= k < taken@.len() ==> #[trigger] taken@[k] == orig[orig.len() - 1 - k],
        decreases rest@.len(),
    {
        let x = rest.pop().unwrap();
        taken.push(x);
    }
    let mut out: Vec<(T, i128)> = Vec::new();
    let n = taken.len();
    assert(sort_desc(orig.take(0)) == Seq::<(T, i128)>::empty());
    while taken.len() > 0
        invariant
            taken@.len() <= n,
            n == orig.len(),
            forall|k: int| 0 <= k < taken@.len() ==> #[trigger] taken@[k] == orig[orig.len() - 1 - k],
            out@ == sort_desc(orig.take(n - taken@.len())),
        decreases taken@.len(),
    {
        let x = taken.pop().unwrap();
        let ghost done = n - taken@.len() - 1;
        assert(x == orig[done]);
        assert(orig.take(done + 1).drop_last() == orig.take(done));
        assert(orig.take(done + 1).last() == x);
        proof {
            lemma_sort_desc(orig.take(done));
            lemma_insert_pos(out@, x.1);
        }
        let mut p: usize = out.len();
        assert(out@.take(out@.len() as int) == out@);
        while p > 0 && out[p - 1].1 < x.1
            invariant
                0 <= p <= out@.len(),
                keys_desc(out@),
                insert_pos(out@, x.1) == insert_pos(out@.take(p as int), x.1),
                forall|i: int| p <= i < out@.len() ==> out@[i].1 < x.1,
            decreases p,
        {
            assert(out@.take(p as int).drop_last() == out@.take(p - 1));
            p = p - 1;
        }
        proof {
            if p > 0 {
                assert(out@.take(p as int).last() == out@[p - 1]);
            }
            assert(out@.take(out@.len() as int) == out@);
        }
        let ghost before = out@;
        out.insert(p, x);
        assert(out@ =~= before.take(p as int).push(x) + before.skip(p as int));
    }
    assert(orig.take(n as int) == orig);
    out
}

} // verus!
