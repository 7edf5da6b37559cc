//! A stable sort by an integer key, as `slice::sort_by_key` does it.
//!
//! The spec is insertion sort: each element, taken in order, goes after every element already
//! placed whose key is not greater than its own. That is exactly the order a stable sort gives.
use vstd::prelude::*;

verus! {

/// Something with an integer sort key.
pub trait SortKey: Sized {
    /// The key, as a spec value.
    spec fn sort_key(&self) -> int;

    /// The key, computed.
    fn key(&self) -> (k: u64)
        ensures
            k == self.sort_key(),
    ;
}

/// The index of the first element of `s` whose key is greater than `k` (`s.len()` if none).
pub open spec fn first_greater<T: SortKey>(s: Seq<T>, k: int) -> int
    decreases s.len(),
{
    if s.len() == 0 {
        0
    } else if s[0].sort_key() > k {
        0
    } else {
        1 + first_greater(s.drop_first(), k)
    }
}

/// `x` inserted into `s` after every element whose key is not greater than its own.
pub open spec fn insert_by_key<T: SortKey>(s: Seq<T>, x: T) -> Seq<T> {
    s.insert(first_greater(s, x.sort_key()), x)
}

/// `s`, stably sorted by key.
pub open spec fn sorted_by_key<T: SortKey>(s: Seq<T>) -> Seq<T>
    decreases s.len(),
{
    if s.len() == 0 {
        s
    } else {
        insert_by_key(sorted_by_key(s.drop_last()), s.last())
    }
}

/// The keys of `s` never decrease.
pub open spec fn keys_nondecreasing<T: SortKey>(s: Seq<T>) -> bool {
    forall|i: int, j: int| 0 <= i <= j < s.len() ==> s[i].sort_key() <= s[j].sort_key()
}

proof fn lemma_first_greater_bounds<T: SortKey>(s: Seq<T>, k: int)
    ensures
        0 <= first_greater(s, k) <= s.len(),
        forall|j: int| 0 <= j < first_greater(s, k) ==> #[trigger] s[j].sort_key() <= k,
        first_greater(s, k) < s.len() ==> s[first_greater(s, k)].sort_key() > k,
    decreases s.len(),
{
    if s.len() > 0 && s[0].sort_key() <= k {
        let t = s.drop_first();
        lemma_first_greater_bounds(t, k);
        assert forall|j: int| 0 <= j < first_greater(s, k) implies #[trigger] s[j].sort_key()
            <= k by {
            if j > 0 {
                assert(s[j] == t[j - 1]);
            }
        }
    }
}

proof fn lemma_first_greater_is<T: SortKey>(s: Seq<T>, k: int, p: int)
    requires
        0 <= p <= s.len(),
        forall|j: int| 0 <= j < p ==> #[trigger] s[j].sort_key() <= k,
        p < s.len() ==> s[p].sort_key() > k,
    ensures
        first_greater(s, k) == p,
    decreases s.len(),
{
    if s.len() > 0 && p > 0 {
        let t = s.drop_first();
        assert(s[0].sort_key() <= k);
        assert forall|j: int| 0 <= j < p - 1 implies #[trigger] t[j].sort_key() <= k by {
            assert(t[j] == s[j + 1]);
        }
        lemma_first_greater_is(t, k, p - 1);
    }
}

/// The stable sort by key leaves the keys in non-decreasing order.
pub proof fn lemma_sorted_by_key_is_sorted<T: SortKey>(s: Seq<T>)
    ensures
        keys_nondecreasing(sorted_by_key(s)),
        sorted_by_key(s).len() == s.len(),
    decreases s.len(),
{
    if s.len() > 0 {
        let prev = sorted_by_key(s.drop_last());
        lemma_sorted_by_key_is_sorted(s.drop_last());
        let x = s.last();
        let p = first_greater(prev, x.sort_key());
        lemma_first_greater_bounds(prev, x.sort_key());
        let r = prev.insert(p, x);
        assert forall|i: int, j: int| 0 <= i <= j < r.len() implies r[i].sort_key()
            <= r[j].sort_key() by {
            if i < p && j < p {
                assert(r[i] == prev[i] && r[j] == prev[j]);
            } else if i < p && j == p {
                assert(r[i] == prev[i]);
            } else if i < p {
                assert(r[i] == prev[i] && r[j] == prev[j - 1]);
            } else if i == p && j > p {
                assert(r[j] == prev[j - 1]);
                assert(prev[p].sort_key() <= prev[j - 1].sort_key());
            } else if i > p {
                assert(r[i] == prev[i - 1] && r[j] == prev[j - 1]);
            }
        }
    }
}

/// Stably sort `v` by key (`sort_by_key`).
pub fn sort_by_key<T: SortKey>(v: Vec<T>) -> (r: Vec<T>)
    ensures
        r@ == sorted_by_key(v@),
{
    let ghost orig = v@;
    assert(orig.len() == v.len());
    let mut rest = v;
    let mut out: Vec<T> = Vec::new();
    let mut i: usize = 0;
    while rest.len() > 0
        invariant
            i <= orig.len(),
            orig.len() <= usize::MAX,
            rest@ == orig.skip(i as int),
            out@ == sorted_by_key(orig.take(i as int)),
        decreases rest.len(),
    {
        let x = rest.remove(0);
        assert(x == orig[i as int]);
        let xk = x.key();
        let mut p: usize = 0;
        while p < out.len() && out[p].key() <= xk
            invariant
                p <= out.len(),
                forall|j: int| 0 <= j < p ==> #[trigger] out@[j].sort_key() <= xk,
            decreases out.len() - p,
        {
            p = p + 1;
        }
        proof {
            lemma_first_greater_is(out@, xk as int, p as int);
            assert(orig.take(i + 1).drop_last() =~= orig.take(i as int));
            assert(orig.take(i + 1).last() == x);
        }
        out.insert(p, x);
        i = i + 1;
        assert(rest@ =~= orig.skip(i as int));
    }
    assert(orig.take(i as int) =~= orig);
    out
}

} // verus!
