//! Permutations over index vectors: the sort order used for length bucketing,
//! its inverse, and the proof that applying a permutation and then its inverse
//! restores the original order.

use vstd::prelude::*;

verus! {

/// `k` occurs as an entry of `p`.
pub open spec fn occurs(p: Seq<usize>, k: int) -> bool {
    exists|i: int| 0 <= i < p.len() && (#[trigger] p[i]) as int == k
}

/// `p` is a permutation of `0 .. p.len()`: every entry is in range, no entry
/// repeats, and every index in range occurs.
pub open spec fn is_permutation(p: Seq<usize>) -> bool {
    &&& forall|i: int| 0 <= i < p.len() ==> (#[trigger] p[i]) < p.len()
    &&& forall|i: int, j: int| 0 <= i < j < p.len() ==> p[i] != p[j]
    &&& forall|k: int| 0 <= k < p.len() ==> #[trigger] occurs(p, k)
}

/// `q` undoes `p` and `p` undoes `q`.
pub open spec fn is_inverse(p: Seq<usize>, q: Seq<usize>) -> bool {
    &&& q.len() == p.len()
    &&& forall|i: int| 0 <= i < p.len() ==> (#[trigger] q[p[i] as int]) as int == i
    &&& forall|i: int| 0 <= i < q.len() ==> (#[trigger] p[q[i] as int]) as int == i
}

/// The sequence read off in the order given by `order`: element `k` of the
/// result is `items[order[k]]`.
pub open spec fn reorder<A>(items: Seq<A>, order: Seq<usize>) -> Seq<A> {
    Seq::new(order.len(), |k: int| items[order[k] as int])
}

/// Applies an index order to a vector of indices, as `reorder` does to
/// sequences.
pub fn apply_order(items: &Vec<usize>, order: &Vec<usize>) -> (r: Vec<usize>)
    requires
        forall|k: int| 0 <= k < order@.len() ==> (#[trigger] order@[k]) < items@.len(),
    ensures
        r@ == reorder(items@, order@),
{
    let n = order.len();
    let mut r: Vec<usize> = Vec::new();
    let mut k: usize = 0;
    while k < n
        invariant
            n == order@.len(),
            forall|t: int| 0 <= t < n ==> (#[trigger] order@[t]) < items@.len(),
            k <= n,
            r@ == reorder(items@, order@).take(k as int),
        decreases n - k,
    {
        r.push(items[order[k]]);
        proof {
            assert(r@ =~= reorder(items@, order@).take(k as int + 1));
        }
        k += 1;
    }
    proof {
        assert(r@ =~= reorder(items@, order@));
    }
    r
}

/// Computes the inverse of a permutation: the vector `inv` with
/// `inv[p[i]] == i` and `p[inv[i]] == i` for every `i`.
pub fn invert(p: &Vec<usize>) -> (inv: Vec<usize>)
    requires
        is_permutation(p@),
    ensures
        is_permutation(inv@),
        is_inverse(p@, inv@),
{
    let n = p.len();
    let mut inv: Vec<usize> = Vec::new();
    let mut k: usize = 0;
    while k < n
        invariant
            n == p@.len(),
            k <= n,
            inv@.len() == k,
            forall|t: int| 0 <= t < k ==> (#[trigger] inv@[t]) == 0,
        decreases n - k,
    {
        inv.push(0);
        k += 1;
    }
    let mut i: usize = 0;
    while i < n
        invariant
            n == p@.len(),
            is_permutation(p@),
            i <= n,
            inv@.len() == n,
            forall|j: int| 0 <= j < i ==> (#[trigger] inv@[p@[j] as int]) as int == j,
        decreases n - i,
    {
        let target = p[i];
        inv[target] = i;
        proof {
            assert(forall|j: int|
                0 <= j < i ==> p@[j] != p@[i as int] && (#[trigger] inv@[p@[j] as int]) as int
                    == j);
        }
        i += 1;
    }
    proof {
        lemma_left_inverse_is_inverse(p@, inv@);
    }
    inv
}

/// A vector that undoes a permutation entrywise is its two-sided inverse and a
/// permutation itself.
proof fn lemma_left_inverse_is_inverse(p: Seq<usize>, q: Seq<usize>)
    requires
        is_permutation(p),
        q.len() == p.len(),
        forall|i: int| 0 <= i < p.len() ==> (#[trigger] q[p[i] as int]) as int == i,
    ensures
        is_permutation(q),
        is_inverse(p, q),
{
    let n = p.len() as int;
    assert forall|k: int| 0 <= k < n implies (#[trigger] p[q[k] as int]) as int == k by {
        assert(occurs(p, k));
        let i = choose|i: int| 0 <= i < p.len() && (#[trigger] p[i]) as int == k;
        assert(q[p[i] as int] as int == i);
    }
    assert forall|k: int| 0 <= k < n implies (#[trigger] q[k]) < p.len() by {
        assert(occurs(p, k));
        let i = choose|i: int| 0 <= i < p.len() && (#[trigger] p[i]) as int == k;
        assert(q[k] as int == i);
    }
    assert forall|i: int, j: int| 0 <= i < j < n implies q[i] != q[j] by {
        assert(p[q[i] as int] as int == i);
        assert(p[q[j] as int] as int == j);
    }
    assert forall|k: int| 0 <= k < n implies #[trigger] occurs(q, k) by {
        assert(q[p[k] as int] as int == k);
    }
}

/// Comparison key for the length sort: ascending by value, ties broken by the
/// index itself, so the order is total and the sort deterministic.
pub open spec fn key_lt(v: Seq<usize>, a: usize, b: usize) -> bool {
    v[a as int] < v[b as int] || (v[a as int] == v[b as int] && a < b)
}

/// The indices `0 .. v.len()` sorted ascending by `v[i]`, ties broken by the
/// index itself: a stable sort, whose inverse is therefore well defined. This
/// is the order in which sentences are grouped into batches.
pub fn argsort(v: &Vec<usize>) -> (idx: Vec<usize>)
    ensures
        idx@.len() == v@.len(),
        is_permutation(idx@),
        forall|a: int, b: int| 0 <= a < b < idx@.len() ==> key_lt(v@, idx@[a], idx@[b]),
{
    let n = v.len();
    let mut idx: Vec<usize> = Vec::new();
    let mut i: usize = 0;
    while i < n
        invariant
            n == v@.len(),
            i <= n,
            idx@.len() == i,
            forall|t: int| 0 <= t < i ==> (#[trigger] idx@[t]) < i,
            forall|a: int, b: int| 0 <= a < b < i ==> idx@[a] != idx@[b],
            forall|k: int| 0 <= k < i ==> #[trigger] occurs(idx@, k),
            forall|a: int, b: int| 0 <= a < b < i ==> key_lt(v@, idx@[a], idx@[b]),
        decreases n - i,
    {
        let mut pos: usize = 0;
        while pos < idx.len() && v[idx[pos]] <= v[i]
            invariant
                n == v@.len(),
                i < n,
                idx@.len() == i,
                forall|t: int| 0 <= t < i ==> (#[trigger] idx@[t]) < i,
                pos <= i,
                forall|t: int| 0 <= t < pos ==> key_lt(v@, #[trigger] idx@[t], i as usize),
            decreases i - pos,
        {
            pos += 1;
        }
        let ghost prior = idx@;
        idx.insert(pos, i);
        proof {
            prior.insert_ensures(pos as int, i as usize);
            assert forall|t: int| 0 <= t < pos implies key_lt(v@, #[trigger] idx@[t], i as usize) by {
                assert(idx@[t] == prior[t]);
            }
            assert forall|t: int| pos < t < idx@.len() implies key_lt(
                v@,
                i as usize,
                #[trigger] idx@[t],
            ) by {
                assert(idx@[t] == prior[t - 1]);
                assert(v@[prior[pos as int] as int] > v@[i as int]);
                if (pos as int) < t - 1 {
                    assert(key_lt(v@, prior[pos as int], prior[t - 1]));
                }
            }
            assert forall|a: int, b: int| 0 <= a < b < idx@.len() implies key_lt(
                v@,
                idx@[a],
                idx@[b],
            ) by {
                if a < pos && b < pos {
                    assert(idx@[a] == prior[a] && idx@[b] == prior[b]);
                } else if pos < a && pos < b {
                    assert(idx@[a] == prior[a - 1] && idx@[b] == prior[b - 1]);
                }
            }
            assert forall|t: int| 0 <= t < i + 1 implies (#[trigger] idx@[t]) < i + 1 by {
                if t < pos {
                    assert(idx@[t] == prior[t]);
                } else if t > pos {
                    assert(idx@[t] == prior[t - 1]);
                }
            }
            assert forall|a: int, b: int| 0 <= a < b < i + 1 implies idx@[a] != idx@[b] by {
                assert(key_lt(v@, idx@[a], idx@[b]));
            }
            assert forall|k: int| 0 <= k < i + 1 implies #[trigger] occurs(idx@, k) by {
                if k == i {
                    assert(idx@[pos as int] as int == k);
                } else {
                    assert(occurs(prior, k));
                    let t = choose|t: int| 0 <= t < prior.len() && (#[trigger] prior[t]) as int
                        == k;
                    if t < pos {
                        assert(idx@[t] as int == k);
                    } else {
                        assert(idx@[t + 1] as int == k);
                    }
                }
            }
        }
        i += 1;
    }
    idx
}

/// The first `t` entries of two strictly sorted permutations agree.
proof fn lemma_sorted_prefix_equal(v: Seq<usize>, p1: Seq<usize>, p2: Seq<usize>, t: int)
    requires
        p1.len() == v.len(),
        p2.len() == v.len(),
        is_permutation(p1),
        is_permutation(p2),
        forall|a: int, b: int| 0 <= a < b < v.len() ==> key_lt(v, p1[a], p1[b]),
        forall|a: int, b: int| 0 <= a < b < v.len() ==> key_lt(v, p2[a], p2[b]),
        0 <= t <= v.len(),
    ensures
        forall|s: int| 0 <= s < t ==> p1[s] == p2[s],
    decreases t,
{
    if t > 0 {
        lemma_sorted_prefix_equal(v, p1, p2, t - 1);
        let x = p1[t - 1];
        let y = p2[t - 1];
        if x != y {
            assert(occurs(p2, x as int));
            let j = choose|j: int| 0 <= j < p2.len() && (#[trigger] p2[j]) as int == x as int;
            assert(j != t - 1);
            if j < t - 1 {
                assert(p2[j] == p1[j]);
                assert(p1[j] != p1[t - 1]);
                assert(false);
            }
            assert(key_lt(v, y, x));
            assert(occurs(p1, y as int));
            let i = choose|i: int| 0 <= i < p1.len() && (#[trigger] p1[i]) as int == y as int;
            assert(i != t - 1);
            if i < t - 1 {
                assert(p1[i] == p2[i]);
                assert(p2[i] != p2[t - 1]);
                assert(false);
            }
            assert(key_lt(v, x, y));
            assert(false);
        }
    }
}

/// The sort order is unique: any two permutations that are both strictly
/// sorted by the same keys are equal. The length sort is therefore fully
/// determined by the sentence lengths, whatever algorithm produced it.
pub proof fn lemma_sorted_permutation_unique(v: Seq<usize>, p1: Seq<usize>, p2: Seq<usize>)
    requires
        p1.len() == v.len(),
        p2.len() == v.len(),
        is_permutation(p1),
        is_permutation(p2),
        forall|a: int, b: int| 0 <= a < b < v.len() ==> key_lt(v, p1[a], p1[b]),
        forall|a: int, b: int| 0 <= a < b < v.len() ==> key_lt(v, p2[a], p2[b]),
    ensures
        p1 == p2,
{
    lemma_sorted_prefix_equal(v, p1, p2, v.len() as int);
    assert(p1 =~= p2);
}

/// A permutation has exactly one inverse.
pub proof fn lemma_inverse_unique(p: Seq<usize>, q1: Seq<usize>, q2: Seq<usize>)
    requires
        is_permutation(p),
        is_permutation(q1),
        is_permutation(q2),
        is_inverse(p, q1),
        is_inverse(p, q2),
    ensures
        q1 == q2,
{
    assert forall|k: int| 0 <= k < p.len() implies q1[k] == q2[k] by {
        assert(p[q1[k] as int] as int == k);
        assert(p[q2[k] as int] as int == k);
        if q1[k] != q2[k] {
            if (q1[k] as int) < (q2[k] as int) {
                assert(p[q1[k] as int] != p[q2[k] as int]);
            } else {
                assert(p[q2[k] as int] != p[q1[k] as int]);
            }
        }
    }
    assert(q1 =~= q2);
}

/// Order preservation: reading `items` in sorted order and then reading that
/// result in the order of the inverse permutation yields `items` unchanged.
/// This is why embeddings gathered in length-sorted batch order come back in
/// the caller's original sentence order.
pub proof fn lemma_sort_then_restore_identity<A>(items: Seq<A>, p: Seq<usize>, q: Seq<usize>)
    requires
        items.len() == p.len(),
        is_permutation(p),
        is_permutation(q),
        is_inverse(p, q),
    ensures
        reorder(reorder(items, p), q) == items,
{
    let sorted = reorder(items, p);
    assert forall|i: int| 0 <= i < items.len() implies reorder(sorted, q)[i] == items[i] by {
        assert(p[q[i] as int] as int == i);
    }
    assert(reorder(reorder(items, p), q) =~= items);
}

} // verus!
