//! Stable insertion sort of positions by a key order, stated as a spec
//! function and computed by an executable sort that produces the same result.
use vstd::prelude::*;

verus! {

/// Values that carry a strict order used to sort them.
pub trait KeyOrder: Sized {
    /// `self` sorts strictly before `other`.
    spec fn key_lt(&self, other: &Self) -> bool;

    /// Executable form of [`KeyOrder::key_lt`].
    fn key_less(&self, other: &Self) -> (r: bool)
        ensures
            r == self.key_lt(other),
    ;
}

/// Inserts position `x` into the sorted positions `sorted`: before the first
/// position whose value sorts strictly after the value at `x`, so that equal
/// values keep their original order.
pub open spec fn insert_pos<T: KeyOrder>(s: Seq<T>, sorted: Seq<int>, x: int) -> Seq<int>
    decreases sorted.len(),
{
    if sorted.len() == 0 {
        seq![x]
    } else if s[x].key_lt(&s[sorted[0]]) {
        seq![x] + sorted
    } else {
        seq![sorted[0]] + insert_pos(s, sorted.drop_first(), x)
    }
}

/// The positions `idx` into `s`, stably sorted by the values they point to.
pub open spec fn sort_positions<T: KeyOrder>(s: Seq<T>, idx: Seq<int>) -> Seq<int>
    decreases idx.len(),
{
    if idx.len() == 0 {
        Seq::empty()
    } else {
        insert_pos(s, sort_positions(s, idx.drop_last()), idx.last())
    }
}

/// The positions `0, 1, ..., n - 1`.
pub open spec fn all_positions(n: nat) -> Seq<int> {
    Seq::new(n, |i: int| i)
}

/// First position `p` in `sorted` whose value sorts strictly after the value at `x`
/// (or `sorted.len()` if there is none).
pub open spec fn first_after<T: KeyOrder>(s: Seq<T>, sorted: Seq<int>, x: int) -> int
    decreases sorted.len(),
{
    if sorted.len() == 0 {
        0
    } else if s[x].key_lt(&s[sorted[0]]) {
        0
    } else {
        1 + first_after(s, sorted.drop_first(), x)
    }
}

proof fn lemma_insert_pos_is_insert<T: KeyOrder>(s: Seq<T>, sorted: Seq<int>, x: int)
    ensures
        0 <= first_after(s, sorted, x) <= sorted.len(),
        insert_pos(s, sorted, x) == sorted.insert(first_after(s, sorted, x), x),
    decreases sorted.len(),
{
    if sorted.len() == 0 {
        assert(seq![x] =~= sorted.insert(0, x));
    } else if s[x].key_lt(&s[sorted[0]]) {
        assert(seq![x] + sorted =~= sorted.insert(0, x));
    } else {
        lemma_insert_pos_is_insert(s, sorted.drop_first(), x);
        let p = first_after(s, sorted.drop_first(), x);
        assert(seq![sorted[0]] + sorted.drop_first().insert(p, x) =~= sorted.insert(p + 1, x));
    }
}

proof fn lemma_first_after_scan<T: KeyOrder>(s: Seq<T>, sorted: Seq<int>, x: int, j: int)
    requires
        0 <= j <= sorted.len(),
        forall|k: int| 0 <= k < j ==> !s[x].key_lt(&s[#[trigger] sorted[k]]),
        j == sorted.len() || s[x].key_lt(&s[sorted[j]]),
    ensures
        first_after(s, sorted, x) == j,
    decreases sorted.len(),
{
    if sorted.len() > 0 && j > 0 {
        assert forall|k: int| 0 <= k < j - 1 implies !s[x].key_lt(&s[#[trigger] sorted.drop_first()[k]]) by {
            assert(sorted.drop_first()[k] == sorted[k + 1]);
        }
        if j < sorted.len() {
            assert(sorted.drop_first()[j - 1] == sorted[j]);
        }
        assert(!s[x].key_lt(&s[sorted[0]]));
        lemma_first_after_scan(s, sorted.drop_first(), x, j - 1);
    }
}

/// The values of `sorted` are positions in `0..n`.
pub open spec fn positions_below(sorted: Seq<int>, n: int) -> bool {
    forall|k: int| 0 <= k < sorted.len() ==> 0 <= #[trigger] sorted[k] < n
}

pub(crate) proof fn lemma_sort_positions_bounds<T: KeyOrder>(s: Seq<T>, idx: Seq<int>, n: int)
    requires
        positions_below(idx, n),
    ensures
        positions_below(sort_positions(s, idx), n),
        sort_positions(s, idx).len() == idx.len(),
    decreases idx.len(),
{
    if idx.len() > 0 {
        assert(positions_below(idx.drop_last(), n));
        lemma_sort_positions_bounds(s, idx.drop_last(), n);
        let prev = sort_positions(s, idx.drop_last());
        lemma_insert_pos_is_insert(s, prev, idx.last());
        let p = first_after(s, prev, idx.last());
        assert forall|k: int| 0 <= k < prev.insert(p, idx.last()).len() implies 0 <= #[trigger] prev.insert(p, idx.last())[k] < n by {
            if k < p {
                assert(prev.insert(p, idx.last())[k] == prev[k]);
            } else if k > p {
                assert(prev.insert(p, idx.last())[k] == prev[k - 1]);
            }
        }
    }
}

/// Positions already in order (no later value sorts strictly before an earlier
/// one) stay as they are.
pub proof fn lemma_sort_positions_sorted<T: KeyOrder>(s: Seq<T>, idx: Seq<int>)
    requires
        forall|a: int, b: int| #![trigger idx[a], idx[b]] 0 <= a < b < idx.len() ==> !s[idx[b]].key_lt(&s[idx[a]]),
    ensures
        sort_positions(s, idx) == idx,
    decreases idx.len(),
{
    if idx.len() > 0 {
        let pre = idx.drop_last();
        let x = idx.last();
        assert forall|a: int, b: int| #![trigger pre[a], pre[b]] 0 <= a < b < pre.len() implies !s[pre[b]].key_lt(&s[pre[a]]) by {
            assert(pre[a] == idx[a] && pre[b] == idx[b]);
        }
        lemma_sort_positions_sorted(s, pre);
        assert forall|k: int| 0 <= k < pre.len() implies !s[x].key_lt(&s[#[trigger] pre[k]]) by {
            assert(pre[k] == idx[k]);
            assert(x == idx[idx.len() - 1]);
        }
        lemma_first_after_scan(s, pre, x, pre.len() as int);
        lemma_insert_pos_is_insert(s, pre, x);
        assert(pre.insert(pre.len() as int, x) =~= idx);
    }
}

/// Positions of `v` as `usize`s, viewed as integers.
pub open spec fn usize_seq_as_int(v: Seq<usize>) -> Seq<int> {
    v.map_values(|u: usize| u as int)
}

/// Stably sorts the positions `idx` into `v` by the values they point to.
pub fn sort_positions_exec<T: KeyOrder>(v: &[T], idx: &Vec<usize>) -> (r: Vec<usize>)
    requires
        forall|k: int| 0 <= k < idx@.len() ==> #[trigger] idx@[k] < v@.len(),
    ensures
        usize_seq_as_int(r@) == sort_positions(v@, usize_seq_as_int(idx@)),
        r@.len() == idx@.len(),
        forall|k: int| 0 <= k < r@.len() ==> #[trigger] r@[k] < v@.len(),
{
    let mut r: Vec<usize> = Vec::new();
    let mut i: usize = 0;
    assert(usize_seq_as_int(idx@).subrange(0, 0) =~= Seq::<int>::empty());
    assert(usize_seq_as_int(r@) =~= Seq::<int>::empty());
    while i < idx.len()
        invariant
            i <= idx@.len(),
            forall|k: int| 0 <= k < idx@.len() ==> #[trigger] idx@[k] < v@.len(),
            usize_seq_as_int(r@) == sort_positions(v@, usize_seq_as_int(idx@).subrange(0, i as int)),
            r@.len() == i,
            forall|k: int| 0 <= k < r@.len() ==> #[trigger] r@[k] < v@.len(),
        decreases idx@.len() - i,
    {
        let x = idx[i];
        let ghost sorted = usize_seq_as_int(r@);
        let mut j: usize = 0;
        while j < r.len() && !v[x].key_less(&v[r[j]])
            invariant
                j <= r@.len(),
                x < v@.len(),
                sorted == usize_seq_as_int(r@),
                forall|k: int| 0 <= k < r@.len() ==> #[trigger] r@[k] < v@.len(),
                forall|k: int| 0 <= k < j ==> !v@[x as int].key_lt(&v@[#[trigger] sorted[k]]),
            decreases r@.len() - j,
        {
            j = j + 1;
        }
        proof {
            lemma_first_after_scan(v@, sorted, x as int, j as int);
            lemma_insert_pos_is_insert(v@, sorted, x as int);
            let pre = usize_seq_as_int(idx@).subrange(0, i as int);
            let nxt = usize_seq_as_int(idx@).subrange(0, i + 1);
            assert(nxt.drop_last() == pre);
            assert(nxt.last() == x as int);
        }
        r.insert(j, x);
        proof {
            assert(usize_seq_as_int(r@) =~= sorted.insert(j as int, x as int));
        }
        i = i + 1;
    }
    assert(usize_seq_as_int(idx@).subrange(0, idx@.len() as int) == usize_seq_as_int(idx@));
    r
}

/// The positions `0..n` as a vector.
pub fn positions_upto(n: usize) -> (r: Vec<usize>)
    ensures
        usize_seq_as_int(r@) == all_positions(n as nat),
        r@.len() == n,
        forall|k: int| 0 <= k < n ==> #[trigger] r@[k] == k,
{
    let mut r: Vec<usize> = Vec::new();
    let mut i: usize = 0;
    while i < n
        invariant
            i <= n,
            r@.len() == i,
            forall|k: int| 0 <= k < i ==> #[trigger] r@[k] == k,
        decreases n - i,
    {
        r.push(i);
        i = i + 1;
    }
    assert(usize_seq_as_int(r@) =~= all_positions(n as nat));
    r
}

} // verus!
