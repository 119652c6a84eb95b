//! Stable orderings, computed as permutations of positions.

use vstd::prelude::*;

verus! {

/// `order` lists each of the positions `0..n` exactly once.
pub open spec fn is_permutation(order: Seq<usize>, n: int) -> bool {
    &&& order.len() == n
    &&& forall|i: int| 0 <= i < order.len() ==> #[trigger] order[i] < n
    &&& forall|i: int, j: int|
        0 <= i < order.len() && 0 <= j < order.len() && i != j ==> #[trigger] order[i]
            != #[trigger] order[j]
}

/// Three-way comparison of integers: -1, 0 or 1.
pub open spec fn three_way(a: int, b: int) -> int {
    if a < b {
        -1
    } else if a > b {
        1
    } else {
        0
    }
}

/// A way of comparing the positions `0..size` of some list.
pub trait Ranking {
    /// Number of positions.
    spec fn size(&self) -> nat;

    /// -1, 0 or 1 as position `a` sorts before, with, or after position `b`.
    spec fn rank(&self, a: int, b: int) -> int;

    proof fn rank_antisymmetric(&self, a: int, b: int)
        requires
            0 <= a < self.size(),
            0 <= b < self.size(),
        ensures
            self.rank(a, b) == -self.rank(b, a),
    ;

    fn count(&self) -> (n: usize)
        ensures
            n == self.size(),
    ;

    fn compare(&self, a: usize, b: usize) -> (c: i8)
        requires
            a < self.size(),
            b < self.size(),
        ensures
            c == self.rank(a as int, b as int),
            -1 <= c <= 1,
    ;
}

/// Each position comes before the next: by rank, and by original position
/// where the ranks tie (the order is stable).
pub open spec fn ranked_sorted<R: Ranking>(r: &R, order: Seq<usize>) -> bool {
    forall|i: int|
        0 <= i < order.len() - 1 ==> {
            let c = r.rank(#[trigger] order[i] as int, order[i + 1] as int);
            c < 0 || (c == 0 && order[i] < order[i + 1])
        }
}

/// Sorts the positions `0..size`, keeping tied positions in their original
/// order.
pub fn sort_ranked<R: Ranking>(r: &R) -> (order: Vec<usize>)
    ensures
        is_permutation(order@, r.size() as int),
        ranked_sorted(r, order@),
{
    let n = r.count();
    let mut order: Vec<usize> = Vec::new();
    let mut i: usize = 0;
    while i < n
        invariant
            0 <= i <= n,
            n == r.size(),
            is_permutation(order@, i as int),
            ranked_sorted(r, order@),
        decreases n - i,
    {
        // The insertion point: after every position that does not sort after i.
        let mut p = order.len();
        while p > 0 && r.compare(order[p - 1], i) > 0
            invariant
                0 <= p <= order@.len(),
                order@.len() == i,
                n == r.size(),
                i < n,
                is_permutation(order@, i as int),
                ranked_sorted(r, order@),
                forall|q: int| p <= q < order@.len() ==> r.rank(#[trigger] order@[q] as int, i as int) > 0,
            decreases p,
        {
            p = p - 1;
        }
        let ghost before = order@;
        order.insert(p, i);
        proof {
            assert(order@ == before.insert(p as int, i));
            assert forall|a: int| 0 <= a < order@.len() implies #[trigger] order@[a] < i + 1 by {
                if a < p {
                } else if a > p {
                    assert(order@[a] == before[a - 1]);
                }
            }
            assert forall|a: int, b: int|
                0 <= a < order@.len() && 0 <= b < order@.len() && a != b implies #[trigger] order@[a]
                != #[trigger] order@[b] by {
                if a != p as int && b != p as int {
                    let a0 = if a < p { a } else { a - 1 };
                    let b0 = if b < p { b } else { b - 1 };
                    assert(order@[a] == before[a0]);
                    assert(order@[b] == before[b0]);
                } else if a == p as int {
                    let b0 = if b < p { b } else { b - 1 };
                    assert(order@[b] == before[b0]);
                } else {
                    let a0 = if a < p { a } else { a - 1 };
                    assert(order@[a] == before[a0]);
                }
            }
            assert forall|a: int| 0 <= a < order@.len() - 1 implies {
                let c = r.rank(#[trigger] order@[a] as int, order@[a + 1] as int);
                c < 0 || (c == 0 && order@[a] < order@[a + 1])
            } by {
                if a + 1 < p {
                    assert(order@[a] == before[a]);
                    assert(order@[a + 1] == before[a + 1]);
                } else if a + 1 == p {
                    assert(order@[a] == before[a]);
                } else if a == p {
                    assert(order@[a + 1] == before[a]);
                    r.rank_antisymmetric(i as int, before[a] as int);
                } else {
                    assert(order@[a] == before[a - 1]);
                    assert(order@[a + 1] == before[a]);
                }
            }
        }
        i = i + 1;
    }
    order
}

/// Positions ranked by integer keys, largest first when `descending`.
pub struct KeyRanking {
    pub keys: Vec<i64>,
    pub descending: bool,
}

impl Ranking for KeyRanking {
    open spec fn size(&self) -> nat {
        self.keys@.len()
    }

    open spec fn rank(&self, a: int, b: int) -> int {
        if self.descending {
            three_way(self.keys@[b] as int, self.keys@[a] as int)
        } else {
            three_way(self.keys@[a] as int, self.keys@[b] as int)
        }
    }

    proof fn rank_antisymmetric(&self, a: int, b: int) {
    }

    fn count(&self) -> (n: usize) {
        self.keys.len()
    }

    fn compare(&self, a: usize, b: usize) -> (c: i8) {
        let (x, y) = if self.descending {
            (self.keys[b], self.keys[a])
        } else {
            (self.keys[a], self.keys[b])
        };
        if x < y {
            -1
        } else if x > y {
            1
        } else {
            0
        }
    }
}

/// The items of `v` in the order `order` lists their positions.
pub open spec fn permuted<T>(v: Seq<T>, order: Seq<usize>) -> Seq<T> {
    Seq::new(order.len(), |k: int| v[order[k] as int])
}

/// Rearranges `v` so that its `k`-th item is the one at position `order[k]`.
pub fn permute<T>(v: Vec<T>, order: &Vec<usize>) -> (r: Vec<T>)
    requires
        is_permutation(order@, v@.len() as int),
    ensures
        r@ == permuted(v@, order@),
{
    let ghost original = v@;
    let n = v.len();
    let mut slots: Vec<Option<T>> = Vec::new();
    let mut k: usize = 0;
    while k < n
        invariant
            0 <= k <= n,
            n == original.len(),
            slots@.len() == k,
            forall|i: int| 0 <= i < k ==> #[trigger] slots@[i] is None,
        decreases n - k,
    {
        slots.push(None);
        k = k + 1;
    }
    let mut rest = v;
    while rest.len() > 0
        invariant
            slots@.len() == n,
            n == original.len(),
            rest@.len() <= n,
            rest@ == original.take(rest@.len() as int),
            forall|i: int| 0 <= i < rest@.len() ==> #[trigger] slots@[i] is None,
            forall|i: int| rest@.len() <= i < n ==> #[trigger] slots@[i] == Some(original[i]),
        decreases rest@.len(),
    {
        let ghost before = rest@;
        let idx = rest.len() - 1;
        let item = rest.pop().unwrap();
        slots.set(idx, Some(item));
        proof {
            assert(rest@ =~= original.take(rest@.len() as int));
        }
    }
    let mut r: Vec<T> = Vec::new();
    let mut j: usize = 0;
    while j < order.len()
        invariant
            0 <= j <= order@.len(),
            is_permutation(order@, n as int),
            slots@.len() == n,
            n == original.len(),
            r@ == permuted(original, order@.take(j as int)),
            forall|i: int|
                0 <= i < n ==> (#[trigger] slots@[i] == Some(original[i]) || slots@[i] is None),
            forall|q: int| j <= q < order@.len() ==> #[trigger] slots@[order@[q] as int] == Some(
                original[order@[q] as int],
            ),
        decreases order@.len() - j,
    {
        let i = order[j];
        let mut taken: Option<T> = None;
        slots.set_and_swap(i, &mut taken);
        let item = match taken {
            Some(item) => item,
            None => {
                proof {
                    assert(false);
                }
                return r;
            },
        };
        r.push(item);
        proof {
            assert(r@ =~= permuted(original, order@.take(j + 1)));
            assert forall|q: int| j + 1 <= q < order@.len() implies #[trigger] slots@[order@[q] as int]
                == Some(original[order@[q] as int]) by {
                assert(order@[q] != order@[j as int]);
            }
        }
        j = j + 1;
    }
    proof {
        assert(order@.take(order@.len() as int) =~= order@);
    }
    r
}

/// `v` back to front.
pub fn reversed<T>(v: Vec<T>) -> (r: Vec<T>)
    ensures
        r@ == v@.reverse(),
{
    let ghost original = v@;
    let mut rest = v;
    let mut r: Vec<T> = Vec::new();
    while rest.len() > 0
        invariant
            rest@.len() <= original.len(),
            rest@ == original.take(rest@.len() as int),
            r@ == original.skip(rest@.len() as int).reverse(),
        decreases rest@.len(),
    {
        let item = rest.pop().unwrap();
        r.push(item);
        proof {
            assert(rest@ =~= original.take(rest@.len() as int));
            assert(r@ =~= original.skip(rest@.len() as int).reverse());
        }
    }
    proof {
        assert(original.skip(0) =~= original);
    }
    r
}

/// Position `a` comes before position `b`: by rank, ties by position.
pub open spec fn precedes(rank: spec_fn(int, int) -> int, a: int, b: int) -> bool {
    rank(a, b) < 0 || (rank(a, b) == 0 && a < b)
}

/// Adjacent positions of `order` come one before the other.
pub open spec fn adjacent_sorted(rank: spec_fn(int, int) -> int, order: Seq<usize>) -> bool {
    forall|i: int|
        0 <= i < order.len() - 1 ==> precedes(rank, #[trigger] order[i] as int, order[i + 1] as int)
}

/// `rank` orders the positions `0..n` as a total preorder: it is
/// antisymmetric, and "not after" is transitive.
pub open spec fn total_preorder(rank: spec_fn(int, int) -> int, n: int) -> bool {
    &&& forall|a: int, b: int| 0 <= a < n && 0 <= b < n ==> #[trigger] rank(a, b) == -rank(b, a)
    &&& forall|a: int, b: int, c: int|
        0 <= a < n && 0 <= b < n && 0 <= c < n && #[trigger] rank(a, b) <= 0 && #[trigger] rank(
            b,
            c,
        ) <= 0 ==> rank(a, c) <= 0
}

proof fn lemma_precedes_transitive(rank: spec_fn(int, int) -> int, n: int, a: int, b: int, c: int)
    requires
        total_preorder(rank, n),
        0 <= a < n,
        0 <= b < n,
        0 <= c < n,
        precedes(rank, a, b),
        precedes(rank, b, c),
    ensures
        precedes(rank, a, c),
{
    assert(rank(a, b) <= 0 && rank(b, c) <= 0);
    assert(rank(a, c) <= 0);
    if rank(a, c) == 0 {
        assert(rank(c, a) == 0);
        if rank(a, b) < 0 {
            assert(rank(c, a) <= 0 && rank(a, b) <= 0);
            assert(rank(c, b) <= 0);
            assert(rank(b, c) == 0);
            assert(rank(b, c) <= 0 && rank(c, a) <= 0);
            assert(rank(b, a) <= 0);
            assert(false);
        }
        if rank(b, c) < 0 {
            assert(rank(b, c) <= 0 && rank(c, a) <= 0);
            assert(rank(b, a) <= 0);
            assert(rank(a, b) == 0);
            assert(rank(c, a) <= 0 && rank(a, b) <= 0);
            assert(rank(c, b) <= 0);
            assert(false);
        }
    }
}

proof fn lemma_sorted_everywhere(rank: spec_fn(int, int) -> int, n: int, order: Seq<usize>, i: int, j: int)
    requires
        total_preorder(rank, n),
        is_permutation(order, n),
        adjacent_sorted(rank, order),
        0 <= i < j < order.len(),
    ensures
        precedes(rank, order[i] as int, order[j] as int),
    decreases j - i,
{
    assert(precedes(rank, order[j - 1] as int, order[j] as int));
    if i < j - 1 {
        lemma_sorted_everywhere(rank, n, order, i, j - 1);
        lemma_precedes_transitive(
            rank,
            n,
            order[i] as int,
            order[j - 1] as int,
            order[j] as int,
        );
    }
}

/// Every position appears in a permutation.
pub proof fn lemma_permutation_onto(order: Seq<usize>, n: int, x: int)
    requires
        is_permutation(order, n),
        0 <= x < n,
    ensures
        exists|k: int| 0 <= k < n && order[k] == x,
{
    broadcast use vstd::seq_lib::seq_to_set_is_finite;

    let ints = order.map_values(|v: usize| v as int);
    assert(ints.no_duplicates()) by {
        assert forall|i: int, j: int| 0 <= i < ints.len() && 0 <= j < ints.len() && i != j implies ints[i]
            != ints[j] by {
            assert(order[i] != order[j]);
        }
    }
    ints.unique_seq_to_set();
    vstd::set_lib::lemma_int_range(0, n);
    let range = vstd::set_lib::set_int_range(0, n);
    assert(ints.to_set().subset_of(range)) by {
        assert forall|v: int| ints.to_set().contains(v) implies range.contains(v) by {
            let k = choose|k: int| 0 <= k < ints.len() && ints[k] == v;
            assert(order[k] < n);
        }
    }
    vstd::set_lib::lemma_subset_equality(ints.to_set(), range);
    assert(range.contains(x));
    assert(ints.to_set().contains(x));
    let k = choose|k: int| 0 <= k < ints.len() && ints[k] == x;
    assert(order[k] == x);
}

/// Under a total preorder, the stable sort of `0..n` is unique: any two
/// permutations whose neighbours come one before the other are the same.
pub proof fn lemma_stable_order_unique(
    rank: spec_fn(int, int) -> int,
    n: int,
    o1: Seq<usize>,
    o2: Seq<usize>,
)
    requires
        total_preorder(rank, n),
        is_permutation(o1, n),
        is_permutation(o2, n),
        adjacent_sorted(rank, o1),
        adjacent_sorted(rank, o2),
    ensures
        o1 == o2,
{
    if exists|i: int| 0 <= i < n && o1[i] != o2[i] {
        let i = choose|i: int|
            0 <= i < n && o1[i] != o2[i] && forall|j: int| 0 <= j < i ==> o1[j] == o2[j];
        assert(exists|i: int|
            0 <= i < n && o1[i] != o2[i] && forall|j: int| 0 <= j < i ==> o1[j] == o2[j]) by {
            let first = lemma_first_difference(o1, o2, n);
        }
        let x = o1[i] as int;
        let y = o2[i] as int;
        // x sits somewhere after i in o2, and y after i in o1.
        lemma_permutation_onto(o2, n, x);
        let k = choose|k: int| 0 <= k < n && o2[k] == x;
        lemma_permutation_onto(o1, n, y);
        let m = choose|m: int| 0 <= m < n && o1[m] == y;
        if k < i {
            assert(o1[k] == o2[k]);
            assert(o1[k] == o1[i]);
        }
        if m < i {
            assert(o1[m] == o2[m]);
            assert(o2[m] == o2[i]);
        }
        assert(k > i);
        assert(m > i);
        lemma_sorted_everywhere(rank, n, o2, i, k);
        lemma_sorted_everywhere(rank, n, o1, i, m);
        // y before x and x before y cannot both hold.
        assert(precedes(rank, y, x));
        assert(precedes(rank, x, y));
        assert(rank(x, y) == -rank(y, x));
        assert(false);
    }
    assert(o1 =~= o2);
}

/// The first position where two sequences differ, when they do.
proof fn lemma_first_difference(o1: Seq<usize>, o2: Seq<usize>, n: int) -> (i: int)
    requires
        o1.len() == n,
        o2.len() == n,
        exists|i: int| 0 <= i < n && o1[i] != o2[i],
    ensures
        0 <= i < n,
        o1[i] != o2[i],
        forall|j: int| 0 <= j < i ==> o1[j] == o2[j],
    decreases n,
{
    if o1[n - 1] != o2[n - 1] && forall|j: int| 0 <= j < n - 1 ==> o1[j] == o2[j] {
        n - 1
    } else {
        let w = if o1[n - 1] == o2[n - 1] {
            choose|i: int| 0 <= i < n && o1[i] != o2[i]
        } else {
            choose|j: int| 0 <= j < n - 1 && o1[j] != o2[j]
        };
        assert(w < n - 1);
        assert(o1.drop_last()[w] != o2.drop_last()[w]);
        let i = lemma_first_difference(o1.drop_last(), o2.drop_last(), n - 1);
        assert forall|j: int| 0 <= j < i implies o1[j] == o2[j] by {
            assert(o1.drop_last()[j] == o2.drop_last()[j]);
        }
        assert(o1.drop_last()[i] == o1[i]);
        assert(o2.drop_last()[i] == o2[i]);
        i
    }
}

} // verus!
