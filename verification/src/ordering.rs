//! The stable order of some rows by a pair of numbers.

use vstd::prelude::*;

verus! {

/// The first pair comes before the second.
pub open spec fn precedes(a: (i64, i64), b: (i64, i64)) -> bool {
    a.0 < b.0 || (a.0 == b.0 && a.1 < b.1)
}

/// The row `i` put into an order of rows: behind every row that it does not precede.
pub open spec fn placed(order: Seq<int>, keys: Seq<(i64, i64)>, i: int) -> Seq<int>
    decreases order.len(),
{
    if order.len() > 0 && precedes(keys[i], keys[order.last()]) {
        placed(order.drop_last(), keys, i).push(order.last())
    } else {
        order.push(i)
    }
}

/// The positions of the first `n` keys in the order of the keys; equal keys
/// stay in the order of their positions.
pub open spec fn order_of_first(keys: Seq<(i64, i64)>, n: int) -> Seq<int>
    decreases n,
{
    if n <= 0 {
        Seq::empty()
    } else {
        placed(order_of_first(keys, n - 1), keys, n - 1)
    }
}

/// The positions of the keys in the order of the keys; equal keys stay in the
/// order of their positions.
pub open spec fn stable_order(keys: Seq<(i64, i64)>) -> Seq<int> {
    order_of_first(keys, keys.len() as int)
}

/// The rows at `p` and `q` of an order stand as their keys demand, and equal
/// keys as their positions demand.
pub open spec fn in_order(keys: Seq<(i64, i64)>, i: int, j: int) -> bool {
    precedes(keys[i], keys[j]) || (keys[i] == keys[j] && i < j)
}

/// `order` lists the first `n` rows once each, in order.
pub open spec fn is_stable_order(order: Seq<int>, keys: Seq<(i64, i64)>, n: int) -> bool {
    &&& order.len() == n
    &&& forall|p: int| 0 <= p < n ==> 0 <= #[trigger] order[p] < n
    &&& forall|p: int, q: int|
        0 <= p < q < n ==> in_order(keys, #[trigger] order[p], #[trigger] order[q])
}

proof fn lemma_placed(order: Seq<int>, keys: Seq<(i64, i64)>, i: int)
    requires
        0 <= i < keys.len(),
        forall|p: int| 0 <= p < order.len() ==> 0 <= #[trigger] order[p] < i,
        forall|p: int, q: int|
            0 <= p < q < order.len() ==> in_order(keys, #[trigger] order[p], #[trigger] order[q]),
    ensures
        ({
            let r = placed(order, keys, i);
            &&& r.len() == order.len() + 1
            &&& forall|p: int| 0 <= p < r.len() ==> 0 <= #[trigger] r[p] <= i
            &&& forall|p: int, q: int|
                0 <= p < q < r.len() ==> in_order(keys, #[trigger] r[p], #[trigger] r[q])
        }),
    decreases order.len(),
{
    let r = placed(order, keys, i);
    if order.len() > 0 && precedes(keys[i], keys[order.last()]) {
        let rest = order.drop_last();
        lemma_placed(rest, keys, i);
        let before = placed(rest, keys, i);
        lemma_placed_holds(rest, keys, i);
        assert forall|p: int, q: int| 0 <= p < q < r.len() implies in_order(
            keys,
            #[trigger] r[p],
            #[trigger] r[q],
        ) by {
            if q == r.len() - 1 {
                if before[p] == i {
                } else {
                    assert(rest.contains(before[p]));
                    let k = choose|k: int| 0 <= k < rest.len() && rest[k] == before[p];
                    assert(order[k] == before[p]);
                    assert(in_order(keys, order[k], order[order.len() - 1]));
                }
            } else {
                assert(r[p] == before[p] && r[q] == before[q]);
            }
        }
    } else {
        assert forall|p: int, q: int| 0 <= p < q < r.len() implies in_order(
            keys,
            #[trigger] r[p],
            #[trigger] r[q],
        ) by {
            if q == order.len() {
                assert(order.len() > 0);
                if p < order.len() - 1 {
                    assert(in_order(keys, order[p], order[order.len() - 1]));
                }
                assert(order[p] < i);
            } else {
                assert(r[p] == order[p] && r[q] == order[q]);
            }
        }
    }
}

proof fn lemma_placed_holds(order: Seq<int>, keys: Seq<(i64, i64)>, i: int)
    ensures
        forall|p: int|
            0 <= p < placed(order, keys, i).len() ==> #[trigger] placed(order, keys, i)[p] == i
                || order.contains(placed(order, keys, i)[p]),
    decreases order.len(),
{
    let r = placed(order, keys, i);
    if order.len() > 0 && precedes(keys[i], keys[order.last()]) {
        let rest = order.drop_last();
        lemma_placed_holds(rest, keys, i);
        let before = placed(rest, keys, i);
        assert forall|p: int| 0 <= p < r.len() implies #[trigger] r[p] == i || order.contains(
            r[p],
        ) by {
            if p < before.len() {
                assert(r[p] == before[p]);
                if before[p] != i {
                    let k = choose|k: int| 0 <= k < rest.len() && rest[k] == before[p];
                    assert(order[k] == before[p]);
                }
            } else {
                assert(order[order.len() - 1] == r[p]);
            }
        }
    } else {
        assert forall|p: int| 0 <= p < r.len() implies #[trigger] r[p] == i || order.contains(
            r[p],
        ) by {
            if p < order.len() {
                assert(order[p] == r[p]);
            }
        }
    }
}

proof fn lemma_order_of_first(keys: Seq<(i64, i64)>, n: int)
    requires
        0 <= n <= keys.len(),
    ensures
        is_stable_order(order_of_first(keys, n), keys, n),
    decreases n,
{
    if n > 0 {
        lemma_order_of_first(keys, n - 1);
        lemma_placed(order_of_first(keys, n - 1), keys, n - 1);
    }
}

/// The stable order lists every row once, smaller keys first, and rows with
/// equal keys in the order in which they came.
pub proof fn stable_order_is_sorted(keys: Seq<(i64, i64)>)
    ensures
        is_stable_order(stable_order(keys), keys, keys.len() as int),
{
    lemma_order_of_first(keys, keys.len() as int);
}

proof fn lemma_placed_keeps(order: Seq<int>, keys: Seq<(i64, i64)>, i: int, x: int)
    requires
        order.contains(x) || x == i,
    ensures
        placed(order, keys, i).contains(x),
    decreases order.len(),
{
    let r = placed(order, keys, i);
    if order.len() > 0 && precedes(keys[i], keys[order.last()]) {
        let front = order.drop_last();
        let before = placed(front, keys, i);
        if x != i && order.last() == x {
            assert(r[before.len() as int] == x);
        } else {
            if x != i {
                let k = choose|k: int| 0 <= k < order.len() && order[k] == x;
                assert(front[k] == x);
            }
            lemma_placed_keeps(front, keys, i, x);
            let k = choose|k: int| 0 <= k < before.len() && before[k] == x;
            assert(r[k] == x);
        }
    } else if x == i {
        assert(r[order.len() as int] == x);
    } else {
        let k = choose|k: int| 0 <= k < order.len() && order[k] == x;
        assert(r[k] == x);
    }
}

proof fn lemma_row_placed(keys: Seq<(i64, i64)>, n: int, k: int)
    requires
        0 <= k < n,
    ensures
        order_of_first(keys, n).contains(k),
    decreases n,
{
    if k < n - 1 {
        lemma_row_placed(keys, n - 1, k);
    }
    lemma_placed_keeps(order_of_first(keys, n - 1), keys, n - 1, k);
}

/// Every row stands in the stable order.
pub proof fn every_row_is_ordered(keys: Seq<(i64, i64)>, k: int)
    requires
        0 <= k < keys.len(),
    ensures
        stable_order(keys).contains(k),
{
    lemma_row_placed(keys, keys.len() as int, k);
}

fn place(order: &mut Vec<usize>, keys: &Vec<(i64, i64)>, i: usize)
    requires
        i < keys.len(),
        forall|p: int| 0 <= p < old(order).len() ==> #[trigger] old(order)@[p] < keys.len(),
    ensures
        positions(final(order)@) == placed(positions(old(order)@), keys@, i as int),
        forall|p: int| 0 <= p < final(order).len() ==> #[trigger] final(order)@[p] < keys.len(),
    decreases old(order).len(),
{
    let n: usize = order.len();
    let ghost start = order@;
    if n > 0 {
        let last: usize = order[n - 1];
        let a = keys[i];
        let b = keys[last];
        if a.0 < b.0 || (a.0 == b.0 && a.1 < b.1) {
            order.pop();
            assert(positions(order@) =~= positions(start).drop_last());
            place(order, keys, i);
            let ghost before = order@;
            order.push(last);
            assert(positions(order@) =~= positions(before).push(last as int));
            return ;
        }
    }
    order.push(i);
    assert(positions(order@) =~= positions(start).push(i as int));
}

/// Some positions as numbers.
pub open spec fn positions(order: Seq<usize>) -> Seq<int> {
    order.map_values(|p: usize| p as int)
}

/// The positions of the keys in the order of the keys; equal keys stay in the
/// order of their positions.
pub fn sorted_positions(keys: &Vec<(i64, i64)>) -> (r: Vec<usize>)
    ensures
        positions(r@) == stable_order(keys@),
        r.len() == keys.len(),
        forall|p: int| 0 <= p < r.len() ==> #[trigger] r@[p] < keys.len(),
{
    let mut order: Vec<usize> = Vec::new();
    assert(positions(order@) =~= Seq::<int>::empty());
    let mut i: usize = 0;
    while i < keys.len()
        invariant
            i <= keys.len(),
            positions(order@) == order_of_first(keys@, i as int),
            forall|p: int| 0 <= p < order.len() ==> #[trigger] order@[p] < keys.len(),
        decreases keys.len() - i,
    {
        place(&mut order, keys, i);
        i = i + 1;
    }
    proof {
        stable_order_is_sorted(keys@);
        assert(positions(order@).len() == order.len());
    }
    order
}

} // verus!
