//! Stable sorting by integer keys, as the places of the sorted items.
use vstd::prelude::*;

verus! {

/// Whether item `a` goes before item `b`: by key, then by original place.
pub open spec fn goes_before(keys: Seq<u64>, a: int, b: int) -> bool {
    keys[a] < keys[b] || (keys[a] == keys[b] && a < b)
}

/// `order` lists each of `0..keys.len()` once, by key and then by place:
/// the order of a stable sort by key.
pub open spec fn stable_order(keys: Seq<u64>, order: Seq<usize>) -> bool {
    &&& order.len() == keys.len()
    &&& forall|a: int| 0 <= a < order.len() ==> #[trigger] order[a] < keys.len()
    &&& forall|a: int, b: int|
        0 <= a < b < order.len() ==> goes_before(keys, #[trigger] order[a] as int, #[trigger] order[b] as int)
    &&& forall|j: int| 0 <= j < keys.len() ==> #[trigger] listed(order, j)
}

/// Whether place `j` occurs in `order`.
pub open spec fn listed(order: Seq<usize>, j: int) -> bool {
    exists|a: int| 0 <= a < order.len() && order[a] == j
}

/// The places of a stable sort of `keys`.
pub fn stable_sort_order(keys: &Vec<u64>) -> (order: Vec<usize>)
    ensures
        stable_order(keys@, order@),
{
    let n = keys.len();
    let mut order: Vec<usize> = Vec::new();
    let mut j: usize = 0;
    while j < n
        invariant
            j <= n,
            n == keys.len(),
            order.len() == j,
            forall|a: int| 0 <= a < order.len() ==> #[trigger] order@[a] < j,
            forall|a: int, b: int|
                0 <= a < b < order.len() ==> goes_before(
                    keys@,
                    #[trigger] order@[a] as int,
                    #[trigger] order@[b] as int,
                ),
            forall|x: int| 0 <= x < j ==> #[trigger] listed(order@, x),
        decreases n - j,
    {
        let kj = keys[j];
        let mut p: usize = 0;
        while p < order.len() && keys[order[p]] <= kj
            invariant
                p <= order.len(),
                n == keys.len(),
                j < n,
                kj == keys@[j as int],
                forall|a: int| 0 <= a < order.len() ==> #[trigger] order@[a] < j,
                forall|a: int| 0 <= a < p ==> keys@[#[trigger] order@[a] as int] <= kj,
            decreases order.len() - p,
        {
            p += 1;
        }
        let ghost o0 = order@;
        order.insert(p, j);
        assert(order@ == o0.insert(p as int, j));
        assert forall|a: int, b: int|
            0 <= a < b < order.len() implies goes_before(
            keys@,
            #[trigger] order@[a] as int,
            #[trigger] order@[b] as int,
        ) by {
            if b < p {
                assert(order@[a] == o0[a] && order@[b] == o0[b]);
            } else if b == p {
                assert(order@[a] == o0[a]);
                assert(keys@[o0[a] as int] <= kj);
            } else if a < p {
                assert(order@[a] == o0[a] && order@[b] == o0[b - 1]);
            } else if a == p {
                assert(order@[b] == o0[b - 1]);
                assert(!(keys@[o0[p as int] as int] <= kj));
                if b - 1 > p {
                    assert(goes_before(keys@, o0[p as int] as int, o0[b - 1] as int));
                }
            } else {
                assert(order@[a] == o0[a - 1] && order@[b] == o0[b - 1]);
            }
        }
        assert forall|x: int| 0 <= x < j + 1 implies #[trigger] listed(order@, x) by {
            if x == j {
                assert(order@[p as int] == j);
            } else {
                assert(listed(o0, x));
                let a0 = choose|a: int| 0 <= a < o0.len() && o0[a] == x;
                if a0 < p {
                    assert(order@[a0] == x);
                } else {
                    assert(order@[a0 + 1] == x);
                }
            }
        }
        j += 1;
    }
    order
}

} // verus!
