//! Places in descending order of counts.

use vstd::prelude::*;

verus! {

/// The item in place `a` comes before the item in place `b`: its count is
/// larger, or the counts are the same and it stands before it already.
pub open spec fn comes_first(counts: Seq<usize>, a: int, b: int) -> bool {
    counts[a] > counts[b] || (counts[a] == counts[b] && a < b)
}

/// `order` names each place of `counts` once, from the largest count to the
/// smallest, and places with the same count as they stand.
pub open spec fn is_descending(counts: Seq<usize>, order: Seq<usize>) -> bool {
    &&& order.len() == counts.len()
    &&& forall|i: int| 0 <= i < order.len() ==> (#[trigger] order[i]) < counts.len()
    &&& forall|i: int, j: int|
        0 <= i < j < order.len() ==> #[trigger] comes_first(
            counts,
            order[i] as int,
            order[j] as int,
        )
}

/// The places of `counts` in descending order of the counts.
pub fn descending(counts: &Vec<usize>) -> (order: Vec<usize>)
    ensures
        is_descending(counts@, order@),
{
    let mut order: Vec<usize> = Vec::new();
    let mut k: usize = 0;
    while k < counts.len()
        invariant
            k <= counts@.len(),
            order@.len() == k,
            forall|i: int| 0 <= i < order@.len() ==> (#[trigger] order@[i]) < k,
            forall|i: int, j: int|
                0 <= i < j < order@.len() ==> #[trigger] comes_first(
                    counts@,
                    order@[i] as int,
                    order@[j] as int,
                ),
        decreases counts@.len() - k,
    {
        let mut at: usize = order.len();
        while at > 0 && counts[order[at - 1]] < counts[k]
            invariant
                at <= order@.len() == k < counts@.len(),
                forall|i: int| 0 <= i < order@.len() ==> (#[trigger] order@[i]) < k,
                forall|i: int|
                    at <= i < order@.len() ==> counts@[(#[trigger] order@[i]) as int]
                        < counts@[k as int],
            decreases at,
        {
            at -= 1;
        }
        let ghost before = order@;
        proof {
            assert forall|i: int| 0 <= i < at implies #[trigger] comes_first(
                counts@,
                before[i] as int,
                k as int,
            ) by {
                if i < at - 1 {
                    assert(comes_first(counts@, before[i] as int, before[at - 1] as int));
                }
            }
        }
        order.insert(at, k);
        proof {
            assert forall|i: int, j: int| 0 <= i < j < order@.len() implies #[trigger] comes_first(
                counts@,
                order@[i] as int,
                order@[j] as int,
            ) by {
                let a = if i < at {
                    i
                } else {
                    i - 1
                };
                let b = if j < at {
                    j
                } else {
                    j - 1
                };
                if i != at && j != at {
                    assert(order@[i] == before[a] && order@[j] == before[b]);
                    assert(comes_first(counts@, before[a] as int, before[b] as int));
                } else if j == at {
                    assert(order@[i] == before[i]);
                    assert(comes_first(counts@, before[i] as int, k as int));
                } else {
                    assert(order@[j] == before[j - 1]);
                    assert(counts@[before[j - 1] as int] < counts@[k as int]);
                }
            }
        }
        k += 1;
    }
    order
}

} // verus!
