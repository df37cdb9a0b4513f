//! Stable descending order by key, as `sort_by_key(|x| Reverse(key(x)))`
//! leaves a list: higher keys first, equal keys in the order they came in.

use vstd::prelude::*;

verus! {

/// `order` lists the indices `0..n` of `keys`, by key from high to low,
/// keeping equal keys in the order they came in.
pub open spec fn is_desc_stable_order(keys: Seq<i128>, order: Seq<usize>, n: int) -> bool {
    &&& order.len() == n
    &&& forall|i: int| 0 <= i < n ==> #[trigger] order[i] < n
    &&& forall|i: int, j: int| 0 <= i < j < n ==> #[trigger] order[i] != #[trigger] order[j]
    &&& forall|i: int, j: int|
        0 <= i < j < n ==> keys[#[trigger] order[i] as int] > keys[#[trigger] order[j] as int] || (
        keys[order[i] as int] == keys[order[j] as int] && order[i] < order[j])
}

/// The indices of `keys` by key from high to low, equal keys in the order they came in.
pub fn order_by_desc(keys: &Vec<i128>) -> (order: Vec<usize>)
    ensures
        is_desc_stable_order(keys@, order@, keys@.len() as int),
{
    let mut order: Vec<usize> = Vec::new();
    let mut k: usize = 0;
    while k < keys.len()
        invariant
            k <= keys.len(),
            is_desc_stable_order(keys@, order@, k as int),
        decreases keys.len() - k,
    {
        let key = keys[k];
        let mut p: usize = 0;
        while p < order.len() && keys[order[p]] >= key
            invariant
                p <= order.len(),
                order.len() == k,
                k < keys.len(),
                key == keys@[k as int],
                is_desc_stable_order(keys@, order@, k as int),
                forall|i: int| 0 <= i < p ==> keys@[#[trigger] order@[i] as int] >= key,
            decreases order.len() - p,
        {
            p = p + 1;
        }
        let ghost old_order = order@;
        proof {
            if p < order.len() {
                assert forall|j: int| p <= j < k implies keys@[#[trigger] old_order[j] as int] < key by {
                    if j > p {
                        assert(keys@[old_order[p as int] as int] >= keys@[old_order[j] as int]);
                    }
                }
            }
        }
        order.insert(p, k);
        proof {
            let o = order@;
            assert(o == old_order.subrange(0, p as int).push(k) + old_order.subrange(p as int, k as int));
            assert forall|i: int| 0 <= i < k + 1 implies #[trigger] o[i] < k + 1 by {
                if i < p {
                    assert(o[i] == old_order[i]);
                } else if i > p {
                    assert(o[i] == old_order[i - 1]);
                }
            }
            assert forall|i: int, j: int| 0 <= i < j < k + 1 implies #[trigger] o[i] != #[trigger] o[j] by {
                if i < p && j < p {
                    assert(o[i] == old_order[i] && o[j] == old_order[j]);
                } else if i < p && j == p {
                    assert(o[i] == old_order[i]);
                } else if i < p && j > p {
                    assert(o[i] == old_order[i] && o[j] == old_order[j - 1]);
                } else if i == p {
                    assert(o[j] == old_order[j - 1]);
                } else {
                    assert(o[i] == old_order[i - 1] && o[j] == old_order[j - 1]);
                }
            }
            assert forall|i: int, j: int| 0 <= i < j < k + 1 implies keys@[#[trigger] o[i] as int]
                > keys@[#[trigger] o[j] as int] || (keys@[o[i] as int] == keys@[o[j] as int] && o[i]
                < o[j]) by {
                if i < p && j < p {
                    assert(o[i] == old_order[i] && o[j] == old_order[j]);
                } else if i < p && j == p {
                    assert(o[i] == old_order[i]);
                } else if i < p && j > p {
                    assert(o[i] == old_order[i] && o[j] == old_order[j - 1]);
                } else if i == p {
                    assert(o[j] == old_order[j - 1]);
                } else {
                    assert(o[i] == old_order[i - 1] && o[j] == old_order[j - 1]);
                }
            }
        }
        k = k + 1;
    }
    order
}

} // verus!
