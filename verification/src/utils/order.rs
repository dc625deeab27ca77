//! Stable ordering of positions by a key, the larger key first.

use vstd::prelude::*;
use vstd::set_lib::{lemma_int_range, lemma_len_subset, lemma_subset_equality, set_int_range};

verus! {

/// `order` lists the positions of `keys`, those of larger keys first and,
/// among equal keys, the earlier position first.
pub open spec fn is_descending_order(keys: Seq<int>, order: Seq<int>) -> bool {
    &&& order.len() == keys.len()
    &&& forall|i: int| 0 <= i < order.len() ==> 0 <= #[trigger] order[i] < keys.len()
    &&& forall|i: int, j: int|
        0 <= i < j < order.len() ==> keys[#[trigger] order[i]] > keys[#[trigger] order[j]] || (
        keys[order[i]] == keys[order[j]] && order[i] < order[j])
}

/// The items of `items` in the order that `order` lists their positions in.
pub open spec fn arranged<T>(items: Seq<T>, order: Seq<int>) -> Seq<T> {
    Seq::new(order.len(), |i: int| items[order[i]])
}

/// The keys as mathematical integers.
pub open spec fn key_values(keys: Seq<u128>) -> Seq<int> {
    Seq::new(keys.len(), |i: int| keys[i] as int)
}

/// The positions as mathematical integers.
pub open spec fn positions(order: Seq<usize>) -> Seq<int> {
    Seq::new(order.len(), |i: int| order[i] as int)
}

/// A copy of a list of positions.
pub fn copy_positions(v: &Vec<usize>) -> (r: Vec<usize>)
    ensures
        r@ == v@,
{
    let mut r: Vec<usize> = Vec::new();
    let mut i: usize = 0;
    while i < v.len()
        invariant
            i <= v.len(),
            r@ == v@.take(i as int),
        decreases v.len() - i,
    {
        r.push(v[i]);
        i += 1;
        assert(r@ =~= v@.take(i as int));
    }
    assert(v@.take(v.len() as int) =~= v@);
    r
}

/// A descending order never lists a position twice.
pub proof fn lemma_order_is_injective(keys: Seq<int>, order: Seq<int>)
    requires
        is_descending_order(keys, order),
    ensures
        forall|i: int, j: int|
            0 <= i < order.len() && 0 <= j < order.len() && i != j ==> #[trigger] order[i]
                != #[trigger] order[j],
{
    assert forall|i: int, j: int|
        0 <= i < order.len() && 0 <= j < order.len() && i != j implies #[trigger] order[i]
        != #[trigger] order[j] by {
        if i < j {
            assert(keys[order[i]] > keys[order[j]] || order[i] < order[j]);
        } else {
            assert(keys[order[j]] > keys[order[i]] || order[j] < order[i]);
        }
    }
}

/// A descending order lists every position.
pub proof fn lemma_order_lists_every_position(keys: Seq<int>, order: Seq<int>)
    requires
        is_descending_order(keys, order),
    ensures
        forall|x: int| 0 <= x < keys.len() ==> order.contains(x),
{
    lemma_order_is_injective(keys, order);
    assert(order.no_duplicates());
    order.unique_seq_to_set();
    lemma_int_range(0, keys.len() as int);
    let listed = order.to_set();
    let all = set_int_range(0, keys.len() as int);
    assert forall|x: int| listed.contains(x) implies all.contains(x) by {
        let i = choose|i: int| 0 <= i < order.len() && order[i] == x;
        assert(0 <= order[i] < keys.len());
    }
    lemma_len_subset(listed, all);
    lemma_subset_equality(listed, all);
    assert forall|x: int| 0 <= x < keys.len() implies order.contains(x) by {
        assert(all.contains(x));
        assert(listed.contains(x));
    }
}

proof fn lemma_orders_agree_at(keys: Seq<int>, a: Seq<int>, b: Seq<int>, i: int)
    requires
        is_descending_order(keys, a),
        is_descending_order(keys, b),
        0 <= i < a.len(),
    ensures
        a[i] == b[i],
    decreases i,
{
    assert forall|j: int| 0 <= j < i implies a[j] == b[j] by {
        lemma_orders_agree_at(keys, a, b, j);
    }
    lemma_order_is_injective(keys, a);
    lemma_order_is_injective(keys, b);
    lemma_order_lists_every_position(keys, a);
    lemma_order_lists_every_position(keys, b);
    let x = a[i];
    let y = b[i];
    assert(0 <= x < keys.len() && 0 <= y < keys.len());
    assert(b.contains(x));
    assert(a.contains(y));
    let k = choose|k: int| 0 <= k < b.len() && b[k] == x;
    let m = choose|m: int| 0 <= m < a.len() && a[m] == y;
    if k < i {
        assert(a[k] == b[k]);
        assert(a[k] != a[i]);
    } else if m < i {
        assert(a[m] == b[m]);
        assert(b[m] != b[i]);
    } else if k > i {
        assert(keys[b[i]] > keys[b[k]] || (keys[b[i]] == keys[b[k]] && b[i] < b[k]));
        if m > i {
            assert(keys[a[i]] > keys[a[m]] || (keys[a[i]] == keys[a[m]] && a[i] < a[m]));
        }
    }
}

/// The keys have one descending order only.
pub proof fn lemma_descending_order_is_unique(keys: Seq<int>, a: Seq<int>, b: Seq<int>)
    requires
        is_descending_order(keys, a),
        is_descending_order(keys, b),
    ensures
        a == b,
{
    assert forall|i: int| 0 <= i < a.len() implies a[i] == b[i] by {
        lemma_orders_agree_at(keys, a, b, i);
    }
    assert(a =~= b);
}

/// The positions of `keys` in descending order of key; equal keys keep
/// the order of their positions.
pub fn descending_order(keys: &Vec<u128>) -> (order: Vec<usize>)
    ensures
        is_descending_order(key_values(keys@), positions(order@)),
{
    let mut order: Vec<usize> = Vec::new();
    let mut i: usize = 0;
    while i < keys.len()
        invariant
            i <= keys.len(),
            order@.len() == i,
            forall|a: int| 0 <= a < order@.len() ==> 0 <= #[trigger] order@[a] < i,
            forall|a: int, b: int|
                0 <= a < b < order@.len() ==> keys@[#[trigger] order@[a] as int]
                    > keys@[#[trigger] order@[b] as int] || (keys@[order@[a] as int]
                    == keys@[order@[b] as int] && order@[a] < order@[b]),
        decreases keys.len() - i,
    {
        let key = keys[i];
        let mut p: usize = 0;
        while p < order.len() && keys[order[p]] >= key
            invariant
                p <= order@.len(),
                order@.len() == i,
                i < keys.len(),
                key == keys@[i as int],
                forall|a: int| 0 <= a < order@.len() ==> 0 <= #[trigger] order@[a] < i,
                forall|a: int| 0 <= a < p ==> keys@[#[trigger] order@[a] as int] >= key,
            decreases order@.len() - p,
        {
            p += 1;
        }
        let ghost before = order@;
        order.insert(p, i);
        proof {
            assert forall|a: int, b: int| 0 <= a < b < order@.len() implies keys@[#[trigger] order@[a] as int]
                > keys@[#[trigger] order@[b] as int] || (keys@[order@[a] as int]
                == keys@[order@[b] as int] && order@[a] < order@[b]) by {
                if b < p {
                    assert(order@[a] == before[a] && order@[b] == before[b]);
                } else if b == p {
                    assert(order@[a] == before[a]);
                } else if a < p {
                    assert(order@[a] == before[a] && order@[b] == before[b - 1]);
                } else if a == p {
                    assert(order@[b] == before[b - 1]);
                } else {
                    assert(order@[a] == before[a - 1] && order@[b] == before[b - 1]);
                }
            }
        }
        i += 1;
    }
    order
}

/// The items in the order that `order` lists their positions in.
pub fn arrange<T>(items: Vec<T>, order: &Vec<usize>) -> (out: Vec<T>)
    requires
        order@.len() == items@.len(),
        forall|i: int| 0 <= i < order@.len() ==> 0 <= #[trigger] order@[i] < items@.len(),
        forall|i: int, j: int|
            0 <= i < order@.len() && 0 <= j < order@.len() && i != j ==> #[trigger] order@[i]
                != #[trigger] order@[j],
    ensures
        out@ == arranged(items@, positions(order@)),
{
    let ghost given = items@;
    let mut slots: Vec<Option<T>> = Vec::new();
    let mut rest = items;
    let n = rest.len();
    // Moves the items into slots, last first, then puts the slots in order.
    while rest.len() > 0
        invariant
            rest@.len() <= n,
            n == given.len(),
            rest@ == given.take(rest@.len() as int),
            slots@.len() == n - rest@.len(),
            forall|k: int|
                0 <= k < slots@.len() ==> #[trigger] slots@[k] == Some(given[n - 1 - k]),
        decreases rest@.len(),
    {
        let x = rest.pop();
        assert(rest@ =~= given.take(rest@.len() as int));
        slots.push(x);
    }
    let mut out: Vec<T> = Vec::new();
    let mut k: usize = 0;
    while k < order.len()
        invariant
            k <= order@.len(),
            order@.len() == n,
            n == given.len(),
            slots@.len() == n,
            out@.len() == k,
            forall|i: int| 0 <= i < order@.len() ==> 0 <= #[trigger] order@[i] < n,
            forall|i: int, j: int|
                0 <= i < order@.len() && 0 <= j < order@.len() && i != j ==> #[trigger] order@[i]
                    != #[trigger] order@[j],
            forall|i: int| 0 <= i < k ==> #[trigger] out@[i] == given[order@[i] as int],
            forall|s: int|
                0 <= s < n ==> (#[trigger] slots@[s] == Some(given[n - 1 - s]) || exists|i: int|
                    0 <= i < k && order@[i] == n - 1 - s),
            forall|i: int| k <= i < order@.len() ==> slots@[n - 1 - #[trigger] order@[i]] == Some(
                given[order@[i] as int],
            ),
        decreases order@.len() - k,
    {
        let at: usize = n - 1 - order[k];
        slots.push(None);
        let taken = slots.swap_remove(at);
        assert(taken == Some(given[order@[k as int] as int]));
        out.push(taken.unwrap());
        proof {
            assert forall|i: int| k + 1 <= i < order@.len() implies slots@[n - 1 - #[trigger] order@[i]]
                == Some(given[order@[i] as int]) by {
                assert(order@[i] != order@[k as int]);
            }
            assert forall|s: int| 0 <= s < n implies (#[trigger] slots@[s] == Some(
                given[n - 1 - s],
            ) || exists|i: int| 0 <= i < k + 1 && order@[i] == n - 1 - s) by {
                if s == at {
                    assert(order@[k as int] == n - 1 - s);
                }
            }
        }
        k += 1;
    }
    assert(out@ =~= arranged(given, positions(order@)));
    out
}

} // verus!
