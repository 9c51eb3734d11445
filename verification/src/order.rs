//! Stable ordering by integer keys.

use vstd::prelude::*;

verus! {

/// Whether item `i` stands before item `j` in a stable order by keys.
pub open spec fn comes_before(keys: Seq<int>, i: int, j: int) -> bool {
    keys[i] < keys[j] || (keys[i] == keys[j] && i < j)
}

/// Whether `order` lists the indices of `keys` in stable order: by key, and by index where keys
/// are equal.
pub open spec fn stably_sorts(order: Seq<int>, keys: Seq<int>) -> bool {
    &&& order.len() == keys.len()
    &&& forall|a: int| 0 <= a < order.len() ==> 0 <= #[trigger] order[a] < keys.len()
    &&& forall|a: int, b: int|
        0 <= a < b < order.len() ==> comes_before(keys, #[trigger] order[a], #[trigger] order[b])
}

/// The indices of `keys` in stable order.
pub open spec fn stable_order(keys: Seq<int>) -> Seq<int> {
    choose|order: Seq<int>| stably_sorts(order, keys)
}

/// The items of `items` in the stable order of their keys.
pub open spec fn sorted_stably<T>(items: Seq<T>, keys: Seq<int>) -> Seq<T> {
    Seq::new(items.len(), |i: int| items[stable_order(keys)[i]])
}

/// A stable order lists every index.
pub proof fn lemma_order_reaches_all(order: Seq<int>, keys: Seq<int>, x: int)
    requires
        stably_sorts(order, keys),
        0 <= x < keys.len(),
    ensures
        order.contains(x),
{
    let all = Set::<int>::new(|i: int| 0 <= i < keys.len());
    vstd::set_lib::lemma_int_range(0, keys.len() as int);
    assert(all =~= vstd::set_lib::set_int_range(0, keys.len() as int));
    assert(order.no_duplicates());
    order.unique_seq_to_set();
    assert(order.to_set().subset_of(all));
    vstd::set_lib::lemma_subset_equality(order.to_set(), all);
    assert(order.to_set().contains(x));
}

/// Keys have one stable order only.
pub proof fn stable_order_is_unique(first: Seq<int>, second: Seq<int>, keys: Seq<int>)
    requires
        stably_sorts(first, keys),
        stably_sorts(second, keys),
    ensures
        first == second,
{
    assert forall|a: int| 0 <= a < first.len() implies first[a] == second[a] by {
        lemma_orders_agree(first, second, keys, a);
    }
    assert(first =~= second);
}

proof fn lemma_orders_agree(first: Seq<int>, second: Seq<int>, keys: Seq<int>, a: int)
    requires
        stably_sorts(first, keys),
        stably_sorts(second, keys),
        0 <= a < first.len(),
    ensures
        first[a] == second[a],
    decreases a,
{
    assert forall|b: int| 0 <= b < a implies first[b] == second[b] by {
        lemma_orders_agree(first, second, keys, b);
    }
    let x = first[a];
    let y = second[a];
    if x != y {
        lemma_order_reaches_all(second, keys, x);
        lemma_order_reaches_all(first, keys, y);
        let b = choose|b: int| 0 <= b < second.len() && second[b] == x;
        let c = choose|c: int| 0 <= c < first.len() && first[c] == y;
        if b < a {
            assert(first[b] == second[b]);
            assert(comes_before(keys, first[b], first[a]));
        }
        if c < a {
            assert(first[c] == second[c]);
            assert(comes_before(keys, second[c], second[a]));
        }
        assert(comes_before(keys, second[a], second[b]));
        assert(comes_before(keys, first[a], first[c]));
    }
}

/// The stable order of keys, once one is known.
pub proof fn lemma_stable_order(order: Seq<int>, keys: Seq<int>)
    requires
        stably_sorts(order, keys),
    ensures
        order == stable_order(keys),
{
    stable_order_is_unique(order, stable_order(keys), keys);
}

/// Reads keys as mathematical integers.
pub open spec fn key_ints(keys: Seq<u64>) -> Seq<int> {
    Seq::new(keys.len(), |i: int| keys[i] as int)
}

/// Reads indices as mathematical integers.
pub open spec fn index_ints(order: Seq<usize>) -> Seq<int> {
    Seq::new(order.len(), |i: int| order[i] as int)
}

/// Finds the stable order of keys.
pub fn order_by_keys(keys: &[u64]) -> (order: Vec<usize>)
    ensures
        stably_sorts(index_ints(order@), key_ints(keys@)),
        index_ints(order@) == stable_order(key_ints(keys@)),
{
    let mut order: Vec<usize> = Vec::new();
    let mut next: usize = 0;
    while next < keys.len()
        invariant
            next <= keys.len(),
            order.len() == next,
            forall|a: int| 0 <= a < order.len() ==> #[trigger] order[a] < next,
            forall|a: int, b: int|
                0 <= a < b < order.len() ==> comes_before(
                    key_ints(keys@),
                    #[trigger] order[a] as int,
                    #[trigger] order[b] as int,
                ),
        decreases keys.len() - next,
    {
        let mut place: usize = order.len();
        while place > 0 && keys[order[place - 1]] > keys[next]
            invariant
                place <= order.len(),
                next < keys.len(),
                order.len() == next,
                forall|a: int| 0 <= a < order.len() ==> #[trigger] order[a] < next,
                forall|a: int|
                    place <= a < order.len() ==> keys[#[trigger] order[a] as int] > keys[next as int],
            decreases place,
        {
            place = place - 1;
        }
        let ghost before = order@;
        proof {
            assert forall|a: int| 0 <= a < place implies comes_before(
                key_ints(keys@),
                #[trigger] before[a] as int,
                next as int,
            ) by {
                let last = place - 1;
                if a < last {
                    assert(comes_before(key_ints(keys@), before[a] as int, before[last] as int));
                }
            }
        }
        order.insert(place, next);
        proof {
            assert(order@ =~= before.insert(place as int, next));
            assert forall|a: int, b: int| 0 <= a < b < order.len() implies comes_before(
                key_ints(keys@),
                #[trigger] order[a] as int,
                #[trigger] order[b] as int,
            ) by {
                let from_a = if a < place {
                    a
                } else {
                    a - 1
                };
                let from_b = if b < place {
                    b
                } else {
                    b - 1
                };
                if a != place {
                    assert(order[a] == before[from_a]);
                }
                if b != place {
                    assert(order[b] == before[from_b]);
                }
                if a != place && b != place {
                    assert(comes_before(
                        key_ints(keys@),
                        before[from_a] as int,
                        before[from_b] as int,
                    ));
                }
            }
            assert forall|a: int| 0 <= a < order.len() implies #[trigger] order[a] < next + 1 by {
                if a < place {
                    assert(order[a] == before[a]);
                } else if a > place {
                    assert(order[a] == before[a - 1]);
                }
            }
        }
        next = next + 1;
    }
    proof {
        let keys_read = key_ints(keys@);
        let order_read = index_ints(order@);
        assert forall|a: int| 0 <= a < order_read.len() implies 0 <= #[trigger] order_read[a]
            < keys_read.len() by {
            assert(order[a] < next);
        }
        assert forall|a: int, b: int| 0 <= a < b < order_read.len() implies comes_before(
            keys_read,
            #[trigger] order_read[a],
            #[trigger] order_read[b],
        ) by {
            assert(comes_before(keys_read, order[a] as int, order[b] as int));
        }
        lemma_stable_order(order_read, keys_read);
    }
    order
}

/// Keys always have a stable order.
pub proof fn lemma_order_exists(keys: Seq<int>) -> (order: Seq<int>)
    ensures
        stably_sorts(order, keys),
    decreases keys.len(),
{
    if keys.len() == 0 {
        Seq::empty()
    } else {
        let rest = keys.drop_last();
        let last = keys.len() - 1;
        let before = lemma_order_exists(rest);
        let place = lemma_insertion_place(before, keys, before.len() as int);
        let order = before.insert(place, last);
        assert forall|a: int| 0 <= a < order.len() implies 0 <= #[trigger] order[a] < keys.len() by {
            if a < place {
                assert(order[a] == before[a]);
            } else if a > place {
                assert(order[a] == before[a - 1]);
            }
        }
        assert forall|a: int, b: int| 0 <= a < b < order.len() implies comes_before(
            keys,
            #[trigger] order[a],
            #[trigger] order[b],
        ) by {
            let from_a = if a < place {
                a
            } else {
                a - 1
            };
            let from_b = if b < place {
                b
            } else {
                b - 1
            };
            if a != place {
                assert(order[a] == before[from_a]);
            }
            if b != place {
                assert(order[b] == before[from_b]);
            }
            if a != place && b != place {
                assert(comes_before(rest, before[from_a], before[from_b]));
            }
        }
        order
    }
}

proof fn lemma_insertion_place(before: Seq<int>, keys: Seq<int>, limit: int) -> (place: int)
    requires
        keys.len() > 0,
        stably_sorts(before, keys.drop_last()),
        0 <= limit <= before.len(),
        forall|a: int| limit <= a < before.len() ==> keys[#[trigger] before[a]] > keys.last(),
    ensures
        0 <= place <= before.len(),
        forall|a: int| 0 <= a < place ==> keys[#[trigger] before[a]] <= keys.last(),
        forall|a: int| place <= a < before.len() ==> keys[#[trigger] before[a]] > keys.last(),
    decreases limit,
{
    if limit == 0 {
        0
    } else if keys[before[limit - 1]] > keys.last() {
        lemma_insertion_place(before, keys, limit - 1)
    } else {
        assert forall|a: int| 0 <= a < limit implies keys[#[trigger] before[a]] <= keys.last() by {
            if a < limit - 1 {
                assert(comes_before(keys.drop_last(), before[a], before[limit - 1]));
            }
        }
        limit
    }
}

} // verus!
