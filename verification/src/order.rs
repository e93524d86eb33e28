//! The order in which the participants of a scene take their turns.

use std::collections::HashSet;
use vstd::prelude::*;
use vstd::std_specs::iter::IteratorSpec;

verus! {

/// Every element is smaller than those that come after it.
pub open spec fn ascending(order: Seq<usize>) -> bool {
    forall|i: int, j: int| 0 <= i < j < order.len() ==> order[i] < order[j]
}

/// The ids of a finite set from the smallest to the largest: the one
/// ascending sequence that holds exactly the ids of the set, see
/// [`lemma_ascending_unique`].
pub open spec fn ascending_order(ids: Set<usize>) -> Seq<usize> {
    choose|order: Seq<usize>| ascending(order) && order.to_set() == ids
}

/// In an ascending sequence nothing occurs twice.
pub proof fn lemma_ascending_distinct(order: Seq<usize>)
    requires
        ascending(order),
    ensures
        order.no_duplicates(),
{
    assert forall|i: int, j: int| 0 <= i < order.len() && 0 <= j < order.len() && i != j implies order[i]
        != order[j] by {
        if i < j {
            assert(order[i] < order[j]);
        } else {
            assert(order[j] < order[i]);
        }
    }
}

/// Two ascending sequences that hold the same ids are the same sequence.
pub proof fn lemma_ascending_unique(a: Seq<usize>, b: Seq<usize>)
    requires
        ascending(a),
        ascending(b),
        a.to_set() == b.to_set(),
    ensures
        a == b,
    decreases a.len(),
{
    lemma_ascending_distinct(a);
    lemma_ascending_distinct(b);
    a.unique_seq_to_set();
    b.unique_seq_to_set();
    if a.len() > 0 {
        let x = a.last();
        let y = b.last();
        assert(a.to_set().contains(x));
        assert(b.contains(x));
        assert(b.to_set().contains(y));
        assert(a.contains(y));
        let i = choose|i: int| 0 <= i < b.len() && b[i] == x;
        let j = choose|j: int| 0 <= j < a.len() && a[j] == y;
        assert(x == y) by {
            if i < b.len() - 1 {
                assert(b[i] < b[b.len() - 1]);
            }
            if j < a.len() - 1 {
                assert(a[j] < a[a.len() - 1]);
            }
        }
        let a0 = a.drop_last();
        let b0 = b.drop_last();
        assert(a0.to_set() =~= b0.to_set()) by {
            assert forall|v: usize| a0.contains(v) implies b0.contains(v) by {
                let k = choose|k: int| 0 <= k < a0.len() && a0[k] == v;
                assert(a[k] == v);
                assert(a[k] < a[a.len() - 1]);
                assert(a.to_set().contains(v));
                assert(b.contains(v));
                let m = choose|m: int| 0 <= m < b.len() && b[m] == v;
                assert(b0[m] == v);
            }
            assert forall|v: usize| b0.contains(v) implies a0.contains(v) by {
                let k = choose|k: int| 0 <= k < b0.len() && b0[k] == v;
                assert(b[k] == v);
                assert(b[k] < b[b.len() - 1]);
                assert(b.to_set().contains(v));
                assert(a.contains(v));
                let m = choose|m: int| 0 <= m < a.len() && a[m] == v;
                assert(a0[m] == v);
            }
        }
        lemma_ascending_unique(a0, b0);
        assert(a =~= a0.push(x));
        assert(b =~= b0.push(y));
    } else {
        assert(a =~= b);
    }
}

/// Every finite set of ids has its ascending order.
pub proof fn lemma_ascending_exists(ids: Set<usize>)
    requires
        ids.finite(),
    ensures
        ascending(ascending_order(ids)),
        ascending_order(ids).to_set() == ids,
    decreases ids.len(),
{
    if ids.len() == 0 {
        let none = Seq::<usize>::empty();
        assert(none.to_set() =~= ids);
        assert(ascending(none) && none.to_set() == ids);
    } else {
        let top = greatest(ids);
        lemma_greatest(ids);
        let rest = ids.remove(top);
        lemma_ascending_exists(rest);
        let below = ascending_order(rest);
        let order = below.push(top);
        assert forall|i: int, j: int| 0 <= i < j < order.len() implies order[i] < order[j] by {
            assert(below.contains(order[i]));
            assert(rest.contains(order[i]));
        }
        below.lemma_push_to_set_commute(top);
        assert(order.to_set() =~= ids);
        assert(ascending(order) && order.to_set() == ids);
    }
}

/// The largest id of a set that has one.
pub open spec fn greatest(ids: Set<usize>) -> usize {
    choose|top: usize| ids.contains(top) && forall|id: usize| ids.contains(id) ==> id <= top
}

/// A finite set that is not empty has a largest id.
pub proof fn lemma_greatest(ids: Set<usize>)
    requires
        ids.finite(),
        ids.len() > 0,
    ensures
        ids.contains(greatest(ids)),
        forall|id: usize| ids.contains(id) ==> id <= greatest(ids),
    decreases ids.len(),
{
    let some = ids.choose();
    let rest = ids.remove(some);
    if rest.len() == 0 {
        assert forall|id: usize| ids.contains(id) implies id <= some by {
            if id != some {
                assert(rest.contains(id));
            }
        }
        assert(ids.contains(some) && forall|id: usize| ids.contains(id) ==> id <= some);
    } else {
        lemma_greatest(rest);
        let below = greatest(rest);
        let top = if some > below {
            some
        } else {
            below
        };
        assert forall|id: usize| ids.contains(id) implies id <= top by {
            if id != some {
                assert(rest.contains(id));
            }
        }
        assert(ids.contains(top) && forall|id: usize| ids.contains(id) ==> id <= top);
    }
}

/// Puts `id`, which `order` does not hold, into its place in `order`.
fn insert_in_order(order: &mut Vec<usize>, id: usize)
    requires
        ascending(old(order)@),
        !old(order)@.contains(id),
    ensures
        ascending(final(order)@),
        final(order)@.to_set() == old(order)@.to_set().insert(id),
{
    let mut place: usize = 0;
    while place < order.len() && order[place] < id
        invariant
            place <= order.len(),
            order@ == old(order)@,
            forall|k: int| 0 <= k < place ==> order[k] < id,
        decreases order.len() - place,
    {
        place += 1;
    }
    proof {
        assert forall|k: int| place <= k < order.len() implies id < order[k] by {
            assert(order@.contains(order[k]));
            if place < k {
                assert(order[place as int] < order[k]);
            }
        }
    }
    order.insert(place, id);
    proof {
        let before = old(order)@;
        let after = order@;
        assert forall|v: usize| after.contains(v) <==> before.contains(v) || v == id by {
            if before.contains(v) {
                let k = choose|k: int| 0 <= k < before.len() && before[k] == v;
                if k < place {
                    assert(after[k] == v);
                } else {
                    assert(after[k + 1] == v);
                }
            }
            if v == id {
                assert(after[place as int] == v);
            }
            if after.contains(v) && v != id {
                let k = choose|k: int| 0 <= k < after.len() && after[k] == v;
                if k < place {
                    assert(before[k] == v);
                } else {
                    assert(before[k - 1] == v);
                }
            }
        }
        assert(after.to_set() =~= before.to_set().insert(id));
    }
}

/// The ids of `ids`, each once, in no particular order.
fn listed(ids: &HashSet<usize>) -> (list: Vec<usize>)
    ensures
        list@.no_duplicates(),
        list@.to_set() == ids@,
{
    let mut list: Vec<usize> = Vec::new();
    for id in walk: ids.iter()
        invariant
            walk.seq() == ids.iter().remaining(),
            list@ == walk.seq().unref().take(walk.index()),
    {
        list.push(*id);
    }
    proof {
        vstd::std_specs::hash::axiom_spec_hash_keys_iter(ids);
        assert(list@ =~= ids.iter().remaining().unref());
    }
    list
}

/// The ids of `ids` from the smallest to the largest.
pub fn ascending_ids(ids: &HashSet<usize>) -> (order: Vec<usize>)
    ensures
        order@ == ascending_order(ids@),
        ascending(order@),
        order@.to_set() == ids@,
{
    let list = listed(ids);
    let mut order: Vec<usize> = Vec::new();
    let mut i: usize = 0;
    assert(order@.to_set() =~= list@.take(0).to_set());
    while i < list.len()
        invariant
            i <= list.len(),
            list@.no_duplicates(),
            ascending(order@),
            order@.to_set() == list@.take(i as int).to_set(),
        decreases list.len() - i,
    {
        proof {
            list@.lemma_take_succ_push(i as int);
            list@.take(i as int).lemma_push_to_set_commute(list@[i as int]);
            if list@.take(i as int).contains(list@[i as int]) {
                let k = choose|k: int|
                    0 <= k < i && #[trigger] list@.take(i as int)[k] == list@[i as int];
                assert(list@[k] == list@[i as int]);
            }
            assert(!order@.to_set().contains(list@[i as int]));
        }
        insert_in_order(&mut order, list[i]);
        i += 1;
    }
    proof {
        assert(list@.take(list.len() as int) =~= list@);
        lemma_ascending_unique(order@, ascending_order(ids@));
    }
    order
}

} // verus!
