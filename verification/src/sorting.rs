//! Stable sorting by a weak order.

use vstd::prelude::*;

use crate::text;

verus! {

/// A key by which items are sorted.
pub trait SortKey: Sized {
    /// This key comes strictly before another one.
    spec fn before(&self, other: &Self) -> bool;

    /// No two keys come before each other, and a third key lies on one side of any gap.
    proof fn weak_order(a: &Self, b: &Self, c: &Self)
        ensures
            !(a.before(b) && b.before(a)),
            a.before(c) ==> a.before(b) || b.before(c),
    ;

    /// Tells whether this key comes strictly before another one.
    fn is_before(&self, other: &Self) -> (r: bool)
        ensures
            r == self.before(other),
    ;
}

/// Positions of `0..n`, each once.
pub open spec fn is_permutation(order: Seq<int>, n: int) -> bool {
    &&& order.len() == n
    &&& forall|i: int| 0 <= i < n ==> 0 <= #[trigger] order[i] < n
    &&& order.no_duplicates()
}

/// The positions of `keys` in sorted order; of two keys of which neither comes before the other,
/// the one that stood first stays first.
pub open spec fn is_stable_order<K: SortKey>(keys: Seq<K>, order: Seq<int>) -> bool {
    &&& is_permutation(order, keys.len() as int)
    &&& forall|i: int, j: int|
        0 <= i < j < order.len() ==> in_order(keys, #[trigger] order[i], #[trigger] order[j])
}

/// Position `a` may stand ahead of position `b`.
pub open spec fn in_order<K: SortKey>(keys: Seq<K>, a: int, b: int) -> bool {
    &&& !keys[b].before(&keys[a])
    &&& !keys[a].before(&keys[b]) ==> a < b
}

/// Sorts positions by their keys.
pub fn stable_order<K: SortKey>(keys: &Vec<K>) -> (r: Vec<usize>)
    ensures
        is_stable_order(keys@, Seq::new(r@.len(), |i: int| r@[i] as int)),
        r@.len() == keys@.len(),
        forall|i: int| 0 <= i < r@.len() ==> #[trigger] r@[i] < keys@.len(),
{
    let mut order: Vec<usize> = Vec::new();
    let mut next: usize = 0;
    while next < keys.len()
        invariant
            next <= keys@.len(),
            order@.len() == next,
            forall|i: int| 0 <= i < order@.len() ==> #[trigger] order@[i] < next,
            forall|i: int, j: int|
                0 <= i < j < order@.len() ==> #[trigger] order@[i] != #[trigger] order@[j]
                    && in_order(keys@, order@[i] as int, order@[j] as int),
        decreases keys@.len() - next,
    {
        let mut at: usize = order.len();
        while at > 0 && keys[next].is_before(&keys[order[at - 1]])
            invariant
                at <= order@.len(),
                next < keys@.len(),
                forall|i: int| 0 <= i < order@.len() ==> #[trigger] order@[i] < next,
                forall|i: int|
                    at <= i < order@.len() ==> keys@[next as int].before(
                        &keys@[#[trigger] order@[i] as int],
                    ),
            ensures
                at > 0 ==> !keys@[next as int].before(&keys@[order@[at - 1] as int]),
            decreases at,
        {
            at = at - 1;
        }
        let ghost before = order@;
        proof {
            assert forall|i: int| 0 <= i < at implies !keys@[next as int].before(
                &keys@[#[trigger] before[i] as int],
            ) by {
                if i < at - 1 {
                    let a = before[i] as int;
                    let b = before[at - 1] as int;
                    assert(in_order(keys@, a, b));
                    K::weak_order(&keys@[next as int], &keys@[b], &keys@[a]);
                }
            }
        }
        order.insert(at, next);
        proof {
            let after = order@;
            assert(after =~= before.insert(at as int, next));
            assert forall|i: int, j: int| 0 <= i < j < after.len() implies #[trigger] after[i]
                != #[trigger] after[j] && in_order(keys@, after[i] as int, after[j] as int) by {
                if i == at {
                    assert(after[j] == before[j - 1]);
                    K::weak_order(
                        &keys@[next as int],
                        &keys@[before[j - 1] as int],
                        &keys@[next as int],
                    );
                } else if j == at {
                    assert(after[i] == before[i]);
                } else {
                    let x = if i < at { i } else { i - 1 };
                    let y = if j < at { j } else { j - 1 };
                    assert(after[i] == before[x] && after[j] == before[y]);
                }
            }
            assert forall|i: int| 0 <= i < after.len() implies #[trigger] after[i] < next + 1 by {
                if i < at {
                    assert(after[i] == before[i]);
                } else if i > at {
                    assert(after[i] == before[i - 1]);
                }
            }
        }
        next = next + 1;
    }
    proof {
        let ints = Seq::new(order@.len(), |i: int| order@[i] as int);
        assert forall|i: int, j: int| 0 <= i < ints.len() && 0 <= j < ints.len() && i
            != j implies ints[i] != ints[j] by {
            if i < j {
                assert(order@[i] != order@[j]);
            } else {
                assert(order@[j] != order@[i]);
            }
        }
    }
    order
}

/// A key that sorts by text.
pub struct TextKey<'a> {
    pub name: &'a str,
}

impl<'a> SortKey for TextKey<'a> {
    open spec fn before(&self, other: &Self) -> bool {
        text::text_lt(self.name@, other.name@)
    }

    proof fn weak_order(a: &Self, b: &Self, c: &Self) {
        text::lemma_text_lt_total(a.name@, b.name@);
        if a.before(c) && !a.before(b) && a.name@ != b.name@ {
            text::lemma_text_lt_transitive(b.name@, a.name@, c.name@);
        }
    }

    fn is_before(&self, other: &Self) -> (r: bool) {
        text::comes_before(self.name, other.name)
    }
}

/// A permutation hits every position.
pub proof fn lemma_permutation_onto(order: Seq<int>, n: int)
    requires
        is_permutation(order, n),
        n >= 0,
    ensures
        order.to_set() == vstd::set_lib::set_int_range(0, n),
{
    let s = order.to_set();
    let full = vstd::set_lib::set_int_range(0, n);
    order.unique_seq_to_set();
    vstd::set_lib::lemma_int_range(0, n);
    assert(s.subset_of(full)) by {
        assert forall|x: int| s.contains(x) implies full.contains(x) by {
            let i = choose|i: int| 0 <= i < order.len() && order[i] == x;
        }
    }
    vstd::set_lib::lemma_subset_equality(s, full);
}

/// The items of a sequence in another order.
pub open spec fn permuted<T>(items: Seq<T>, order: Seq<int>) -> Seq<T> {
    Seq::new(order.len(), |i: int| items[order[i]])
}

/// Another order of distinct items holds the same items, each once.
pub proof fn lemma_permuted<T>(items: Seq<T>, order: Seq<int>)
    requires
        is_permutation(order, items.len() as int),
        items.no_duplicates(),
    ensures
        permuted(items, order).no_duplicates(),
        permuted(items, order).to_set() == items.to_set(),
        permuted(items, order).len() == items.len(),
{
    let out = permuted(items, order);
    lemma_permutation_onto(order, items.len() as int);
    assert forall|x: T| out.to_set().contains(x) == items.to_set().contains(x) by {
        if out.contains(x) {
            let i = choose|i: int| 0 <= i < out.len() && out[i] == x;
            assert(items[order[i]] == x);
        }
        if items.contains(x) {
            let k = choose|k: int| 0 <= k < items.len() && items[k] == x;
            assert(order.to_set().contains(k));
            let i = choose|i: int| 0 <= i < order.len() && order[i] == k;
            assert(out[i] == x);
        }
    }
    assert(out.to_set() =~= items.to_set());
}

/// A stable order has each position once, no key behind one that it comes before, and keys that are
/// alike in the order in which they stood.
pub proof fn lemma_stable_order_is_sorted<K: SortKey>(keys: Seq<K>, order: Seq<int>, i: int, j: int)
    requires
        is_stable_order(keys, order),
        0 <= i < j < order.len(),
    ensures
        order.len() == keys.len(),
        order[i] != order[j],
        0 <= order[i] < keys.len(),
        !keys[order[j]].before(&keys[order[i]]),
        !keys[order[i]].before(&keys[order[j]]) ==> order[i] < order[j],
        permuted(keys, order)[i] == keys[order[i]],
{
    assert(in_order(keys, order[i], order[j]));
}

/// Texts are sorted by the order of texts.
pub proof fn lemma_text_key_goes_by_text(a: TextKey, b: TextKey)
    ensures
        a.before(&b) <==> text::text_lt(a.name@, b.name@),
{
}

} // verus!
