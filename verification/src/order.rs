//! Ranking by a key: the larger key first and, of two equal keys, the one that
//! came first. An order is a sequence of indices into the keys.

use vstd::prelude::*;

verus! {

/// Whether the item at index `a` is placed before the item at index `b`.
pub open spec fn precedes(keys: Seq<i128>, a: int, b: int) -> bool {
    keys[a] > keys[b] || (keys[a] == keys[b] && a < b)
}

/// `order` ranks the first `n` keys: it holds `n` indices below `n`, each
/// placed before all that follow it.
pub open spec fn ranks_first(keys: Seq<i128>, n: int, order: Seq<usize>) -> bool {
    &&& order.len() == n
    &&& forall|i: int| 0 <= i < order.len() ==> (#[trigger] order[i]) < n
    &&& forall|i: int, j: int|
        0 <= i < j < order.len() ==> precedes(
            keys,
            #[trigger] order[i] as int,
            #[trigger] order[j] as int,
        )
}

/// `order` ranks all the keys, by descending key and then by ascending index.
pub open spec fn is_descending_order(keys: Seq<i128>, order: Seq<usize>) -> bool {
    ranks_first(keys, keys.len() as int, order)
}

/// The first place at or after `from` whose key is smaller than `key`, or the
/// end of `order` if there is none.
pub open spec fn slot_from(keys: Seq<i128>, order: Seq<usize>, key: i128, from: int) -> int
    decreases order.len() - from,
{
    if from < 0 || from >= order.len() || keys[order[from] as int] < key {
        from
    } else {
        slot_from(keys, order, key, from + 1)
    }
}

/// The ranking of the first `n` keys, built by placing each index in turn
/// behind every index whose key is not smaller.
pub open spec fn order_first(keys: Seq<i128>, n: nat) -> Seq<usize>
    decreases n,
{
    if n == 0 {
        Seq::empty()
    } else {
        let rest = order_first(keys, (n - 1) as nat);
        rest.insert(slot_from(keys, rest, keys[n - 1], 0), (n - 1) as usize)
    }
}

/// The ranking of all the keys.
pub open spec fn descending_order(keys: Seq<i128>) -> Seq<usize> {
    order_first(keys, keys.len())
}

/// The items picked in the sequence that `order` gives.
pub open spec fn arrange<T>(items: Seq<T>, order: Seq<usize>) -> Seq<T> {
    Seq::new(order.len(), |i: int| items[order[i] as int])
}

/// The order that leaves every item in its place.
pub open spec fn identity_order(n: nat) -> Seq<usize> {
    Seq::new(n, |i: int| i as usize)
}

/// Whether no key is smaller than one that follows it.
pub open spec fn is_nonincreasing(keys: Seq<i128>) -> bool {
    forall|i: int, j: int| 0 <= i < j < keys.len() ==> keys[i] >= keys[j]
}

/// What `slot_from` finds: everything between `from` and the slot has a key
/// that is not smaller, and the slot itself, if inside, has a smaller one.
pub proof fn lemma_slot_from(keys: Seq<i128>, order: Seq<usize>, key: i128, from: int)
    requires
        0 <= from <= order.len(),
    ensures
        from <= slot_from(keys, order, key, from) <= order.len(),
        forall|i: int|
            from <= i < slot_from(keys, order, key, from) ==> keys[#[trigger] order[i] as int]
                >= key,
        slot_from(keys, order, key, from) < order.len() ==> keys[order[slot_from(
            keys,
            order,
            key,
            from,
        )] as int] < key,
    decreases order.len() - from,
{
    if from < order.len() && keys[order[from] as int] >= key {
        lemma_slot_from(keys, order, key, from + 1);
    }
}

/// Placing index `n` at its slot in a ranking of the first `n` keys gives a
/// ranking of the first `n + 1` keys.
pub proof fn lemma_place_next(keys: Seq<i128>, n: int, rest: Seq<usize>)
    requires
        0 <= n < keys.len(),
        n <= usize::MAX,
        ranks_first(keys, n, rest),
    ensures
        ranks_first(keys, n + 1, rest.insert(slot_from(keys, rest, keys[n], 0), n as usize)),
{
    let key = keys[n];
    let slot = slot_from(keys, rest, key, 0);
    lemma_slot_from(keys, rest, key, 0);
    let placed = rest.insert(slot, n as usize);
    assert forall|i: int, j: int| 0 <= i < j < placed.len() implies precedes(
        keys,
        #[trigger] placed[i] as int,
        #[trigger] placed[j] as int,
    ) by {
        if j < slot {
            assert(placed[i] == rest[i] && placed[j] == rest[j]);
        } else if j == slot {
            assert(placed[i] == rest[i]);
        } else if i < slot {
            assert(placed[i] == rest[i] && placed[j] == rest[j - 1]);
        } else if i == slot {
            assert(placed[j] == rest[j - 1]);
            if slot < j - 1 {
                assert(precedes(keys, rest[slot] as int, rest[j - 1] as int));
            }
        } else {
            assert(placed[i] == rest[i - 1] && placed[j] == rest[j - 1]);
        }
    }
    assert forall|i: int| 0 <= i < placed.len() implies (#[trigger] placed[i]) < n + 1 by {
        if i < slot {
            assert(placed[i] == rest[i]);
        } else if i > slot {
            assert(placed[i] == rest[i - 1]);
        }
    }
}

/// The built ranking of the first `n` keys is a ranking of them.
pub proof fn lemma_order_first_ranks(keys: Seq<i128>, n: nat)
    requires
        n <= keys.len(),
        n <= usize::MAX + 1,
    ensures
        ranks_first(keys, n as int, order_first(keys, n)),
    decreases n,
{
    if n > 0 {
        lemma_order_first_ranks(keys, (n - 1) as nat);
        lemma_place_next(keys, n - 1, order_first(keys, (n - 1) as nat));
    }
}

/// `descending_order` ranks all the keys: larger keys first, equal keys in the
/// sequence in which they came.
pub proof fn lemma_descending_order_ranks(keys: Seq<i128>)
    requires
        keys.len() <= usize::MAX + 1,
    ensures
        is_descending_order(keys, descending_order(keys)),
{
    lemma_order_first_ranks(keys, keys.len());
}

/// Keys that are already in descending sequence keep their places.
pub proof fn lemma_order_of_nonincreasing(keys: Seq<i128>, n: nat)
    requires
        is_nonincreasing(keys),
        n <= keys.len(),
        n <= usize::MAX,
    ensures
        order_first(keys, n) == identity_order(n),
    decreases n,
{
    if n > 0 {
        let rest = order_first(keys, (n - 1) as nat);
        lemma_order_of_nonincreasing(keys, (n - 1) as nat);
        assert(rest == identity_order((n - 1) as nat));
        lemma_slot_from(keys, rest, keys[n - 1], 0);
        let slot = slot_from(keys, rest, keys[n - 1], 0);
        if slot < rest.len() {
            assert(rest[slot] == slot as usize);
            assert(keys[slot] >= keys[n - 1]);
        }
        assert(rest.insert(slot, (n - 1) as usize) =~= identity_order(n));
    } else {
        assert(order_first(keys, n) =~= identity_order(n));
    }
}

/// Arranging by the identity order changes nothing.
pub proof fn lemma_arrange_identity<T>(items: Seq<T>)
    requires
        items.len() <= usize::MAX,
    ensures
        arrange(items, identity_order(items.len())) == items,
{
    assert(arrange(items, identity_order(items.len())) =~= items);
}

/// A ranking of the first `n` keys holds each of the indices below `n`.
pub proof fn lemma_ranking_holds_all(keys: Seq<i128>, n: int, order: Seq<usize>, index: int)
    requires
        ranks_first(keys, n, order),
        0 <= index < n,
    ensures
        exists|at: int| 0 <= at < order.len() && #[trigger] order[at] == index,
{
    let places = Seq::new(order.len(), |i: int| order[i] as int);
    assert(places.no_duplicates()) by {
        assert forall|i: int, j: int| 0 <= i < places.len() && 0 <= j < places.len() && i
            != j implies places[i] != places[j] by {
            if i < j {
                assert(precedes(keys, order[i] as int, order[j] as int));
            } else {
                assert(precedes(keys, order[j] as int, order[i] as int));
            }
        }
    }
    places.unique_seq_to_set();
    vstd::set_lib::lemma_int_range(0, n);
    let all = vstd::set_lib::set_int_range(0, n);
    assert(places.to_set().subset_of(all)) by {
        assert forall|v: int| places.to_set().contains(v) implies all.contains(v) by {
            let at = choose|at: int| 0 <= at < places.len() && places[at] == v;
            assert(order[at] < n);
        }
    }
    vstd::set_lib::lemma_set_subset_finite(all, places.to_set());
    vstd::set_lib::lemma_subset_equality(places.to_set(), all);
    assert(all.contains(index));
    assert(places.to_set().contains(index));
    let at = choose|at: int| 0 <= at < places.len() && places[at] == index;
    assert(order[at] == index);
}

/// Arranging by a ranking loses and adds nothing: the arranged items are as
/// many as the items, and each item stands among them.
pub proof fn lemma_arranged_holds_all<T>(items: Seq<T>, keys: Seq<i128>, at: int)
    requires
        keys.len() == items.len(),
        keys.len() <= usize::MAX + 1,
        0 <= at < items.len(),
    ensures
        arrange(items, descending_order(keys)).len() == items.len(),
        arrange(items, descending_order(keys)).contains(items[at]),
{
    lemma_descending_order_ranks(keys);
    let order = descending_order(keys);
    lemma_ranking_holds_all(keys, keys.len() as int, order, at);
    let place = choose|place: int| 0 <= place < order.len() && #[trigger] order[place] == at;
    assert(arrange(items, order)[place] == items[at]);
}

/// Two rankings of the same keys agree on their first `upto` places.
pub proof fn lemma_rankings_agree(
    keys: Seq<i128>,
    n: int,
    one: Seq<usize>,
    other: Seq<usize>,
    upto: int,
)
    requires
        ranks_first(keys, n, one),
        ranks_first(keys, n, other),
        0 <= upto <= n,
    ensures
        forall|i: int| 0 <= i < upto ==> one[i] == other[i],
    decreases upto,
{
    if upto > 0 {
        lemma_rankings_agree(keys, n, one, other, upto - 1);
        let at = upto - 1;
        let x = one[at];
        let y = other[at];
        if x != y {
            lemma_ranking_holds_all(keys, n, other, x as int);
            let j = choose|j: int| 0 <= j < other.len() && #[trigger] other[j] == x as int;
            lemma_ranking_holds_all(keys, n, one, y as int);
            let k = choose|k: int| 0 <= k < one.len() && #[trigger] one[k] == y as int;
            if j < at {
                assert(one[j] == other[j]);
                assert(precedes(keys, one[j] as int, one[at] as int));
            }
            if k < at {
                assert(one[k] == other[k]);
                assert(precedes(keys, other[k] as int, other[at] as int));
            }
            assert(precedes(keys, other[at] as int, other[j] as int));
            assert(precedes(keys, one[at] as int, one[k] as int));
        }
    }
}

/// The keys have one ranking only: whatever ranks them is `descending_order`.
pub proof fn lemma_descending_order_unique(keys: Seq<i128>, order: Seq<usize>)
    requires
        is_descending_order(keys, order),
    ensures
        order == descending_order(keys),
{
    assert(keys.len() <= usize::MAX + 1) by {
        if keys.len() > 0 {
            lemma_ranking_holds_all(keys, keys.len() as int, order, keys.len() - 1);
        }
    }
    lemma_descending_order_ranks(keys);
    lemma_rankings_agree(
        keys,
        keys.len() as int,
        order,
        descending_order(keys),
        keys.len() as int,
    );
    assert(order =~= descending_order(keys));
}

/// Ranks the keys by descending key; equal keys stay in the sequence in which
/// they came.
pub fn rank_descending(keys: &Vec<i128>) -> (order: Vec<usize>)
    ensures
        order@ == descending_order(keys@),
        is_descending_order(keys@, order@),
{
    let mut order: Vec<usize> = Vec::new();
    let mut n: usize = 0;
    while n < keys.len()
        invariant
            n <= keys.len(),
            order@ == order_first(keys@, n as nat),
            ranks_first(keys@, n as int, order@),
        decreases keys.len() - n,
    {
        let key = keys[n];
        let mut slot: usize = 0;
        while slot < order.len() && keys[order[slot]] >= key
            invariant
                slot <= order.len(),
                n < keys.len(),
                ranks_first(keys@, n as int, order@),
                slot_from(keys@, order@, key, 0) == slot_from(keys@, order@, key, slot as int),
            decreases order.len() - slot,
        {
            slot += 1;
        }
        proof {
            lemma_place_next(keys@, n as int, order@);
        }
        order.insert(slot, n);
        n += 1;
    }
    order
}

} // verus!
