//! Lists whose items carry a key: at most one item per key, seen as a map.

use vstd::prelude::*;

verus! {

/// The items by their key; of two with one key the later counts.
pub open spec fn keyed<K, V>(items: Seq<V>, key: spec_fn(V) -> K) -> Map<K, V>
    decreases items.len(),
{
    if items.len() == 0 {
        Map::empty()
    } else {
        keyed(items.drop_last(), key).insert(key(items.last()), items.last())
    }
}

/// No two items have one key.
pub open spec fn distinct<K, V>(items: Seq<V>, key: spec_fn(V) -> K) -> bool {
    forall|i: int, j: int|
        0 <= i < j < items.len() ==> key(#[trigger] items[i]) != key(#[trigger] items[j])
}

pub proof fn lemma_keyed_contains<K, V>(items: Seq<V>, key: spec_fn(V) -> K, k: K)
    ensures
        keyed(items, key).dom().contains(k) <==> exists|i: int|
            0 <= i < items.len() && key(#[trigger] items[i]) == k,
    decreases items.len(),
{
    if items.len() > 0 {
        let front = items.drop_last();
        lemma_keyed_contains(front, key, k);
        if keyed(items, key).dom().contains(k) {
            if key(items.last()) == k {
                assert(key(items[items.len() - 1]) == k);
            } else {
                let i = choose|i: int| 0 <= i < front.len() && key(#[trigger] front[i]) == k;
                assert(key(items[i]) == k);
            }
        }
        if exists|i: int| 0 <= i < items.len() && key(#[trigger] items[i]) == k {
            let i = choose|i: int| 0 <= i < items.len() && key(#[trigger] items[i]) == k;
            if i < items.len() - 1 {
                assert(key(front[i]) == k);
            }
        }
    }
}

pub proof fn lemma_keyed_at<K, V>(items: Seq<V>, key: spec_fn(V) -> K, i: int)
    requires
        distinct(items, key),
        0 <= i < items.len(),
    ensures
        keyed(items, key).dom().contains(key(items[i])),
        keyed(items, key)[key(items[i])] == items[i],
    decreases items.len(),
{
    if i < items.len() - 1 {
        let front = items.drop_last();
        lemma_keyed_at(front, key, i);
        assert(items[i] == front[i]);
        assert(key(items[i]) != key(items[items.len() - 1]));
    }
}

pub proof fn lemma_keyed_push<K, V>(items: Seq<V>, key: spec_fn(V) -> K, item: V)
    ensures
        keyed(items.push(item), key) == keyed(items, key).insert(key(item), item),
{
    assert(items.push(item).drop_last() =~= items);
}

pub proof fn lemma_keyed_update<K, V>(items: Seq<V>, key: spec_fn(V) -> K, i: int, item: V)
    requires
        distinct(items, key),
        0 <= i < items.len(),
        key(item) == key(items[i]),
    ensures
        distinct(items.update(i, item), key),
        keyed(items.update(i, item), key) == keyed(items, key).insert(key(item), item),
    decreases items.len(),
{
    let changed = items.update(i, item);
    assert forall|a: int, b: int| 0 <= a < b < changed.len() implies key(#[trigger] changed[a])
        != key(#[trigger] changed[b]) by {
        assert(key(items[a]) != key(items[b]));
    }
    let front = items.drop_last();
    if i == items.len() - 1 {
        assert(changed.drop_last() =~= front);
        assert(keyed(changed, key) =~= keyed(items, key).insert(key(item), item));
    } else {
        assert(changed.drop_last() =~= front.update(i, item));
        lemma_keyed_update(front, key, i, item);
        assert(key(items[i]) != key(items[items.len() - 1]));
        assert(keyed(changed, key) =~= keyed(items, key).insert(key(item), item));
    }
}

pub proof fn lemma_keyed_remove<K, V>(items: Seq<V>, key: spec_fn(V) -> K, i: int)
    requires
        distinct(items, key),
        0 <= i < items.len(),
    ensures
        distinct(items.remove(i), key),
        keyed(items.remove(i), key) == keyed(items, key).remove(key(items[i])),
    decreases items.len(),
{
    let changed = items.remove(i);
    assert forall|a: int, b: int| 0 <= a < b < changed.len() implies key(#[trigger] changed[a])
        != key(#[trigger] changed[b]) by {
        let x = if a < i { a } else { a + 1 };
        let y = if b < i { b } else { b + 1 };
        assert(key(items[x]) != key(items[y]));
    }
    let front = items.drop_last();
    let last = items.last();
    if i == items.len() - 1 {
        assert(changed =~= front);
        lemma_keyed_contains(front, key, key(last));
        assert(!keyed(front, key).dom().contains(key(last))) by {
            if keyed(front, key).dom().contains(key(last)) {
                let j = choose|j: int| 0 <= j < front.len() && key(#[trigger] front[j]) == key(last);
                assert(key(items[j]) != key(items[items.len() - 1]));
            }
        }
        assert(keyed(changed, key) =~= keyed(items, key).remove(key(items[i])));
    } else {
        assert(changed.drop_last() =~= front.remove(i));
        assert(changed.last() == last);
        lemma_keyed_remove(front, key, i);
        assert(key(items[i]) != key(items[items.len() - 1]));
        assert(keyed(changed, key) =~= keyed(items, key).remove(key(items[i])));
    }
}

/// There are as many keys as items.
pub proof fn lemma_keyed_len<K, V>(items: Seq<V>, key: spec_fn(V) -> K)
    requires
        distinct(items, key),
    ensures
        keyed(items, key).dom().finite(),
        keyed(items, key).dom().len() == items.len(),
    decreases items.len(),
{
    if items.len() > 0 {
        let front = items.drop_last();
        assert forall|i: int, j: int| 0 <= i < j < front.len() implies key(#[trigger] front[i])
            != key(#[trigger] front[j]) by {
            assert(key(items[i]) != key(items[j]));
        }
        lemma_keyed_len(front, key);
        lemma_keyed_contains(front, key, key(items.last()));
        if keyed(front, key).dom().contains(key(items.last())) {
            let i = choose|i: int|
                0 <= i < front.len() && key(#[trigger] front[i]) == key(items.last());
            assert(key(items[i]) != key(items[items.len() - 1]));
        }
        assert(keyed(items, key).dom() =~= keyed(front, key).dom().insert(key(items.last())));
    } else {
        assert(keyed(items, key).dom() =~= Set::<K>::empty());
    }
}

} // verus!
