//! Putting a sequence in order without changing the order of what the
//! order does not tell apart.

use vstd::prelude::*;
use vstd::seq_lib::to_multiset_build;

verus! {

/// `before` is a strict order that may leave things untold apart: of two
/// things at most one comes before the other, and if neither `b` comes
/// before `a` nor `c` before `b`, then `c` does not come before `a`.
pub open spec fn is_strict_weak<T>(before: spec_fn(T, T) -> bool) -> bool {
    &&& forall|a: T, b: T| #[trigger] before(a, b) ==> !before(b, a)
    &&& forall|a: T, b: T, c: T|
        !#[trigger] before(b, a) && !#[trigger] before(c, b) ==> !before(c, a)
}

/// Nothing in `items` comes before something that stands earlier.
pub open spec fn is_ordered<T>(items: Seq<T>, before: spec_fn(T, T) -> bool) -> bool {
    forall|i: int, j: int| 0 <= i < j < items.len() ==> !before(#[trigger] items[j], #[trigger] items[i])
}

/// `items` with `item` put behind the last of them that it does not come
/// before.
pub open spec fn insert_ordered<T>(items: Seq<T>, item: T, before: spec_fn(T, T) -> bool) -> Seq<
    T,
>
    decreases items.len(),
{
    if items.len() > 0 && before(item, items.last()) {
        insert_ordered(items.drop_last(), item, before).push(items.last())
    } else {
        items.push(item)
    }
}

/// `items` in order: each in turn is put behind the last of those before
/// it that it does not come before. So what the order does not tell
/// apart stays in the order in which it came.
pub open spec fn arranged<T>(items: Seq<T>, before: spec_fn(T, T) -> bool) -> Seq<T>
    decreases items.len(),
{
    if items.len() == 0 {
        Seq::<T>::empty()
    } else {
        insert_ordered(arranged(items.drop_last(), before), items.last(), before)
    }
}

/// Where `item` goes: at the place behind which everything comes after
/// it and before which the neighbour does not.
pub proof fn lemma_insert_at<T>(items: Seq<T>, item: T, before: spec_fn(T, T) -> bool, at: int)
    requires
        0 <= at <= items.len(),
        forall|k: int| at <= k < items.len() ==> before(item, #[trigger] items[k]),
        at > 0 ==> !before(item, items[at - 1]),
    ensures
        insert_ordered(items, item, before) == items.insert(at, item),
    decreases items.len() - at,
{
    if at == items.len() {
        assert(items.push(item) =~= items.insert(at, item));
    } else {
        let front = items.drop_last();
        assert(before(item, items[items.len() - 1]));
        assert forall|k: int| at <= k < front.len() implies before(item, #[trigger] front[k]) by {
            assert(front[k] == items[k]);
        }
        lemma_insert_at(front, item, before, at);
        assert(front.insert(at, item).push(items.last()) =~= items.insert(at, item));
    }
}

/// Putting one more in keeps the order and adds nothing but the one.
pub proof fn lemma_insert_ordered<T>(items: Seq<T>, item: T, before: spec_fn(T, T) -> bool)
    requires
        is_strict_weak(before),
        is_ordered(items, before),
    ensures
        is_ordered(insert_ordered(items, item, before), before),
        insert_ordered(items, item, before).to_multiset() == items.to_multiset().insert(item),
        insert_ordered(items, item, before).len() == items.len() + 1,
    decreases items.len(),
{
    let result = insert_ordered(items, item, before);
    if items.len() > 0 && before(item, items.last()) {
        let front = items.drop_last();
        let last = items.last();
        let inner = insert_ordered(front, item, before);
        assert(is_ordered(front, before)) by {
            assert forall|i: int, j: int| 0 <= i < j < front.len() implies !before(
                #[trigger] front[j],
                #[trigger] front[i],
            ) by {
                assert(front[i] == items[i] && front[j] == items[j]);
            }
        }
        lemma_insert_ordered(front, item, before);
        assert forall|i: int, j: int| 0 <= i < j < result.len() implies !before(
            #[trigger] result[j],
            #[trigger] result[i],
        ) by {
            if j < inner.len() {
                assert(result[i] == inner[i] && result[j] == inner[j]);
            } else {
                assert(result[j] == last);
                assert(result[i] == inner[i]);
                inner.to_multiset_ensures();
                front.to_multiset_ensures();
                assert(inner.contains(inner[i]));
                assert(inner.to_multiset().count(inner[i]) > 0);
                if inner[i] != item {
                    assert(front.to_multiset().count(inner[i]) > 0);
                    assert(front.contains(inner[i]));
                    let k = choose|k: int| 0 <= k < front.len() && front[k] == inner[i];
                    assert(items[k] == inner[i]);
                    assert(!before(items[items.len() - 1], items[k]));
                }
            }
        }
        to_multiset_build(inner, last);
        to_multiset_build(front, last);
        assert(front.push(last) =~= items);
        assert(inner.to_multiset().insert(last) =~= items.to_multiset().insert(item));
    } else {
        assert forall|i: int, j: int| 0 <= i < j < result.len() implies !before(
            #[trigger] result[j],
            #[trigger] result[i],
        ) by {
            if j < items.len() {
                assert(result[i] == items[i] && result[j] == items[j]);
            } else {
                assert(result[j] == item);
                assert(result[i] == items[i]);
                if i < items.len() - 1 {
                    assert(!before(items[items.len() - 1], items[i]));
                }
            }
        }
        to_multiset_build(items, item);
    }
}

/// Arranging puts in order and neither adds nor drops anything.
pub proof fn lemma_arranged<T>(items: Seq<T>, before: spec_fn(T, T) -> bool)
    requires
        is_strict_weak(before),
    ensures
        is_ordered(arranged(items, before), before),
        arranged(items, before).to_multiset() == items.to_multiset(),
        arranged(items, before).len() == items.len(),
    decreases items.len(),
{
    if items.len() > 0 {
        let front = items.drop_last();
        lemma_arranged(front, before);
        lemma_insert_ordered(arranged(front, before), items.last(), before);
        to_multiset_build(front, items.last());
        assert(front.push(items.last()) =~= items);
    } else {
        assert(arranged(items, before) =~= items);
    }
}

/// What is in order already stays as it is.
pub proof fn lemma_arranged_fixed<T>(items: Seq<T>, before: spec_fn(T, T) -> bool)
    requires
        is_ordered(items, before),
    ensures
        arranged(items, before) == items,
    decreases items.len(),
{
    if items.len() > 0 {
        let front = items.drop_last();
        assert(is_ordered(front, before)) by {
            assert forall|i: int, j: int| 0 <= i < j < front.len() implies !before(
                #[trigger] front[j],
                #[trigger] front[i],
            ) by {
                assert(front[i] == items[i] && front[j] == items[j]);
            }
        }
        lemma_arranged_fixed(front, before);
        if front.len() > 0 {
            assert(!before(items[items.len() - 1], items[front.len() - 1]));
            assert(front.last() == items[front.len() - 1]);
        }
        assert(front.push(items.last()) =~= items);
    } else {
        assert(arranged(items, before) =~= items);
    }
}

} // verus!
