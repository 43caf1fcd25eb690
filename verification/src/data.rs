//! Market data items, and their order in time.
use crate::time::UnixNanos;
use vstd::prelude::*;

verus! {

/// An item of market data: when it came to be known, and what it says.
#[derive(Debug)]
pub struct Data<T> {
    pub ts_init: UnixNanos,
    pub payload: T,
}

/// Whether items stand in the order of their times.
pub open spec fn is_sorted<T>(items: Seq<Data<T>>) -> bool {
    forall|i: int, j: int| 0 <= i <= j < items.len() ==> items[i].ts_init <= items[j].ts_init
}

/// The items of one time, in the order in which they stand.
pub open spec fn at_time<T>(items: Seq<Data<T>>, time: UnixNanos) -> Seq<Data<T>> {
    items.filter(|item: Data<T>| item.ts_init == time)
}

/// Whether `sorted` holds the items of `items` in the order of their times, and those of
/// one time in the order in which they stood.
pub open spec fn is_stable_sort<T>(sorted: Seq<Data<T>>, items: Seq<Data<T>>) -> bool {
    &&& is_sorted(sorted)
    &&& sorted.to_multiset() == items.to_multiset()
    &&& forall|time: UnixNanos| #[trigger] at_time(sorted, time) == at_time(items, time)
}

/// The latest time among items.
pub open spec fn latest<T>(items: Seq<Data<T>>) -> UnixNanos
    recommends
        items.len() > 0,
    decreases items.len(),
{
    if items.len() <= 1 {
        items[0].ts_init
    } else {
        let before = latest(items.drop_last());
        if before >= items.last().ts_init {
            before
        } else {
            items.last().ts_init
        }
    }
}

/// The earliest time among items.
pub open spec fn earliest<T>(items: Seq<Data<T>>) -> UnixNanos
    recommends
        items.len() > 0,
    decreases items.len(),
{
    if items.len() <= 1 {
        items[0].ts_init
    } else {
        let before = earliest(items.drop_last());
        if before <= items.last().ts_init {
            before
        } else {
            items.last().ts_init
        }
    }
}

/// The items of several batches, one batch after the other.
pub open spec fn concatenated<T>(batches: Seq<Vec<Data<T>>>) -> Seq<Data<T>>
    decreases batches.len(),
{
    if batches.len() == 0 {
        Seq::empty()
    } else {
        concatenated(batches.drop_last()) + batches.last()@
    }
}

/// `slice::sort_by_key` of std, with the time of an item as its key: a stable sort, which
/// moves items and neither adds nor drops any.
#[verifier::external_body]
pub(crate) fn sort_by_time<T>(items: &mut Vec<Data<T>>)
    ensures
        is_stable_sort(final(items)@, old(items)@),
{
    items.sort_by_key(|item| item.ts_init)
}

/// Merges batches that were loaded one by one into one stream in the order of time.
pub fn load_and_merge_data<T>(batches: Vec<Vec<Data<T>>>) -> (r: Vec<Data<T>>)
    ensures
        is_stable_sort(r@, concatenated(batches@)),
{
    let ghost all = batches@;
    let mut merged: Vec<Data<T>> = Vec::new();
    assert(all.take(0) =~= Seq::empty());
    for batch in it: batches
        invariant
            it.seq() == all,
            merged@ == concatenated(all.take(it.index() as int)),
    {
        let mut batch = batch;
        assert(all.take(it.index() + 1).drop_last() =~= all.take(it.index() as int));
        merged.append(&mut batch);
    }
    assert(all.take(all.len() as int) =~= all);
    sort_by_time(&mut merged);
    merged
}

/// No item is later than the latest, and some item is as late.
pub proof fn lemma_latest<T>(items: Seq<Data<T>>)
    requires
        items.len() > 0,
    ensures
        forall|i: int| 0 <= i < items.len() ==> items[i].ts_init <= latest(items),
        exists|i: int| 0 <= i < items.len() && items[i].ts_init == latest(items),
    decreases items.len(),
{
    if items.len() > 1 {
        let front = items.drop_last();
        lemma_latest(front);
        assert forall|i: int| 0 <= i < items.len() implies items[i].ts_init <= latest(items) by {
            if i < front.len() {
                assert(front[i] == items[i]);
            }
        }
        let k = choose|k: int| 0 <= k < front.len() && front[k].ts_init == latest(front);
        assert(items[k] == front[k]);
        assert(items[items.len() - 1] == items.last());
    } else {
        assert(items[0].ts_init == latest(items));
    }
}

/// No item is earlier than the earliest, and some item is as early.
pub proof fn lemma_earliest<T>(items: Seq<Data<T>>)
    requires
        items.len() > 0,
    ensures
        forall|i: int| 0 <= i < items.len() ==> earliest(items) <= items[i].ts_init,
        exists|i: int| 0 <= i < items.len() && items[i].ts_init == earliest(items),
    decreases items.len(),
{
    if items.len() > 1 {
        let front = items.drop_last();
        lemma_earliest(front);
        assert forall|i: int| 0 <= i < items.len() implies earliest(items) <= items[i].ts_init by {
            if i < front.len() {
                assert(front[i] == items[i]);
            }
        }
        let k = choose|k: int| 0 <= k < front.len() && front[k].ts_init == earliest(front);
        assert(items[k] == front[k]);
        assert(items[items.len() - 1] == items.last());
    } else {
        assert(items[0].ts_init == earliest(items));
    }
}

/// A sort of items begins with the earliest time.
pub proof fn lemma_sort_begins_earliest<T>(sorted: Seq<Data<T>>, items: Seq<Data<T>>)
    requires
        is_stable_sort(sorted, items),
        items.len() > 0,
    ensures
        sorted.len() > 0,
        sorted[0].ts_init == earliest(items),
{
    broadcast use vstd::seq_lib::group_to_multiset_ensures;

    assert(sorted.to_multiset().len() == items.to_multiset().len());
    lemma_earliest(items);
    let k = choose|k: int| 0 <= k < items.len() && items[k].ts_init == earliest(items);
    assert(items.contains(items[k]));
    assert(sorted.to_multiset().count(items[k]) > 0);
    assert(sorted.contains(items[k]));
    let m = choose|m: int| 0 <= m < sorted.len() && sorted[m] == items[k];
    assert(sorted[0].ts_init <= sorted[m].ts_init);
    assert(sorted.contains(sorted[0]));
    assert(items.to_multiset().count(sorted[0]) > 0);
    assert(items.contains(sorted[0]));
}

/// A sort of items has as many items, and its last one has the latest time.
pub proof fn lemma_sort_ends_latest<T>(sorted: Seq<Data<T>>, items: Seq<Data<T>>)
    requires
        is_stable_sort(sorted, items),
    ensures
        sorted.len() == items.len(),
        items.len() > 0 ==> sorted.last().ts_init == latest(items),
{
    broadcast use vstd::seq_lib::group_to_multiset_ensures;

    assert(sorted.to_multiset().len() == items.to_multiset().len());
    if items.len() > 0 {
        lemma_latest(items);
        let k = choose|k: int| 0 <= k < items.len() && items[k].ts_init == latest(items);
        assert(items.contains(items[k]));
        assert(sorted.to_multiset().count(items[k]) > 0);
        assert(sorted.contains(items[k]));
        let m = choose|m: int| 0 <= m < sorted.len() && sorted[m] == items[k];
        assert(sorted[m].ts_init <= sorted[sorted.len() - 1].ts_init);
        assert(sorted.contains(sorted.last()));
        assert(items.to_multiset().count(sorted.last()) > 0);
        assert(items.contains(sorted.last()));
    }
}

/// Two rows in the order of time that agree on the items of every time are equal.
proof fn lemma_sorted_by_times<T>(a: Seq<Data<T>>, b: Seq<Data<T>>)
    requires
        is_sorted(a),
        is_sorted(b),
        forall|time: UnixNanos| #[trigger] at_time(a, time) == at_time(b, time),
    ensures
        a == b,
    decreases a.len() + b.len(),
{
    broadcast use vstd::seq_lib::group_filter_ensures;

    reveal(Seq::filter);
    if a.len() == 0 || b.len() == 0 {
        if a.len() > 0 {
            assert(at_time(a, a.last().ts_init).len() > 0);
            assert(at_time(b, a.last().ts_init).len() == 0);
        }
        if b.len() > 0 {
            assert(at_time(b, b.last().ts_init).len() > 0);
            assert(at_time(a, b.last().ts_init).len() == 0);
        }
        assert(a =~= b);
    } else {
        let ta = a.last().ts_init;
        let tb = b.last().ts_init;
        assert(at_time(b, ta).contains(a.last())) by {
            assert(at_time(a, ta).last() == a.last());
        }
        assert(at_time(a, tb).contains(b.last())) by {
            assert(at_time(b, tb).last() == b.last());
        }
        lemma_filter_member(b, a.last(), ta);
        lemma_filter_member(a, b.last(), tb);
        assert(ta == tb);
        assert(at_time(a, ta).last() == a.last());
        assert(at_time(b, ta).last() == b.last());
        assert forall|time: UnixNanos| #[trigger]
            at_time(a.drop_last(), time) == at_time(b.drop_last(), time) by {
            assert(at_time(a, time) == at_time(b, time));
            if time == ta {
                assert(at_time(a.drop_last(), time) =~= at_time(a, time).drop_last());
                assert(at_time(b.drop_last(), time) =~= at_time(b, time).drop_last());
            }
        }
        lemma_sorted_by_times(a.drop_last(), b.drop_last());
        assert(a =~= a.drop_last().push(a.last()));
        assert(b =~= b.drop_last().push(b.last()));
    }
}

/// An item of one time is no later than the last item of a row in the order of time.
proof fn lemma_filter_member<T>(items: Seq<Data<T>>, item: Data<T>, time: UnixNanos)
    requires
        is_sorted(items),
        items.len() > 0,
        at_time(items, time).contains(item),
    ensures
        item.ts_init == time,
        time <= items.last().ts_init,
    decreases items.len(),
{
    reveal(Seq::filter);
    let front = items.drop_last();
    if items.last().ts_init == time && item == items.last() {
    } else {
        let k = choose|k: int| 0 <= k < at_time(items, time).len() && at_time(items, time)[k] == item;
        assert(at_time(front, time).contains(item)) by {
            assert(at_time(front, time)[k] == item);
        }
        assert(front.len() > 0);
        lemma_filter_member(front, item, time);
        assert(front.last() == items[items.len() - 2]);
    }
}

/// Items have one stable sort only.
pub proof fn law_stable_sort_is_unique<T>(
    first: Seq<Data<T>>,
    second: Seq<Data<T>>,
    items: Seq<Data<T>>,
)
    requires
        is_stable_sort(first, items),
        is_stable_sort(second, items),
    ensures
        first == second,
{
    assert forall|time: UnixNanos| #[trigger] at_time(first, time) == at_time(second, time) by {
        assert(at_time(first, time) == at_time(items, time));
        assert(at_time(second, time) == at_time(items, time));
    }
    lemma_sorted_by_times(first, second);
}

/// Items that already stand in the order of their times are their own stable sort.
pub proof fn law_sorted_data_is_kept<T>(sorted: Seq<Data<T>>, items: Seq<Data<T>>)
    requires
        is_sorted(items),
        is_stable_sort(sorted, items),
    ensures
        sorted == items,
{
    law_stable_sort_is_unique(sorted, items, items);
}

} // verus!
