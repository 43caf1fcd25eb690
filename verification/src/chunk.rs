//! Cuts a stream of items into chunks that never part items of one time.
use crate::data::{is_sorted, Data};
use vstd::prelude::*;

verus! {

/// Whether an item joins the chunk that is being gathered: the chunk is not full yet, or
/// the item has the time of the item that made it full.
pub open spec fn joins_chunk<T>(
    gathered: Seq<Data<T>>,
    item: Data<T>,
    chunk_size: usize,
) -> bool {
    ||| gathered.len() < chunk_size
    ||| chunk_size > 0 && item.ts_init == gathered[chunk_size - 1].ts_init
}

/// Whether items may stand in one chunk: all past the first `chunk_size` have the time of
/// the last of those.
pub open spec fn fits_chunk<T>(items: Seq<Data<T>>, chunk_size: usize) -> bool {
    items.len() <= chunk_size || chunk_size > 0 && forall|i: int|
        chunk_size <= i < items.len() ==> (#[trigger] items[i]).ts_init == items[chunk_size
            - 1].ts_init
}

/// A chunk that is complete, and whether the stream ended with it.
#[derive(Debug)]
pub struct AlignedChunk<T> {
    pub items: Vec<Data<T>>,
    pub last: bool,
}

/// Takes the next item of a stream, or its end, into the chunk that is being gathered, and
/// returns the chunk once it is complete.
///
/// A chunk takes `chunk_size` items, and then all that share the time of the last of them.
/// The item that no longer joins begins the next chunk.
pub fn take_aligned_chunk<T>(
    gathered: &mut Vec<Data<T>>,
    next: Option<Data<T>>,
    chunk_size: usize,
) -> (r: Option<AlignedChunk<T>>)
    ensures
        match next {
            Some(item) => if joins_chunk(old(gathered)@, item, chunk_size) {
                &&& r is None
                &&& final(gathered)@ == old(gathered)@.push(item)
            } else {
                &&& r matches Some(chunk) && chunk.items@ == old(gathered)@ && !chunk.last
                &&& final(gathered)@ == seq![item]
            },
            None => {
                &&& r matches Some(chunk) && chunk.items@ == old(gathered)@ && chunk.last
                &&& final(gathered)@ == Seq::<Data<T>>::empty()
            },
        },
{
    match next {
        Some(item) => {
            if gathered.len() < chunk_size || (chunk_size > 0 && gathered[chunk_size - 1].ts_init
                == item.ts_init) {
                gathered.push(item);
                None
            } else {
                let mut items: Vec<Data<T>> = Vec::new();
                items.append(gathered);
                gathered.push(item);
                Some(AlignedChunk { items, last: false })
            }
        },
        None => {
            let mut items: Vec<Data<T>> = Vec::new();
            items.append(gathered);
            Some(AlignedChunk { items, last: true })
        },
    }
}

/// The first chunk of a row of items: its longest beginning that may stand in one chunk.
pub open spec fn first_chunk<T>(items: Seq<Data<T>>, chunk_size: usize) -> Seq<Data<T>>
    decreases items.len(),
{
    if items.len() == 0 || fits_chunk(items, chunk_size) {
        items
    } else {
        first_chunk(items.drop_last(), chunk_size)
    }
}

/// The chunks of a row of items.
pub open spec fn all_chunks<T>(items: Seq<Data<T>>, chunk_size: usize) -> Seq<Seq<Data<T>>>
    decreases items.len(),
{
    let first = first_chunk(items, chunk_size);
    if first.len() == 0 || first.len() > items.len() {
        Seq::empty()
    } else {
        seq![first] + all_chunks(items.skip(first.len() as int), chunk_size)
    }
}

/// An item joins a chunk exactly when the chunk with it may still stand as one.
pub proof fn lemma_joins_iff_fits<T>(chunk: Seq<Data<T>>, item: Data<T>, chunk_size: usize)
    requires
        fits_chunk(chunk, chunk_size),
    ensures
        joins_chunk(chunk, item, chunk_size) <==> fits_chunk(chunk.push(item), chunk_size),
{
    let longer = chunk.push(item);
    if longer.len() > chunk_size && chunk_size > 0 {
        assert(longer[chunk.len() as int] == item);
        assert(longer[chunk_size - 1] == chunk[chunk_size - 1]);
        if joins_chunk(chunk, item, chunk_size) {
            assert forall|i: int| chunk_size <= i < longer.len() implies (
            #[trigger] longer[i]).ts_init == longer[chunk_size - 1].ts_init by {
                if i < chunk.len() {
                    assert(longer[i] == chunk[i]);
                }
            }
        }
    }
}

/// A beginning that may stand in one chunk, and that the next item does not join, is the
/// first chunk.
pub proof fn lemma_first_chunk<T>(chunk: Seq<Data<T>>, rest: Seq<Data<T>>, chunk_size: usize)
    requires
        fits_chunk(chunk, chunk_size),
        rest.len() > 0 ==> !joins_chunk(chunk, rest[0], chunk_size),
    ensures
        first_chunk(chunk + rest, chunk_size) == chunk,
    decreases rest.len(),
{
    let items = chunk + rest;
    if rest.len() == 0 {
        assert(items =~= chunk);
    } else {
        assert(items[chunk.len() as int] == rest[0]);
        if chunk_size > 0 {
            assert(items[chunk_size - 1] == chunk[chunk_size - 1]);
        }
        assert(!fits_chunk(items, chunk_size));
        assert(items.drop_last() =~= chunk + rest.drop_last());
        if rest.len() > 1 {
            assert(rest.drop_last()[0] == rest[0]);
        }
        lemma_first_chunk(chunk, rest.drop_last(), chunk_size);
    }
}

/// How many chunks a number of items makes at most: the number over `chunk_size`, rounded up.
pub open spec fn chunk_limit(items: nat, chunk_size: usize) -> int {
    (items + chunk_size - 1) / (chunk_size as int)
}

/// Where all chunks but the last are full, there are no more than the limit.
pub proof fn lemma_chunk_limit(chunks: int, items: nat, chunk_size: usize)
    requires
        chunk_size > 0,
        chunks > 0 ==> (chunks - 1) * chunk_size < items,
    ensures
        chunks <= chunk_limit(items, chunk_size),
{
    let size = chunk_size as int;
    if chunks > 0 {
        assert(chunks * size <= items + size - 1) by (nonlinear_arith)
            requires
                (chunks - 1) * size < items,
        ;
        vstd::arithmetic::div_mod::lemma_div_is_ordered(chunks * size, items + size - 1, size);
        vstd::arithmetic::div_mod::lemma_div_multiples_vanish(chunks, size);
        assert(size * chunks == chunks * size) by (nonlinear_arith);
    } else {
        vstd::arithmetic::div_mod::lemma_div_pos_is_pos(items + size - 1, size);
    }
}

/// The first chunk of a row is a beginning of it; and if it is not all of it, it is full,
/// and what follows has another time than its end.
proof fn lemma_first_chunk_cut<T>(items: Seq<Data<T>>, chunk_size: usize)
    requires
        items.len() > 0,
        chunk_size > 0,
    ensures
        ({
            let first = first_chunk(items, chunk_size);
            &&& 0 < first.len() <= items.len()
            &&& first == items.take(first.len() as int)
            &&& fits_chunk(first, chunk_size)
            &&& first.len() < items.len() ==> first.len() >= chunk_size
                && items[first.len() as int].ts_init != first.last().ts_init
        }),
    decreases items.len(),
{
    let first = first_chunk(items, chunk_size);
    if fits_chunk(items, chunk_size) {
        assert(items =~= items.take(items.len() as int));
    } else {
        let front = items.drop_last();
        lemma_first_chunk_cut(front, chunk_size);
        assert(first =~= items.take(first.len() as int));
        if first.len() == front.len() {
            assert(first =~= front);
            assert(items =~= front.push(items.last()));
            lemma_joins_iff_fits(front, items.last(), chunk_size);
            if front.len() > chunk_size {
                assert(front[front.len() - 1].ts_init == front[chunk_size - 1].ts_init);
            }
        } else {
            assert(items[first.len() as int] == front[first.len() as int]);
        }
    }
}

/// An item of a chunk is an item of the row that was cut.
proof fn lemma_chunk_of_row<T>(items: Seq<Data<T>>, chunk_size: usize, i: int, k: int) -> (at: int)
    requires
        chunk_size > 0,
        0 <= i < all_chunks(items, chunk_size).len(),
        0 <= k < all_chunks(items, chunk_size)[i].len(),
    ensures
        0 <= at < items.len(),
        items[at] == all_chunks(items, chunk_size)[i][k],
    decreases items.len(),
{
    if items.len() == 0 {
        assert(first_chunk(items, chunk_size).len() == 0);
        0
    } else {
        let first = first_chunk(items, chunk_size);
        lemma_first_chunk_cut(items, chunk_size);
        let rest = items.skip(first.len() as int);
        if i == 0 {
            k
        } else {
            let at = lemma_chunk_of_row(rest, chunk_size, i - 1, k);
            at + first.len()
        }
    }
}

/// A row of items is cut into chunks that hold it whole and in order, none of them empty,
/// and into no more than its length over `chunk_size`, rounded up.
pub proof fn law_row_is_cut_into_few_chunks<T>(items: Seq<Data<T>>, chunk_size: usize)
    requires
        chunk_size > 0,
    ensures
        all_chunks(items, chunk_size).flatten() == items,
        forall|i: int|
            0 <= i < all_chunks(items, chunk_size).len() ==> (#[trigger] all_chunks(
                items,
                chunk_size,
            )[i]).len() > 0,
        all_chunks(items, chunk_size).len() > 0 ==> (all_chunks(items, chunk_size).len() - 1)
            * chunk_size < items.len(),
        all_chunks(items, chunk_size).len() <= chunk_limit(items.len(), chunk_size),
    decreases items.len(),
{
    let chunks = all_chunks(items, chunk_size);
    let size = chunk_size as int;
    if items.len() == 0 {
        assert(first_chunk(items, chunk_size).len() == 0);
        assert(chunks.flatten() =~= items);
    } else {
        let first = first_chunk(items, chunk_size);
        lemma_first_chunk_cut(items, chunk_size);
        let rest = items.skip(first.len() as int);
        let others = all_chunks(rest, chunk_size);
        law_row_is_cut_into_few_chunks(rest, chunk_size);
        assert(chunks == seq![first] + others);
        assert(chunks.drop_first() =~= others);
        assert(chunks.first() == first);
        assert(items =~= first + rest);
        let m = others.len() as int;
        if rest.len() == 0 {
            assert(first_chunk(rest, chunk_size).len() == 0);
            assert((chunks.len() - 1) * size == 0) by (nonlinear_arith)
                requires
                    chunks.len() == 1,
            ;
        } else {
            lemma_first_chunk_cut(rest, chunk_size);
            assert(m * size == (m - 1) * size + size) by (nonlinear_arith);
            assert(chunks.len() - 1 == m);
        }
    }
    lemma_chunk_limit(chunks.len() as int, items.len(), chunk_size);
}

/// Where a row stands in the order of time, all items of one time are in one chunk: every
/// item of a chunk is earlier than every item of one behind it.
pub proof fn law_row_keeps_times_together<T>(
    items: Seq<Data<T>>,
    chunk_size: usize,
    i: int,
    j: int,
    k: int,
    m: int,
)
    requires
        chunk_size > 0,
        is_sorted(items),
        0 <= i < j < all_chunks(items, chunk_size).len(),
        0 <= k < all_chunks(items, chunk_size)[i].len(),
        0 <= m < all_chunks(items, chunk_size)[j].len(),
    ensures
        all_chunks(items, chunk_size)[i][k].ts_init < all_chunks(items, chunk_size)[j][m].ts_init,
    decreases items.len(),
{
    let chunks = all_chunks(items, chunk_size);
    let first = first_chunk(items, chunk_size);
    if items.len() > 0 {
        lemma_first_chunk_cut(items, chunk_size);
        let rest = items.skip(first.len() as int);
        let others = all_chunks(rest, chunk_size);
        assert(chunks == seq![first] + others);
        assert(is_sorted(rest));
        if i > 0 {
            assert(chunks[i] == others[i - 1]);
            assert(chunks[j] == others[j - 1]);
            law_row_keeps_times_together(rest, chunk_size, i - 1, j - 1, k, m);
        } else {
            assert(chunks[j] == others[j - 1]);
            let at = lemma_chunk_of_row(rest, chunk_size, j - 1, m);
            let end = first.len() - 1;
            assert(first[k] == items[k] && first[end] == items[end]);
            assert(rest[at] == items[at + first.len()]);
            assert(items[k].ts_init <= items[end].ts_init);
            assert(items[end].ts_init <= items[end + 1].ts_init);
            assert(items[end + 1].ts_init <= items[at + first.len()].ts_init);
        }
    } else {
        assert(first_chunk(items, chunk_size).len() == 0);
    }
}

} // verus!
