//! What holds of every stream, however long it is and whatever it hands out.
use crate::chunk::{
    all_chunks, chunk_limit, first_chunk, fits_chunk, joins_chunk, lemma_chunk_limit,
    lemma_first_chunk,
};
use crate::config::BacktestRunConfig;
use crate::data::{earliest, is_sorted, latest, lemma_earliest, lemma_latest, Data};
use crate::report::Warning;
use crate::step::{step_reply, ActionView, StepEvent};
use crate::stream::{
    boundary_after, chunk_reports, chunked_items, stream_accepts, stream_rule, StreamOrder, StreamState, Window,
};
use crate::time::{in_window, UnixNanos};
use vstd::prelude::*;

verus! {

/// The items that the engine was given, in the order in which it was given them.
pub open spec fn handed_items<T>(windows: Seq<Window<T>>) -> Seq<Data<T>>
    decreases windows.len(),
{
    if windows.len() == 0 {
        Seq::empty()
    } else {
        handed_items(windows.drop_last()) + windows.last().handed
    }
}

/// The chunks that were handed over.
pub open spec fn chunk_list<T>(windows: Seq<Window<T>>) -> Seq<Seq<Data<T>>> {
    windows.map_values(|window: Window<T>| window.chunk)
}

/// Where the items of a chunk stand among all that were pulled.
pub proof fn lemma_chunk_position<T>(windows: Seq<Window<T>>, i: int, j: int)
    requires
        0 <= i < windows.len(),
        0 <= j < windows[i].chunk.len(),
    ensures
        ({
            let at = chunked_items(windows.take(i)).len() + j;
            0 <= at < chunked_items(windows).len() && chunked_items(windows)[at]
                == windows[i].chunk[j]
        }),
    decreases windows.len(),
{
    let front = windows.drop_last();
    if i < front.len() {
        lemma_chunk_position(front, i, j);
        assert(front.take(i) =~= windows.take(i));
    } else {
        assert(windows.take(i) =~= front);
    }
}

/// The chunks up to one hold as many items as those ahead of it and itself.
proof fn lemma_chunk_lengths<T>(windows: Seq<Window<T>>, i: int)
    requires
        0 <= i < windows.len(),
    ensures
        chunked_items(windows.take(i + 1)).len() == chunked_items(windows.take(i)).len()
            + windows[i].chunk.len(),
{
    assert(windows.take(i + 1).drop_last() =~= windows.take(i));
}

/// The items of several chunks are those of the first and then those of the others.
proof fn lemma_chunks_from_front<T>(windows: Seq<Window<T>>)
    requires
        windows.len() > 0,
    ensures
        chunked_items(windows) == windows[0].chunk + chunked_items(windows.skip(1)),
    decreases windows.len(),
{
    if windows.len() == 1 {
        assert(windows.drop_last() =~= Seq::empty());
        assert(windows.skip(1) =~= Seq::empty());
        assert(chunked_items(windows) =~= windows[0].chunk + chunked_items(windows.skip(1)));
    } else {
        let front = windows.drop_last();
        lemma_chunks_from_front(front);
        assert(windows.skip(1).drop_last() =~= front.skip(1));
        assert(chunked_items(windows) =~= windows[0].chunk + chunked_items(windows.skip(1)));
    }
}

/// A stream loses nothing: when the engine is told to end the run, the chunks that it was
/// given hold every item that was pulled, and nothing else. Where order is kept, they hold
/// the items in the order in which they were pulled.
pub proof fn law_stream_loses_nothing<T>(
    order: StreamOrder,
    config: BacktestRunConfig,
    chunk_size: usize,
    state: StreamState<T>,
)
    requires
        state.wf(order, config, chunk_size),
        state.phase is Ending,
        chunk_size > 0,
    ensures
        chunked_items(state.windows@) == state.pulled@,
        order is Kept ==> handed_items(state.windows@) == state.pulled@,
        handed_items(state.windows@).to_multiset() == state.pulled@.to_multiset(),
{
    assert(state.pulled@ =~= chunked_items(state.windows@));
    assert forall|i: int| 0 <= i < state.windows@.len() implies {
        let window = #[trigger] state.windows@[i];
        &&& order is Kept ==> window.handed == window.chunk
        &&& window.handed.to_multiset() == window.chunk.to_multiset()
    } by {
        assert(state.window_ok(order, config, chunk_size, i));
    }
    lemma_handed(order, state.windows@);
}

/// Chunks that were each handed over whole were handed over whole together.
proof fn lemma_handed<T>(order: StreamOrder, windows: Seq<Window<T>>)
    requires
        forall|i: int|
            0 <= i < windows.len() ==> {
                let window = #[trigger] windows[i];
                &&& order is Kept ==> window.handed == window.chunk
                &&& window.handed.to_multiset() == window.chunk.to_multiset()
            },
    ensures
        order is Kept ==> handed_items(windows) == chunked_items(windows),
        handed_items(windows).to_multiset() == chunked_items(windows).to_multiset(),
    decreases windows.len(),
{
    if windows.len() > 0 {
        let front = windows.drop_last();
        assert forall|i: int| 0 <= i < front.len() implies {
            let window = #[trigger] front[i];
            &&& order is Kept ==> window.handed == window.chunk
            &&& window.handed.to_multiset() == window.chunk.to_multiset()
        } by {
            assert(front[i] == windows[i]);
        }
        lemma_handed(order, front);
        assert(windows.last() == windows[windows.len() - 1]);
        vstd::seq_lib::lemma_multiset_commutative(handed_items(front), windows.last().handed);
        vstd::seq_lib::lemma_multiset_commutative(chunked_items(front), windows.last().chunk);
    }
}

/// When the engine is told to end the run, the chunks that it was given are those of the row
/// of items that was pulled: each the longest that may stand in one chunk.
pub proof fn law_stream_cut_into_all_chunks<T>(
    order: StreamOrder,
    config: BacktestRunConfig,
    chunk_size: usize,
    state: StreamState<T>,
)
    requires
        state.wf(order, config, chunk_size),
        state.phase is Ending,
        chunk_size > 0,
    ensures
        chunk_list(state.windows@) == all_chunks(state.pulled@, chunk_size),
{
    assert(state.pulled@ =~= chunked_items(state.windows@));
    let windows = state.windows@;
    assert forall|i: int| 0 <= i < windows.len() implies {
        &&& (#[trigger] windows[i]).chunk.len() > 0
        &&& fits_chunk(windows[i].chunk, chunk_size)
        &&& i + 1 < windows.len() ==> !joins_chunk(
            windows[i].chunk,
            windows[i + 1].chunk[0],
            chunk_size,
        )
    } by {
        assert(state.window_ok(order, config, chunk_size, i));
    }
    lemma_cut(windows, chunk_size);
}

/// Chunks that are each as long as can be are all chunks of their items.
proof fn lemma_cut<T>(windows: Seq<Window<T>>, chunk_size: usize)
    requires
        forall|i: int|
            0 <= i < windows.len() ==> {
                &&& (#[trigger] windows[i]).chunk.len() > 0
                &&& fits_chunk(windows[i].chunk, chunk_size)
                &&& i + 1 < windows.len() ==> !joins_chunk(
                    windows[i].chunk,
                    windows[i + 1].chunk[0],
                    chunk_size,
                )
            },
    ensures
        chunk_list(windows) == all_chunks(chunked_items(windows), chunk_size),
    decreases windows.len(),
{
    if windows.len() == 0 {
        assert(chunk_list(windows) =~= all_chunks(chunked_items(windows), chunk_size));
    } else {
        let others = windows.skip(1);
        let rest = chunked_items(others);
        let items = chunked_items(windows);
        assert forall|i: int| 0 <= i < others.len() implies {
            &&& (#[trigger] others[i]).chunk.len() > 0
            &&& fits_chunk(others[i].chunk, chunk_size)
            &&& i + 1 < others.len() ==> !joins_chunk(
                others[i].chunk,
                others[i + 1].chunk[0],
                chunk_size,
            )
        } by {
            assert(others[i] == windows[i + 1]);
            if i + 1 < others.len() {
                assert(others[i + 1] == windows[i + 2]);
            }
        }
        lemma_cut(others, chunk_size);
        lemma_chunks_from_front(windows);
        assert(windows[0].chunk.len() > 0);
        if others.len() > 0 {
            lemma_chunks_from_front(others);
            assert(others[0] == windows[1]);
            assert(others[0].chunk.len() > 0);
            assert(rest[0] == windows[1].chunk[0]);
        }
        lemma_first_chunk(windows[0].chunk, rest, chunk_size);
        assert(first_chunk(items, chunk_size) == windows[0].chunk);
        assert(items.skip(windows[0].chunk.len() as int) =~= rest);
        assert(chunk_list(windows) =~= seq![windows[0].chunk] + chunk_list(others));
    }
}

/// A chunk that is not the last holds at least `chunk_size` items, and the chunk behind it
/// begins with an item of another time than that with which it ends.
pub proof fn law_chunks_are_aligned<T>(
    order: StreamOrder,
    config: BacktestRunConfig,
    chunk_size: usize,
    state: StreamState<T>,
    i: int,
)
    requires
        state.wf(order, config, chunk_size),
        0 <= i < state.windows@.len() - 1,
    ensures
        state.windows@[i].chunk.len() >= chunk_size,
        state.windows@[i].chunk.last().ts_init != state.windows@[i + 1].chunk[0].ts_init,
{
    assert(state.window_ok(order, config, chunk_size, i));
    let chunk = state.windows@[i].chunk;
    if chunk.len() > chunk_size {
        assert(chunk[chunk.len() - 1].ts_init == chunk[chunk_size - 1].ts_init);
    }
}

/// Chunks that are all full hold at least as many items as they may.
proof fn lemma_full_chunks<T>(
    order: StreamOrder,
    config: BacktestRunConfig,
    chunk_size: usize,
    state: StreamState<T>,
    i: int,
)
    requires
        state.wf(order, config, chunk_size),
        0 <= i < state.windows@.len(),
    ensures
        chunked_items(state.windows@.take(i)).len() >= i * chunk_size,
    decreases i,
{
    let size = chunk_size as int;
    if i > 0 {
        lemma_full_chunks(order, config, chunk_size, state, i - 1);
        lemma_chunk_lengths(state.windows@, i - 1);
        law_chunks_are_aligned(order, config, chunk_size, state, i - 1);
        assert(i * size == (i - 1) * size + size) by (nonlinear_arith);
    } else {
        assert(i * size == 0) by (nonlinear_arith)
            requires
                i == 0,
        ;
    }
}

/// The chunks that were handed over are no more than the items that were pulled over
/// `chunk_size`, rounded up.
pub proof fn law_stream_has_few_chunks<T>(
    order: StreamOrder,
    config: BacktestRunConfig,
    chunk_size: usize,
    state: StreamState<T>,
)
    requires
        state.wf(order, config, chunk_size),
        chunk_size > 0,
    ensures
        state.windows@.len() <= chunk_limit(state.pulled@.len(), chunk_size),
{
    let windows = state.windows@;
    let n = windows.len() as int;
    if n > 0 {
        lemma_full_chunks(order, config, chunk_size, state, n - 1);
        lemma_chunk_lengths(windows, n - 1);
        assert(windows.take(n) =~= windows);
        assert(state.window_ok(order, config, chunk_size, n - 1));
    }
    lemma_chunk_limit(n, state.pulled@.len(), chunk_size);
}

/// A stream that comes in the order of time never has items of one time in two chunks.
pub proof fn law_no_time_in_two_chunks<T>(
    order: StreamOrder,
    config: BacktestRunConfig,
    chunk_size: usize,
    state: StreamState<T>,
    i: int,
    j: int,
    k: int,
    m: int,
)
    requires
        state.wf(order, config, chunk_size),
        is_sorted(state.pulled@),
        0 <= i < j < state.windows@.len(),
        0 <= k < state.windows@[i].chunk.len(),
        0 <= m < state.windows@[j].chunk.len(),
    ensures
        state.windows@[i].chunk[k].ts_init < state.windows@[j].chunk[m].ts_init,
{
    let windows = state.windows@;
    let items = chunked_items(windows);
    assert(is_sorted(items)) by {
        assert forall|a: int, b: int| 0 <= a <= b < items.len() implies items[a].ts_init
            <= items[b].ts_init by {
            assert(state.pulled@[a] == items[a]);
            assert(state.pulled@[b] == items[b]);
        }
    }
    law_chunks_are_aligned(order, config, chunk_size, state, i);
    assert(state.window_ok(order, config, chunk_size, i));
    assert(state.window_ok(order, config, chunk_size, i + 1));
    let end = windows[i].chunk.len() - 1;
    lemma_chunk_position(windows, i, k);
    lemma_chunk_position(windows, i, end);
    lemma_chunk_position(windows, i + 1, 0);
    lemma_chunk_position(windows, j, m);
    lemma_chunk_lengths(windows, i);
    lemma_chunk_order(windows, i + 1, j);
}

/// Chunks further back begin at or behind those ahead of them.
proof fn lemma_chunk_order<T>(windows: Seq<Window<T>>, i: int, j: int)
    requires
        0 <= i <= j <= windows.len(),
    ensures
        chunked_items(windows.take(i)).len() <= chunked_items(windows.take(j)).len(),
    decreases j - i,
{
    if i < j {
        lemma_chunk_order(windows, i, j - 1);
        lemma_chunk_lengths(windows, j - 1);
    }
}

/// Where order is kept, the runs of the engine follow on each other without gap or overlap:
/// the first starts with the run, each other where the one ahead of it stopped, and the one
/// over the last chunk ends with the run.
pub proof fn law_kept_windows_follow_on<T>(
    config: BacktestRunConfig,
    chunk_size: usize,
    state: StreamState<T>,
    i: int,
)
    requires
        state.wf(StreamOrder::Kept, config, chunk_size),
        0 <= i < state.windows@.len(),
    ensures
        state.windows@[i].start == if i == 0 {
            config.start
        } else {
            state.windows@[i - 1].end
        },
        state.windows@[i].end == if state.windows@[i].last {
            config.end
        } else {
            Some(state.windows@[i].chunk.last().ts_init)
        },
{
    assert(state.window_ok(StreamOrder::Kept, config, chunk_size, i));
    if i > 0 {
        assert(state.windows@.take(i).last() == state.windows@[i - 1]);
    }
}

/// The boundary that the engine was run to never goes back.
pub proof fn law_boundary_never_goes_back<T>(windows: Seq<Window<T>>, i: int, j: int)
    requires
        0 <= i <= j <= windows.len(),
        boundary_after(StreamOrder::Restored, windows.take(i)) is Some,
    ensures
        boundary_after(StreamOrder::Restored, windows.take(j)) is Some,
        boundary_after(StreamOrder::Restored, windows.take(i))->0 <= boundary_after(
            StreamOrder::Restored,
            windows.take(j),
        )->0,
    decreases j - i,
{
    if i < j {
        law_boundary_never_goes_back(windows, i, j - 1);
        assert(windows.take(j).drop_last() =~= windows.take(j - 1));
    }
}

/// The items of a chunk are among those that were pulled.
proof fn lemma_chunk_pulled<T>(
    order: StreamOrder,
    config: BacktestRunConfig,
    chunk_size: usize,
    state: StreamState<T>,
    i: int,
)
    requires
        state.wf(order, config, chunk_size),
        0 <= i < state.windows@.len(),
        forall|k: int|
            0 <= k < state.pulled@.len() ==> in_window(
                (#[trigger] state.pulled@[k]).ts_init as int,
                config.start,
                config.end,
            ),
    ensures
        forall|j: int|
            0 <= j < state.windows@[i].chunk.len() ==> in_window(
                (#[trigger] state.windows@[i].chunk[j]).ts_init as int,
                config.start,
                config.end,
            ),
{
    assert forall|j: int| 0 <= j < state.windows@[i].chunk.len() implies in_window(
        (#[trigger] state.windows@[i].chunk[j]).ts_init as int,
        config.start,
        config.end,
    ) by {
        lemma_chunk_position(state.windows@, i, j);
        let at = chunked_items(state.windows@.take(i)).len() + j;
        assert(state.pulled@[at] == state.windows@[i].chunk[j]);
    }
}

/// Where order is restored and every item lies within the run, the boundary does too.
proof fn lemma_boundary_within_run<T>(
    config: BacktestRunConfig,
    chunk_size: usize,
    state: StreamState<T>,
    i: int,
)
    requires
        state.wf(StreamOrder::Restored, config, chunk_size),
        0 <= i <= state.windows@.len(),
        forall|k: int|
            0 <= k < state.pulled@.len() ==> in_window(
                (#[trigger] state.pulled@[k]).ts_init as int,
                config.start,
                config.end,
            ),
    ensures
        boundary_after(StreamOrder::Restored, state.windows@.take(i)) matches Some(boundary)
            ==> (config.end matches Some(end) ==> boundary <= end),
        i > 0 ==> boundary_after(StreamOrder::Restored, state.windows@.take(i)) is Some,
    decreases i,
{
    if i > 0 {
        lemma_boundary_within_run(config, chunk_size, state, i - 1);
        assert(state.windows@.take(i).drop_last() =~= state.windows@.take(i - 1));
        assert(state.window_ok(StreamOrder::Restored, config, chunk_size, i - 1));
        lemma_chunk_pulled(StreamOrder::Restored, config, chunk_size, state, i - 1);
        lemma_latest(state.windows@[i - 1].chunk);
    }
}

/// Where order is restored and every item lies within the run, the engine is never run with
/// a start behind the end, however the items are shuffled.
pub proof fn law_restored_windows_never_run_backward<T>(
    config: BacktestRunConfig,
    chunk_size: usize,
    state: StreamState<T>,
    i: int,
)
    requires
        state.wf(StreamOrder::Restored, config, chunk_size),
        0 <= i < state.windows@.len(),
        forall|k: int|
            0 <= k < state.pulled@.len() ==> in_window(
                (#[trigger] state.pulled@[k]).ts_init as int,
                config.start,
                config.end,
            ),
    ensures
        state.windows@[i].end is Some,
        state.windows@[i].start matches Some(start) ==> start <= state.windows@[i].end->0,
        i > 0 ==> state.windows@[i].start is Some,
{
    assert(state.window_ok(StreamOrder::Restored, config, chunk_size, i));
    lemma_chunk_pulled(StreamOrder::Restored, config, chunk_size, state, i);
    lemma_boundary_within_run(config, chunk_size, state, i);
    let chunk = state.windows@[i].chunk;
    lemma_latest(chunk);
    lemma_earliest(chunk);
    assert(in_window(chunk[0].ts_init as int, config.start, config.end));
    let k = choose|k: int| 0 <= k < chunk.len() && chunk[k].ts_init == latest(chunk);
    assert(in_window(chunk[k].ts_init as int, config.start, config.end));
}

/// Where order is restored, no run of the engine but the first starts behind its end, unless
/// it is to end with the run: whatever the stream hands out, and however it is shuffled.
pub proof fn law_restored_windows_go_up_to_their_chunk<T>(
    config: BacktestRunConfig,
    chunk_size: usize,
    state: StreamState<T>,
    i: int,
)
    requires
        state.wf(StreamOrder::Restored, config, chunk_size),
        0 < i < state.windows@.len(),
        !(state.windows@[i].last && config.end is Some),
    ensures
        state.windows@[i].start is Some,
        state.windows@[i].end is Some,
        state.windows@[i].start->0 <= state.windows@[i].end->0,
{
    assert(state.window_ok(StreamOrder::Restored, config, chunk_size, i));
    assert(state.window_ok(StreamOrder::Restored, config, chunk_size, i - 1));
    assert(state.windows@.take(i).last() == state.windows@[i - 1]);
    lemma_latest(state.windows@[i].chunk);
    lemma_earliest(state.windows@[i].chunk);
}

/// Where order is restored, a chunk is reported exactly when some item of it lies before the
/// boundary, and its start is clamped exactly when all of them do.
pub proof fn law_chunk_reported_iff_behind<T>(
    boundary: UnixNanos,
    chunk_index: usize,
    chunk: Seq<Data<T>>,
)
    requires
        chunk.len() > 0,
    ensures
        ({
            let reports = chunk_reports(
                StreamOrder::Restored,
                Some(boundary),
                chunk_index,
                chunk,
            );
            &&& reports.len() > 0 <==> exists|i: int|
                0 <= i < chunk.len() && (#[trigger] chunk[i]).ts_init < boundary
            &&& reports.len() > 1 <==> forall|i: int|
                0 <= i < chunk.len() ==> (#[trigger] chunk[i]).ts_init < boundary
        }),
{
    lemma_earliest(chunk);
    lemma_latest(chunk);
    let first = choose|i: int| 0 <= i < chunk.len() && chunk[i].ts_init == earliest(chunk);
    let last = choose|i: int| 0 <= i < chunk.len() && chunk[i].ts_init == latest(chunk);
    assert(chunk[first].ts_init == earliest(chunk));
    assert(chunk[last].ts_init == latest(chunk));
}

/// Once the engine has been asked to shut down, the stream is over: nothing more is handed
/// to the engine, and it is not told to end a run that it has ended itself.
pub proof fn law_shutdown_ends_the_stream<T>(
    order: StreamOrder,
    config: BacktestRunConfig,
    chunk_size: usize,
    before: StreamState<T>,
    after: StreamState<T>,
    warnings: Seq<Warning>,
    action: ActionView<T>,
    event: StepEvent<T>,
)
    requires
        before.phase is Running,
        stream_rule(
            order,
            config,
            chunk_size,
            before,
            StepEvent::Ran { shutdown: true },
            after,
            warnings,
            action,
        ),
    ensures
        action == ActionView::<T>::Complete(Ok(())),
        after.windows@ == before.windows@,
        !stream_accepts(after.phase, event),
{
}

/// Whatever a stream asks for, it takes every reply to that, and nothing else.
pub proof fn law_stream_takes_every_reply<T>(
    order: StreamOrder,
    config: BacktestRunConfig,
    chunk_size: usize,
    before: StreamState<T>,
    event: StepEvent<T>,
    after: StreamState<T>,
    warnings: Seq<Warning>,
    action: ActionView<T>,
    reply: StepEvent<T>,
)
    requires
        stream_rule(order, config, chunk_size, before, event, after, warnings, action),
    ensures
        stream_accepts(after.phase, reply) <==> step_reply(action, reply),
{
    if let ActionView::Engine(calls) = action {
        if after.phase is Running {
            assert(calls[0] is AddData);
        }
    }
}

/// A stream is over without a failure only once the engine was told to end the run, with
/// every item that was pulled handed to it, or was asked to shut down.
pub proof fn law_stream_completes_once_ended<T>(
    order: StreamOrder,
    config: BacktestRunConfig,
    chunk_size: usize,
    before: StreamState<T>,
    event: StepEvent<T>,
    after: StreamState<T>,
    warnings: Seq<Warning>,
    action: ActionView<T>,
)
    requires
        before.wf(order, config, chunk_size),
        stream_accepts(before.phase, event),
        stream_rule(order, config, chunk_size, before, event, after, warnings, action),
        action == ActionView::<T>::Complete(Ok(())),
        chunk_size > 0,
    ensures
        before.phase is Ending || event == (StepEvent::<T>::Ran { shutdown: true }),
        before.phase is Ending ==> chunked_items(after.windows@) == after.pulled@,
{
    if before.phase is Ending {
        law_stream_loses_nothing(order, config, chunk_size, before);
    }
}

/// Where order is kept, and the items come in the order of time and lie within the run, the
/// engine is never run with a start behind the end.
pub proof fn law_kept_windows_never_run_backward<T>(
    config: BacktestRunConfig,
    chunk_size: usize,
    state: StreamState<T>,
    i: int,
)
    requires
        state.wf(StreamOrder::Kept, config, chunk_size),
        0 <= i < state.windows@.len(),
        is_sorted(state.pulled@),
        forall|k: int|
            0 <= k < state.pulled@.len() ==> in_window(
                (#[trigger] state.pulled@[k]).ts_init as int,
                config.start,
                config.end,
            ),
    ensures
        (state.windows@[i].start is Some && state.windows@[i].end is Some)
            ==> state.windows@[i].start->0 <= state.windows@[i].end->0,
{
    let windows = state.windows@;
    law_kept_windows_follow_on(config, chunk_size, state, i);
    assert(state.window_ok(StreamOrder::Kept, config, chunk_size, i));
    lemma_chunk_pulled(StreamOrder::Kept, config, chunk_size, state, i);
    assert(in_window(windows[i].chunk.last().ts_init as int, config.start, config.end));
    if i > 0 {
        law_kept_windows_follow_on(config, chunk_size, state, i - 1);
        assert(state.window_ok(StreamOrder::Kept, config, chunk_size, i - 1));
        lemma_chunk_pulled(StreamOrder::Kept, config, chunk_size, state, i - 1);
        assert(in_window(windows[i - 1].chunk.last().ts_init as int, config.start, config.end));
        law_no_time_in_two_chunks(
            StreamOrder::Kept,
            config,
            chunk_size,
            state,
            i - 1,
            i,
            windows[i - 1].chunk.len() - 1,
            windows[i].chunk.len() - 1,
        );
    }
}

} // verus!
