//! What holds of everything that an engine is fed in chunks, told by the items that were
//! pulled and by the calls that were asked for.
use crate::chunk::joins_chunk;
use crate::config::BacktestRunConfig;
use crate::data::{
    at_time, earliest, latest, lemma_earliest, lemma_latest, lemma_sort_begins_earliest,
    lemma_sort_ends_latest, Data,
};
use crate::error::NodeError;
use crate::load_laws::{law_order_is_restored_for_one_backend, one_backend, StepTrace};
use crate::order_laws::StreamTrace;
use crate::report::Warning;
use crate::step::{ActionView, CallView, StepEvent};
use crate::stream::{
    boundary_after, chunk_reports, chunked_items, window_calls, window_planned, StreamOrder,
    StreamState, Window,
};
use crate::stream_laws::{law_chunks_are_aligned, lemma_chunk_position};
use crate::streaming::{event_report, StreamingState};
use crate::time::UnixNanos;
use vstd::prelude::*;

verus! {

/// The items that were pulled.
pub open spec fn items_of<T>(events: Seq<StepEvent<T>>) -> Seq<Data<T>>
    decreases events.len(),
{
    if events.len() == 0 {
        Seq::empty()
    } else {
        match events.last() {
            StepEvent::Item(Some(item)) => items_of(events.drop_last()).push(item),
            _ => items_of(events.drop_last()),
        }
    }
}

/// The items of one time, in the order in which they stand.
pub open spec fn of_time<T>(items: Seq<Data<T>>, time: UnixNanos) -> Seq<Data<T>> {
    items.filter(|item: Data<T>| item.ts_init == time)
}

/// The rows of engine calls that were asked for, but for the single call that ends a run.
pub open spec fn fed_of<T>(actions: Seq<ActionView<T>>) -> Seq<Seq<CallView<T>>>
    decreases actions.len(),
{
    if actions.len() == 0 {
        Seq::empty()
    } else {
        match actions.last() {
            ActionView::Engine(calls) if calls.len() > 1 => fed_of(actions.drop_last()).push(calls),
            _ => fed_of(actions.drop_last()),
        }
    }
}

/// The data that a row of engine calls hands over.
pub open spec fn data_fed<T>(calls: Seq<CallView<T>>) -> Seq<Data<T>> {
    calls[0]->AddData_data
}

/// Where a row of engine calls starts the engine.
pub open spec fn run_start<T>(calls: Seq<CallView<T>>) -> Option<UnixNanos> {
    calls[1]->Run_start
}

/// Where a row of engine calls stops the engine.
pub open spec fn run_end<T>(calls: Seq<CallView<T>>) -> Option<UnixNanos> {
    calls[1]->Run_end
}

/// How many items several rows of engine calls hand over.
pub open spec fn fed_length<T>(fed: Seq<Seq<CallView<T>>>) -> int
    decreases fed.len(),
{
    if fed.len() == 0 {
        0
    } else {
        fed_length(fed.drop_last()) + data_fed(fed.last()).len()
    }
}

/// The latest time that several rows of engine calls stop the engine at.
pub open spec fn reached<T>(fed: Seq<Seq<CallView<T>>>) -> Option<UnixNanos>
    decreases fed.len(),
{
    if fed.len() == 0 {
        None
    } else {
        match (reached(fed.drop_last()), run_end(fed.last())) {
            (Some(before), Some(end)) => if before < end {
                Some(end)
            } else {
                Some(before)
            },
            (None, end) => end,
            (before, None) => before,
        }
    }
}

impl<T> StreamTrace<T> {
    /// Whether these are steps of a stream from which nothing was pulled yet.
    pub open spec fn feeds(
        self,
        order: StreamOrder,
        config: BacktestRunConfig,
        chunk_size: usize,
    ) -> bool {
        &&& self.states.len() == self.events.len() + 1
        &&& self.warnings.len() == self.events.len()
        &&& self.actions.len() == self.events.len()
        &&& self.states[0].phase is Begin || self.states[0].phase is Pulling
        &&& self.states[0].wf(order, config, chunk_size)
        &&& self.states[0].pulled@.len() == 0
        &&& self.states[0].windows@.len() == 0
        &&& forall|i: int|
            0 <= i < self.events.len() ==> #[trigger] self.step_taken(order, config, chunk_size, i)
    }
}

/// The steps of a run in chunks between two positions, as steps of its stream.
pub open spec fn stream_steps<T>(
    trace: StepTrace<StreamingState<T>, T>,
    a: int,
    b: int,
) -> StreamTrace<T> {
    StreamTrace {
        states: Seq::new((b - a + 1) as nat, |i: int| trace.states[a + i]->stream),
        events: trace.events.subrange(a, b),
        warnings: Seq::new(
            (b - a) as nat,
            |i: int|
                match event_report(
                    trace.states[a + i].order(),
                    trace.states[a + i]->stream.pulled@,
                    trace.events[a + i],
                ) {
                    None => trace.warnings[a + i],
                    Some(_) => trace.warnings[a + i].skip(1),
                },
        ),
        actions: Seq::new((b - a) as nat, |i: int| trace.actions[a + i]@),
    }
}

/// Once the stream of a run in chunks is open, all further steps of the run are steps of that
/// stream, whose order is kept for one data config and for several backends, and restored for
/// several data configs of one backend.
pub proof fn law_streaming_feeds_its_stream<T>(
    config: BacktestRunConfig,
    chunk_size: usize,
    trace: StepTrace<StreamingState<T>, T>,
    a: int,
    b: int,
)
    requires
        trace.streams(config, chunk_size),
        0 < a <= b <= trace.events.len(),
        trace.events[a - 1] is Opened,
    ensures
        forall|i: int| a <= i <= b ==> trace.states[i] is Streaming,
        stream_steps(trace, a, b).feeds(trace.states[a].order(), config, chunk_size),
        trace.states[a].order() is Restored <==> config.data@.len() > 1 && one_backend(config),
    decreases b - a,
{
    assert(trace.streaming_step(config, chunk_size, a - 1));
    law_order_is_restored_for_one_backend(config, chunk_size, trace, a);
    let part = stream_steps(trace, a, b);
    let order = trace.states[a].order();
    if a < b {
        law_streaming_feeds_its_stream(config, chunk_size, trace, a, b - 1);
        let front = stream_steps(trace, a, b - 1);
        assert(trace.streaming_step(config, chunk_size, b - 1));
        assert forall|i: int| 0 <= i < part.events.len() implies #[trigger] part.step_taken(
            order,
            config,
            chunk_size,
            i,
        ) by {
            lemma_order_stays(config, chunk_size, trace, a, a + i);
            assert(trace.streaming_step(config, chunk_size, a + i));
            if i < front.events.len() {
                assert(front.step_taken(order, config, chunk_size, i));
            } else {
                lemma_order_stays(config, chunk_size, trace, a, b - 1);
            }
        }
        assert forall|i: int| a <= i <= b implies trace.states[i] is Streaming by {
            if i == b {
                assert(trace.states[b - 1] is Streaming);
            }
        }
    }
}

/// The order of a stream stays what it is.
proof fn lemma_order_stays<T>(
    config: BacktestRunConfig,
    chunk_size: usize,
    trace: StepTrace<StreamingState<T>, T>,
    a: int,
    k: int,
)
    requires
        trace.streams(config, chunk_size),
        0 < a <= k <= trace.events.len(),
        trace.events[a - 1] is Opened,
    ensures
        trace.states[k] is Streaming,
        trace.states[k].order() == trace.states[a].order(),
    decreases k - a,
{
    assert(trace.streaming_step(config, chunk_size, a - 1));
    if a < k {
        lemma_order_stays(config, chunk_size, trace, a, k - 1);
        assert(trace.streaming_step(config, chunk_size, k - 1));
    }
}

/// Which items were pulled, and what the engine was fed, after some steps.
pub proof fn lemma_fed_so_far<T>(
    order: StreamOrder,
    config: BacktestRunConfig,
    chunk_size: usize,
    trace: StreamTrace<T>,
    k: int,
)
    requires
        trace.feeds(order, config, chunk_size),
        0 <= k <= trace.events.len(),
    ensures
        ({
            let state = trace.states[k];
            let fed = fed_of(trace.actions.take(k));
            &&& state.wf(order, config, chunk_size)
            &&& items_of(trace.events.take(k)) == state.pulled@
            &&& fed.len() == state.windows@.len()
            &&& forall|i: int|
                0 <= i < fed.len() ==> #[trigger] fed[i] == window_calls(config, state.windows@[i])
            &&& state.phase is Ending && chunk_size > 0 && fed.len() > 0
                ==> state.windows@.last().last
        }),
    decreases k,
{
    if k == 0 {
        assert(trace.actions.take(0) =~= Seq::empty());
        assert(trace.events.take(0) =~= Seq::empty());
        assert(trace.states[0].pulled@ =~= Seq::empty());
    } else {
        let i = k - 1;
        lemma_fed_so_far(order, config, chunk_size, trace, i);
        assert(trace.step_taken(order, config, chunk_size, i));
        assert(trace.actions.take(k).drop_last() =~= trace.actions.take(i));
        assert(trace.events.take(k).drop_last() =~= trace.events.take(i));
        let before = trace.states[i];
        let after = trace.states[k];
        let n = before.windows@.len() as int;
        if n > 0 {
            assert(before.window_ok(order, config, chunk_size, n - 1));
        }
        if after.windows@.len() > n {
            assert(after.windows@.last() == after.windows@[n]);
            let calls = window_calls(config, after.windows@[n]);
            assert(trace.actions[i] == ActionView::Engine(calls));
        }
    }
}

/// Whatever an engine is fed, it is handed data without validation and to be sorted, run in
/// streaming under the ID of the run, and made to drop the data again.
pub proof fn law_chunks_are_fed_alike<T>(
    order: StreamOrder,
    config: BacktestRunConfig,
    chunk_size: usize,
    trace: StreamTrace<T>,
    i: int,
)
    requires
        trace.feeds(order, config, chunk_size),
        0 <= i < fed_of(trace.actions).len(),
    ensures
        ({
            let calls = fed_of(trace.actions)[i];
            &&& calls.len() == 3
            &&& calls[0] == (CallView::AddData {
                data: data_fed(calls),
                client_id: None,
                validate: false,
                sort: true,
            })
            &&& calls[1] == (CallView::<T>::Run {
                start: run_start(calls),
                end: run_end(calls),
                run_id: Some(config.id),
                streaming: true,
            })
            &&& calls[2] == CallView::<T>::ClearData
            &&& data_fed(calls).len() > 0
        }),
{
    let n = trace.events.len() as int;
    lemma_fed_so_far(order, config, chunk_size, trace, n);
    assert(trace.actions.take(n) =~= trace.actions);
    let state = trace.states[n];
    assert(state.window_ok(order, config, chunk_size, i));
    if order is Restored {
        lemma_sort_ends_latest(state.windows@[i].handed, state.windows@[i].chunk);
    }
}

/// Rows of engine calls hand over as many items as their chunks hold.
proof fn lemma_fed_length<T>(
    order: StreamOrder,
    config: BacktestRunConfig,
    chunk_size: usize,
    state: StreamState<T>,
    fed: Seq<Seq<CallView<T>>>,
    i: int,
)
    requires
        state.wf(order, config, chunk_size),
        fed.len() == state.windows@.len(),
        forall|j: int|
            0 <= j < fed.len() ==> #[trigger] fed[j] == window_calls(config, state.windows@[j]),
        0 <= i <= fed.len(),
    ensures
        fed_length(fed.take(i)) == chunked_items(state.windows@.take(i)).len(),
    decreases i,
{
    if i > 0 {
        lemma_fed_length(order, config, chunk_size, state, fed, i - 1);
        assert(fed.take(i).drop_last() =~= fed.take(i - 1));
        assert(state.windows@.take(i).drop_last() =~= state.windows@.take(i - 1));
        assert(state.window_ok(order, config, chunk_size, i - 1));
        if order is Restored {
            lemma_sort_ends_latest(state.windows@[i - 1].handed, state.windows@[i - 1].chunk);
        }
    }
}

/// The items of a chunk are the next ones that were pulled.
proof fn lemma_chunk_is_next<T>(state: StreamState<T>, i: int)
    requires
        0 <= i < state.windows@.len(),
        state.pulled@ == chunked_items(state.windows@) + state.gathered@,
    ensures
        ({
            let a = chunked_items(state.windows@.take(i)).len() as int;
            let chunk = state.windows@[i].chunk;
            &&& a + chunk.len() <= state.pulled@.len()
            &&& state.pulled@.subrange(a, a + chunk.len()) == chunk
        }),
{
    let windows = state.windows@;
    let a = chunked_items(windows.take(i)).len() as int;
    let chunk = windows[i].chunk;
    if chunk.len() > 0 {
        lemma_chunk_position(windows, i, chunk.len() - 1);
    } else {
        lemma_prefix_length(windows, i);
    }
    assert forall|j: int| 0 <= j < chunk.len() implies state.pulled@[a + j] == chunk[j] by {
        lemma_chunk_position(windows, i, j);
    }
    assert(state.pulled@.subrange(a, a + chunk.len()) =~= chunk);
}

/// Chunks ahead of one hold no more than all.
proof fn lemma_prefix_length<T>(windows: Seq<Window<T>>, i: int)
    requires
        0 <= i <= windows.len(),
    ensures
        chunked_items(windows.take(i)).len() <= chunked_items(windows).len(),
    decreases windows.len() - i,
{
    if i < windows.len() {
        lemma_prefix_length(windows, i + 1);
        assert(windows.take(i + 1).drop_last() =~= windows.take(i));
    } else {
        assert(windows.take(i) =~= windows);
    }
}

/// The chunk at each position is made of the next items that were pulled. Where order is kept
/// it is handed over as it is, and where order is restored in the order of time, with the
/// items of one time as they came. All of its items past the first `chunk_size` have the time
/// of the last of those; and unless it is the last chunk, it has at least so many, and the
/// item behind it has another time than its end.
pub proof fn law_chunks_are_the_stream<T>(
    order: StreamOrder,
    config: BacktestRunConfig,
    chunk_size: usize,
    trace: StreamTrace<T>,
    i: int,
)
    requires
        trace.feeds(order, config, chunk_size),
        chunk_size > 0,
        0 <= i < fed_of(trace.actions).len(),
    ensures
        ({
            let items = items_of(trace.events);
            let fed = fed_of(trace.actions);
            let data = data_fed(fed[i]);
            let a = fed_length(fed.take(i));
            let chunk = items.subrange(a, a + data.len());
            &&& 0 <= a && a + data.len() <= items.len()
            &&& order is Kept ==> data == chunk
            &&& order is Restored ==> {
                &&& forall|j: int, k: int|
                    #![trigger data[j], data[k]]
                    0 <= j <= k < data.len() ==> data[j].ts_init <= data[k].ts_init
                &&& forall|time: UnixNanos| #[trigger]
                    of_time(data, time) == of_time(chunk, time)
                &&& data.to_multiset() == chunk.to_multiset()
            }
            &&& forall|j: int|
                chunk_size <= j < chunk.len() ==> (#[trigger] chunk[j]).ts_init == chunk[chunk_size
                    - 1].ts_init
            &&& i + 1 < fed.len() ==> {
                &&& data.len() >= chunk_size
                &&& a + data.len() < items.len()
                &&& items[a + data.len()].ts_init != items[a + data.len() - 1].ts_init
            }
        }),
{
    let n = trace.events.len() as int;
    lemma_fed_so_far(order, config, chunk_size, trace, n);
    assert(trace.actions.take(n) =~= trace.actions);
    assert(trace.events.take(n) =~= trace.events);
    let state = trace.states[n];
    let fed = fed_of(trace.actions);
    let items = items_of(trace.events);
    let window = state.windows@[i];
    let data = data_fed(fed[i]);
    assert(state.window_ok(order, config, chunk_size, i));
    lemma_fed_length(order, config, chunk_size, state, fed, i);
    lemma_chunk_is_next(state, i);
    if order is Restored {
        lemma_sort_ends_latest(window.handed, window.chunk);
        assert forall|time: UnixNanos| #[trigger]
            of_time(data, time) == of_time(window.chunk, time) by {
            assert(at_time(window.handed, time) == at_time(
                window.chunk,
                time,
            ));
        }
    }
    if i + 1 < fed.len() {
        assert(state.window_ok(order, config, chunk_size, i + 1));
        lemma_fed_length(order, config, chunk_size, state, fed, i + 1);
        lemma_chunk_is_next(state, i + 1);
        lemma_chunk_position(state.windows@, i + 1, 0);
        assert(state.windows@.take(i + 1).drop_last() =~= state.windows@.take(i));
        law_chunks_are_aligned(order, config, chunk_size, state, i);
        let a = chunked_items(state.windows@.take(i)).len() as int;
        let m = window.chunk.len() as int;
        assert(items[a + m] == state.windows@[i + 1].chunk[0]);
        assert(items.subrange(a, a + m)[m - 1] == items[a + m - 1]);
    }
}

/// When the engine is told to end the run, it has been fed every item that was pulled.
pub proof fn law_everything_is_fed_before_the_end<T>(
    order: StreamOrder,
    config: BacktestRunConfig,
    chunk_size: usize,
    trace: StreamTrace<T>,
)
    requires
        trace.feeds(order, config, chunk_size),
        chunk_size > 0,
        trace.actions.len() > 0,
        trace.actions.last() == ActionView::<T>::Engine(seq![CallView::End]),
    ensures
        fed_length(fed_of(trace.actions)) == items_of(trace.events).len(),
{
    let n = trace.events.len() as int;
    lemma_fed_so_far(order, config, chunk_size, trace, n);
    assert(trace.actions.take(n) =~= trace.actions);
    assert(trace.events.take(n) =~= trace.events);
    assert(trace.step_taken(order, config, chunk_size, n - 1));
    let state = trace.states[n];
    let fed = fed_of(trace.actions);
    assert(state.phase is Ending) by {
        let calls = seq![CallView::<T>::End];
        assert(calls.len() == 1);
        if state.phase is Running {
            assert(trace.actions.last()->Engine_0.len() == 3);
        }
    }
    lemma_fed_length(order, config, chunk_size, state, fed, fed.len() as int);
    assert(fed.take(fed.len() as int) =~= fed);
    assert(state.windows@.take(fed.len() as int) =~= state.windows@);
}

/// What the engine was run to, by the calls and by the chunks.
proof fn lemma_reached<T>(
    config: BacktestRunConfig,
    windows: Seq<Window<T>>,
    fed: Seq<Seq<CallView<T>>>,
)
    requires
        fed.len() == windows.len(),
        forall|j: int|
            0 <= j < fed.len() ==> #[trigger] fed[j] == window_calls(config, windows[j]),
    ensures
        reached(fed) == boundary_after(StreamOrder::Restored, windows),
    decreases fed.len(),
{
    if fed.len() > 0 {
        assert forall|j: int| 0 <= j < fed.drop_last().len() implies
            #[trigger] fed.drop_last()[j] == window_calls(config, windows.drop_last()[j]) by {
            assert(fed[j] == fed.drop_last()[j]);
        }
        lemma_reached(config, windows.drop_last(), fed.drop_last());
        assert(fed[fed.len() - 1] == window_calls(config, windows[windows.len() - 1]));
    }
}

/// The engine is run over each chunk for its own time. Where order is kept, it starts where it
/// stopped, or with the run, and stops at the last item, or over the last chunk with the run.
/// Where order is restored, it starts at the latest time that it has reached, or with the run,
/// unless all of the chunk lies before that, and then at the chunk's first item in time; and
/// it stops at the last item in time, or over the last chunk with the run, if that has an end.
pub proof fn law_engine_is_run_for_the_time_of_a_chunk<T>(
    order: StreamOrder,
    config: BacktestRunConfig,
    chunk_size: usize,
    trace: StreamTrace<T>,
    k: int,
)
    requires
        trace.feeds(order, config, chunk_size),
        0 <= k < trace.actions.len(),
        trace.actions[k] is Engine,
        trace.actions[k]->Engine_0.len() > 1,
    ensures
        ({
            let calls = trace.actions[k]->Engine_0;
            let ahead = fed_of(trace.actions.take(k));
            let data = data_fed(calls);
            let last = trace.events[k] == StepEvent::<T>::Item(None);
            &&& trace.events[k] is Item
            &&& data.len() > 0
            &&& order is Kept ==> {
                &&& run_start(calls) == if ahead.len() == 0 {
                    config.start
                } else {
                    run_end(ahead.last())
                }
                &&& run_end(calls) == if last {
                    config.end
                } else {
                    Some(data.last().ts_init)
                }
            }
            &&& order is Restored ==> {
                &&& run_start(calls) == if ahead.len() == 0 {
                    config.start
                } else if reached(ahead) is Some && data.last().ts_init < reached(ahead)->0 {
                    Some(data[0].ts_init)
                } else {
                    reached(ahead)
                }
                &&& run_end(calls) == if last && config.end is Some {
                    config.end
                } else {
                    Some(data.last().ts_init)
                }
            }
        }),
{
    lemma_fed_so_far(order, config, chunk_size, trace, k);
    assert(trace.step_taken(order, config, chunk_size, k));
    let before = trace.states[k];
    let after = trace.states[k + 1];
    let ahead = fed_of(trace.actions.take(k));
    let n = before.windows@.len() as int;
    let calls = trace.actions[k]->Engine_0;
    if trace.events[k] is Item {
        let window = after.windows@.last();
        assert(after.windows@.len() == n + 1);
        if order is Restored {
            lemma_sort_ends_latest(window.handed, window.chunk);
            lemma_sort_begins_earliest(window.handed, window.chunk);
            lemma_reached(config, before.windows@, ahead);
        } else if n > 0 {
            assert(ahead[n - 1] == window_calls(config, before.windows@[n - 1]));
        }
    } else {
        assert(calls.len() == 1);
    }
}

/// A chunk is reported only where order is restored, and then exactly when its first item in
/// time lies before what the engine has reached; and a second time exactly when all of it
/// does. No other step of a stream reports anything.
pub proof fn law_stream_reports<T>(
    order: StreamOrder,
    config: BacktestRunConfig,
    chunk_size: usize,
    trace: StreamTrace<T>,
    k: int,
)
    requires
        trace.feeds(order, config, chunk_size),
        0 <= k < trace.actions.len(),
    ensures
        ({
            let ahead = fed_of(trace.actions.take(k));
            let warnings = trace.warnings[k];
            if order is Restored && trace.actions[k] is Engine && trace.actions[k]->Engine_0.len()
                > 1 && reached(ahead) is Some && data_fed(trace.actions[k]->Engine_0)[0].ts_init
                < reached(ahead)->0 {
                let data = data_fed(trace.actions[k]->Engine_0);
                let boundary = reached(ahead)->0;
                let index = warnings[0]->BackwardChunk_chunk_index;
                &&& ahead.len() <= usize::MAX ==> index == ahead.len()
                &&& warnings.len() == if data.last().ts_init < boundary {
                    2nat
                } else {
                    1nat
                }
                &&& warnings[0] == (Warning::BackwardChunk {
                    chunk_index: index,
                    earliest: data[0].ts_init,
                    boundary,
                })
                &&& data.last().ts_init < boundary ==> warnings[1] == (Warning::ClampedStart {
                    chunk_index: index,
                    latest: data.last().ts_init,
                    boundary,
                    start: data[0].ts_init,
                })
            } else {
                warnings.len() == 0
            }
        }),
{
    lemma_fed_so_far(order, config, chunk_size, trace, k);
    assert(trace.step_taken(order, config, chunk_size, k));
    let before = trace.states[k];
    let after = trace.states[k + 1];
    let ahead = fed_of(trace.actions.take(k));
    let n = before.windows@.len() as int;
    if trace.events[k] is Item && after.windows@.len() > n {
        let window = after.windows@.last();
        lemma_reached(config, before.windows@, ahead);
        if order is Restored {
            lemma_sort_ends_latest(window.handed, window.chunk);
            lemma_sort_begins_earliest(window.handed, window.chunk);
        }
        assert(trace.actions[k]->Engine_0.len() == 3);
    } else if trace.actions[k] is Engine {
        assert(trace.actions[k]->Engine_0.len() == 1);
    }
}

/// A stream goes on as it is told: it pulls as long as the items that it has not fed yet are
/// fewer than `chunk_size` or the next has the time of the last of so many, and feeds them
/// otherwise; behind a chunk it pulls on, or ends the run after the last; a shutdown or a
/// failure ends it at once.
pub proof fn law_stream_goes_on_as_it_is_told<T>(
    order: StreamOrder,
    config: BacktestRunConfig,
    chunk_size: usize,
    trace: StreamTrace<T>,
    k: int,
)
    requires
        trace.feeds(order, config, chunk_size),
        chunk_size > 0,
        0 < k < trace.actions.len(),
    ensures
        ({
            let action = trace.actions[k];
            let asked = trace.actions[k - 1];
            let end = ActionView::<T>::Engine(seq![CallView::End]);
            let pulled = items_of(trace.events.take(k));
            let waiting = pulled.skip(fed_length(fed_of(trace.actions.take(k))));
            match trace.events[k] {
                StepEvent::Item(Some(item)) => {
                    &&& asked is Pull
                    &&& action is Pull <==> waiting.len() < chunk_size || item.ts_init
                        == waiting[chunk_size - 1].ts_init
                    &&& !(action is Pull) ==> {
                        &&& action is Engine
                        &&& action->Engine_0.len() == 3
                        &&& data_fed(action->Engine_0).len() == waiting.len()
                    }
                },
                StepEvent::Item(None) => {
                    &&& asked is Pull
                    &&& action is Engine
                    &&& waiting.len() == 0 ==> action == end
                    &&& waiting.len() > 0 ==> {
                        &&& action->Engine_0.len() == 3
                        &&& data_fed(action->Engine_0).len() == waiting.len()
                    }
                },
                StepEvent::Ran { shutdown } => {
                    &&& asked is Engine
                    &&& asked == end ==> action == ActionView::<T>::Complete(Ok(()))
                    &&& asked != end && shutdown ==> action == ActionView::<T>::Complete(Ok(()))
                    &&& asked != end && !shutdown ==> action == if trace.events[k - 1]
                        == StepEvent::<T>::Item(None) {
                        end
                    } else {
                        ActionView::<T>::Pull
                    }
                },
                StepEvent::Failed(message) => {
                    &&& asked is Engine
                    &&& action == ActionView::<T>::Complete(Err(NodeError::Outside { message }))
                },
                _ => false,
            }
        }),
{
    lemma_fed_so_far(order, config, chunk_size, trace, k);
    lemma_fed_so_far(order, config, chunk_size, trace, k - 1);
    assert(trace.step_taken(order, config, chunk_size, k));
    assert(trace.step_taken(order, config, chunk_size, k - 1));
    let state = trace.states[k];
    let fed = fed_of(trace.actions.take(k));
    lemma_fed_length(order, config, chunk_size, state, fed, fed.len() as int);
    assert(fed.take(fed.len() as int) =~= fed);
    assert(state.windows@.take(fed.len() as int) =~= state.windows@);
    let pulled = items_of(trace.events.take(k));
    let waiting = pulled.skip(fed_length(fed));
    assert(waiting =~= state.gathered@);
    let end = seq![CallView::<T>::End];
    assert(end.len() == 1);
    if let ActionView::Engine(calls) = trace.actions[k - 1] {
        if state.phase is Running {
            assert(calls.len() == 3);
        } else {
            assert(calls == end);
        }
    }
    let after = trace.states[k + 1];
    if after.windows@.len() > state.windows@.len() && order is Restored {
        lemma_sort_ends_latest(after.windows@.last().handed, after.windows@.last().chunk);
    }
}

/// Chunks of no items take nothing: the run is ended with the first item, or without one.
pub proof fn law_no_chunks_without_items<T>(
    order: StreamOrder,
    config: BacktestRunConfig,
    trace: StreamTrace<T>,
    k: int,
)
    requires
        trace.feeds(order, config, 0),
        0 <= k < trace.actions.len(),
    ensures
        trace.events[k] is Item ==> trace.actions[k] == ActionView::<T>::Engine(
            seq![CallView::End],
        ),
        fed_of(trace.actions).len() == 0,
{
    let n = trace.events.len() as int;
    lemma_nothing_gathered(order, config, trace, k);
    lemma_nothing_gathered(order, config, trace, n);
    lemma_fed_so_far(order, config, 0, trace, n);
    assert(trace.actions.take(n) =~= trace.actions);
    assert(trace.step_taken(order, config, 0, k));
}

/// Until the end, a stream in chunks of no items gathers nothing.
proof fn lemma_nothing_gathered<T>(
    order: StreamOrder,
    config: BacktestRunConfig,
    trace: StreamTrace<T>,
    k: int,
)
    requires
        trace.feeds(order, config, 0),
        0 <= k <= trace.events.len(),
    ensures
        trace.states[k].windows@.len() == 0,
        !(trace.states[k].phase is Ending || trace.states[k].phase is Finished)
            ==> trace.states[k].gathered@.len() == 0,
    decreases k,
{
    if k > 0 {
        lemma_nothing_gathered(order, config, trace, k - 1);
        assert(trace.step_taken(order, config, 0, k - 1));
    }
}

/// An item joins the chunk that is gathered while that is not full, and then only with the time
/// of the item that made it full.
pub proof fn law_joins_while_not_full<T>(gathered: Seq<Data<T>>, item: Data<T>, chunk_size: usize)
    ensures
        gathered.len() < chunk_size ==> joins_chunk(gathered, item, chunk_size),
        chunk_size == 0 ==> !joins_chunk(gathered, item, chunk_size),
        0 < chunk_size <= gathered.len() ==> (joins_chunk(gathered, item, chunk_size)
            <==> item.ts_init == gathered[chunk_size - 1].ts_init),
{
}

/// A chunk that is made ready is handed over as it is or in the order of time, and run for its
/// time, whatever comes before it: where order is kept, from where the engine starts next to
/// the last item, or to the end of the run; where order is restored, to the last item in time,
/// or to the end of the run if there is one, and from where the engine starts next, or from
/// the first item in time if all lie before the boundary.
pub proof fn law_chunk_is_made_ready<T>(
    order: StreamOrder,
    end_of_run: Option<UnixNanos>,
    next_start: Option<UnixNanos>,
    boundary: Option<UnixNanos>,
    window: Window<T>,
)
    requires
        window.chunk.len() > 0,
        window_planned(order, end_of_run, next_start, boundary, window),
    ensures
        window.handed.len() == window.chunk.len(),
        order is Kept ==> {
            &&& window.handed == window.chunk
            &&& window.start == next_start
            &&& window.end == if window.last {
                end_of_run
            } else {
                Some(window.chunk.last().ts_init)
            }
        },
        order is Restored ==> {
            let first = window.handed[0].ts_init;
            let last = window.handed.last().ts_init;
            &&& forall|i: int|
                0 <= i < window.chunk.len() ==> first <= (#[trigger] window.chunk[i]).ts_init
                    <= last
            &&& window.start == if boundary is Some && last < boundary->0 {
                Some(first)
            } else {
                next_start
            }
            &&& window.end == if window.last && end_of_run is Some {
                end_of_run
            } else {
                Some(last)
            }
        },
{
    if order is Restored {
        lemma_sort_ends_latest(window.handed, window.chunk);
        lemma_sort_begins_earliest(window.handed, window.chunk);
        lemma_latest(window.chunk);
        lemma_earliest(window.chunk);
    }
}

/// What is reported of a chunk tells its first and last times and the boundary, whatever comes
/// before it; and nothing is reported where order is kept or there is no boundary.
pub proof fn law_chunk_reports<T>(
    order: StreamOrder,
    boundary: Option<UnixNanos>,
    chunk_index: usize,
    chunk: Seq<Data<T>>,
    first: UnixNanos,
    last: UnixNanos,
)
    requires
        chunk.len() > 0,
        forall|i: int|
            0 <= i < chunk.len() ==> first <= (#[trigger] chunk[i]).ts_init <= last,
        exists|i: int| 0 <= i < chunk.len() && (#[trigger] chunk[i]).ts_init == first,
        exists|i: int| 0 <= i < chunk.len() && (#[trigger] chunk[i]).ts_init == last,
    ensures
        ({
            let reports = chunk_reports(order, boundary, chunk_index, chunk);
            if order is Kept || boundary is None || first >= boundary->0 {
                reports.len() == 0
            } else {
                &&& reports[0] == (Warning::BackwardChunk {
                    chunk_index,
                    earliest: first,
                    boundary: boundary->0,
                })
                &&& if last >= boundary->0 {
                    reports.len() == 1
                } else {
                    &&& reports.len() == 2
                    &&& reports[1] == (Warning::ClampedStart {
                        chunk_index,
                        latest: last,
                        boundary: boundary->0,
                        start: first,
                    })
                }
            }
        }),
{
    lemma_latest(chunk);
    lemma_earliest(chunk);
    let a = choose|i: int| 0 <= i < chunk.len() && chunk[i].ts_init == earliest(chunk);
    let b = choose|i: int| 0 <= i < chunk.len() && chunk[i].ts_init == latest(chunk);
    assert(first <= chunk[a].ts_init);
    assert(chunk[b].ts_init <= last);
}

} // verus!
