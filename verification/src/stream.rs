//! Feeds an engine from a stream, one aligned chunk after the other.
use crate::chunk::{fits_chunk, joins_chunk, lemma_joins_iff_fits, take_aligned_chunk};
use crate::config::BacktestRunConfig;
use crate::data::{
    earliest, is_stable_sort, latest, lemma_earliest, lemma_latest, lemma_sort_begins_earliest,
    lemma_sort_ends_latest, sort_by_time, Data,
};
use crate::error::NodeError;
use crate::ordering::capped;
use crate::report::Warning;
use crate::step::{
    calls_view, failure, ActionView, CallView, EngineCall, Step, StepAction, StepEvent,
};
use crate::time::{later, max_opt, UnixNanos};
use vstd::prelude::*;

verus! {

/// What becomes of the order in which a stream hands out items.
#[derive(Debug, Clone, Copy, PartialEq, Eq, Structural)]
pub enum StreamOrder {
    /// Each chunk is fed as it was handed out.
    Kept,
    /// Each chunk is sorted by time first.
    Restored,
}

/// What a stream is waiting for.
#[derive(Debug, Clone, Copy, PartialEq, Eq, Structural)]
pub enum StreamPhase {
    /// To be begun.
    Begin,
    /// The next item.
    Pulling,
    /// The engine, which runs over a chunk up to `end`.
    Running { last: bool, end: Option<UnixNanos> },
    /// The engine, which ends the run.
    Ending,
    /// Nothing.
    Finished,
}

/// A chunk as it was handed to the engine, and the time that the engine was run for.
pub struct Window<T> {
    /// The items in the order in which they were pulled.
    pub chunk: Seq<Data<T>>,
    /// The items in the order in which they were handed over.
    pub handed: Seq<Data<T>>,
    pub start: Option<UnixNanos>,
    pub end: Option<UnixNanos>,
    /// Whether the stream ended with this chunk.
    pub last: bool,
}

/// How far a stream has been fed.
pub struct StreamState<T> {
    pub phase: StreamPhase,
    /// The chunk that is being gathered.
    pub gathered: Vec<Data<T>>,
    /// Where the next run of the engine starts.
    pub next_start: Option<UnixNanos>,
    /// The latest time that the engine has been run to, where order is restored.
    pub boundary: Option<UnixNanos>,
    /// How many chunks have been run.
    pub chunk_index: usize,
    /// All items that were pulled.
    pub pulled: Ghost<Seq<Data<T>>>,
    /// All chunks that were handed to the engine.
    pub windows: Ghost<Seq<Window<T>>>,
}

/// Whether an event is a reply to what the stream is waiting for.
pub open spec fn stream_accepts<T>(phase: StreamPhase, event: StepEvent<T>) -> bool {
    match phase {
        StreamPhase::Begin => event is Begin,
        StreamPhase::Pulling => event is Item,
        StreamPhase::Running { .. } => event is Ran || event is Failed,
        StreamPhase::Ending => event is Ran,
        StreamPhase::Finished => false,
    }
}

/// Whether a chunk is fed right, given where the engine has been run to.
///
/// Where order is kept, the engine starts where it stopped, and runs up to the last item,
/// or with the last chunk to the end of the run. Where order is restored, it runs up to the
/// latest item, with the last chunk to the end of the run if there is one; and if even the
/// latest item lies before the boundary, it starts at the earliest.
pub open spec fn window_planned<T>(
    order: StreamOrder,
    run_end: Option<UnixNanos>,
    next_start: Option<UnixNanos>,
    boundary: Option<UnixNanos>,
    window: Window<T>,
) -> bool {
    let chunk = window.chunk;
    match order {
        StreamOrder::Kept => {
            &&& window.handed == chunk
            &&& window.start == next_start
            &&& window.end == if window.last {
                run_end
            } else {
                Some(chunk.last().ts_init)
            }
        },
        StreamOrder::Restored => {
            &&& is_stable_sort(window.handed, chunk)
            &&& window.start == if boundary is Some && latest(chunk) < boundary->0 {
                Some(earliest(chunk))
            } else {
                next_start
            }
            &&& window.end == if window.last && run_end is Some {
                run_end
            } else {
                Some(latest(chunk))
            }
        },
    }
}

/// What is reported of a chunk: that its earliest item lies before the boundary, and that all
/// of it does.
pub open spec fn chunk_reports<T>(
    order: StreamOrder,
    boundary: Option<UnixNanos>,
    chunk_index: usize,
    chunk: Seq<Data<T>>,
) -> Seq<Warning> {
    if order is Kept || boundary is None || earliest(chunk) >= boundary->0 {
        seq![]
    } else {
        let behind = Warning::BackwardChunk {
            chunk_index,
            earliest: earliest(chunk),
            boundary: boundary->0,
        };
        if latest(chunk) >= boundary->0 {
            seq![behind]
        } else {
            seq![
                behind,
                Warning::ClampedStart {
                    chunk_index,
                    latest: latest(chunk),
                    boundary: boundary->0,
                    start: earliest(chunk),
                },
            ]
        }
    }
}

/// The engine calls that feed a chunk.
pub open spec fn window_calls<T>(config: BacktestRunConfig, window: Window<T>) -> Seq<CallView<T>> {
    seq![
        CallView::AddData { data: window.handed, client_id: None, validate: false, sort: true },
        CallView::Run {
            start: window.start,
            end: window.end,
            run_id: Some(config.id),
            streaming: true,
        },
        CallView::ClearData,
    ]
}

/// Where the engine has been run to, where order is restored.
pub open spec fn boundary_after<T>(order: StreamOrder, windows: Seq<Window<T>>) -> Option<UnixNanos>
    decreases windows.len(),
{
    if order is Kept || windows.len() == 0 {
        None
    } else {
        later(boundary_after(order, windows.drop_last()), windows.last().end)
    }
}

/// Where the engine starts next.
pub open spec fn start_after<T>(
    order: StreamOrder,
    config: BacktestRunConfig,
    windows: Seq<Window<T>>,
) -> Option<UnixNanos> {
    if windows.len() == 0 {
        config.start
    } else if order is Kept {
        windows.last().end
    } else {
        boundary_after(order, windows)
    }
}

/// The items of several chunks, in the order in which they were pulled.
pub open spec fn chunked_items<T>(windows: Seq<Window<T>>) -> Seq<Data<T>>
    decreases windows.len(),
{
    if windows.len() == 0 {
        Seq::empty()
    } else {
        chunked_items(windows.drop_last()) + windows.last().chunk
    }
}

impl<T> StreamState<T> {
    /// The chunks that the engine has been run over.
    pub open spec fn completed(self) -> Seq<Window<T>> {
        if self.phase is Running {
            self.windows@.drop_last()
        } else {
            self.windows@
        }
    }

    /// Whether a chunk that was handed over was cut and fed right.
    pub open spec fn window_ok(
        self,
        order: StreamOrder,
        config: BacktestRunConfig,
        chunk_size: usize,
        i: int,
    ) -> bool {
        let windows = self.windows@;
        let ahead = windows.take(i);
        &&& windows[i].chunk.len() > 0
        &&& fits_chunk(windows[i].chunk, chunk_size)
        &&& window_planned(
            order,
            config.end,
            start_after(order, config, ahead),
            boundary_after(order, ahead),
            windows[i],
        )
        &&& !windows[i].last ==> {
            let rest = if i + 1 < windows.len() {
                windows[i + 1].chunk
            } else {
                self.gathered@
            };
            rest.len() > 0 && !joins_chunk(windows[i].chunk, rest[0], chunk_size)
        }
        &&& windows[i].last ==> i + 1 == windows.len()
    }

    /// What holds of a stream at any time: every item that was pulled is in a chunk that
    /// was handed over or in the one being gathered, in order; every chunk was cut and fed
    /// right; and the state remembers where the engine has been run to.
    pub open spec fn wf(
        self,
        order: StreamOrder,
        config: BacktestRunConfig,
        chunk_size: usize,
    ) -> bool {
        let windows = self.windows@;
        &&& self.pulled@ == chunked_items(windows) + self.gathered@
        &&& forall|i: int|
            0 <= i < windows.len() ==> #[trigger] self.window_ok(order, config, chunk_size, i)
        &&& self.phase is Begin ==> windows.len() == 0 && self.gathered@.len() == 0
        &&& self.phase is Pulling ==> fits_chunk(self.gathered@, chunk_size) && (windows.len()
            > 0 ==> !windows.last().last)
        &&& self.phase is Running ==> {
            &&& windows.len() > 0
            &&& windows.last().last == self.phase->last
            &&& windows.last().end == self.phase->end
            &&& if windows.last().last {
                self.gathered@.len() == 0
            } else {
                fits_chunk(self.gathered@, chunk_size)
            }
        }
        &&& self.phase is Ending ==> (chunk_size > 0 ==> self.gathered@.len() == 0)
        &&& !(self.phase is Ending || self.phase is Finished) ==> {
            &&& self.next_start == start_after(order, config, self.completed())
            &&& self.boundary == boundary_after(order, self.completed())
            &&& self.chunk_index == capped(self.completed().len())
        }
    }

    /// Returns the state of a stream that is yet to begin.
    pub fn new(config: &BacktestRunConfig) -> (r: Self)
        ensures
            r.phase is Begin,
            r.pulled@ == Seq::<Data<T>>::empty(),
            r.windows@ == Seq::<Window<T>>::empty(),
            forall|order: StreamOrder, chunk_size: usize| #[trigger]
                r.wf(order, *config, chunk_size),
    {
        StreamState {
            phase: StreamPhase::Begin,
            gathered: Vec::new(),
            next_start: config.start,
            boundary: None,
            chunk_index: 0,
            pulled: Ghost(Seq::empty()),
            windows: Ghost(Seq::empty()),
        }
    }
}

/// How a stream is advanced by an event.
pub open spec fn stream_rule<T>(
    order: StreamOrder,
    config: BacktestRunConfig,
    chunk_size: usize,
    before: StreamState<T>,
    event: StepEvent<T>,
    after: StreamState<T>,
    warnings: Seq<Warning>,
    action: ActionView<T>,
) -> bool {
    match event {
        StepEvent::Item(Some(item)) => {
            &&& after.pulled@ == before.pulled@.push(item)
            &&& if joins_chunk(before.gathered@, item, chunk_size) {
                &&& after.gathered@ == before.gathered@.push(item)
                &&& after.windows@ == before.windows@
                &&& after.phase is Pulling
                &&& warnings == Seq::<Warning>::empty()
                &&& action == ActionView::<T>::Pull
            } else {
                &&& after.gathered@ == seq![item]
                &&& chunk_fed(order, config, before, false, after, warnings, action)
            }
        },
        StepEvent::Item(None) => {
            &&& after.pulled@ == before.pulled@
            &&& after.gathered@ == Seq::<Data<T>>::empty()
            &&& chunk_fed(order, config, before, true, after, warnings, action)
        },
        _ => {
            &&& after.pulled@ == before.pulled@
            &&& after.gathered@ == before.gathered@
            &&& after.windows@ == before.windows@
            &&& warnings == Seq::<Warning>::empty()
            &&& match (before.phase, event) {
                (StreamPhase::Begin, StepEvent::Begin) => {
                    &&& after.phase is Pulling
                    &&& action == ActionView::<T>::Pull
                },
                (StreamPhase::Running { last, .. }, StepEvent::Ran { shutdown }) => {
                    if shutdown {
                        // The engine has ended the run itself.
                        &&& after.phase is Finished
                        &&& action == ActionView::<T>::Complete(Ok(()))
                    } else if last {
                        &&& after.phase is Ending
                        &&& action == ActionView::<T>::Engine(seq![CallView::End])
                    } else {
                        &&& after.phase is Pulling
                        &&& action == ActionView::<T>::Pull
                    }
                },
                (StreamPhase::Running { .. }, StepEvent::Failed(message)) => {
                    &&& after.phase is Finished
                    &&& action == failure::<T>(message)
                },
                (StreamPhase::Ending, StepEvent::Ran { .. }) => {
                    &&& after.phase is Finished
                    &&& action == ActionView::<T>::Complete(Ok(()))
                },
                _ => false,
            }
        },
    }
}

/// How the chunk that was gathered is fed once it is complete: the engine is run over it,
/// or ends the run if the chunk is empty.
pub open spec fn chunk_fed<T>(
    order: StreamOrder,
    config: BacktestRunConfig,
    before: StreamState<T>,
    last: bool,
    after: StreamState<T>,
    warnings: Seq<Warning>,
    action: ActionView<T>,
) -> bool {
    let chunk = before.gathered@;
    if chunk.len() == 0 {
        &&& after.windows@ == before.windows@
        &&& after.phase is Ending
        &&& warnings == Seq::<Warning>::empty()
        &&& action == ActionView::<T>::Engine(seq![CallView::End])
    } else {
        let window = after.windows@.last();
        &&& after.windows@ == before.windows@.push(window)
        &&& window.chunk == chunk
        &&& window.last == last
        &&& window_planned(order, config.end, before.next_start, before.boundary, window)
        &&& after.phase == StreamPhase::Running { last, end: window.end }
        &&& warnings == chunk_reports(order, before.boundary, before.chunk_index, chunk)
        &&& action == ActionView::Engine(window_calls(config, window))
    }
}

/// A chunk made ready for the engine.
#[derive(Debug)]
pub struct PlannedChunk<T> {
    pub data: Vec<Data<T>>,
    pub start: Option<UnixNanos>,
    pub end: Option<UnixNanos>,
    pub warnings: Vec<Warning>,
}

/// Makes a chunk ready for the engine: puts its items in order, and picks the time that the
/// engine is run for.
pub fn plan_chunk<T>(
    order: StreamOrder,
    run_end: Option<UnixNanos>,
    next_start: Option<UnixNanos>,
    boundary: Option<UnixNanos>,
    chunk_index: usize,
    chunk: Vec<Data<T>>,
    last: bool,
) -> (r: PlannedChunk<T>)
    requires
        chunk@.len() > 0,
    ensures
        window_planned(
            order,
            run_end,
            next_start,
            boundary,
            (Window { chunk: chunk@, handed: r.data@, start: r.start, end: r.end, last }),
        ),
        r.warnings@ == chunk_reports(order, boundary, chunk_index, chunk@),
{
    let mut warnings: Vec<Warning> = Vec::new();
    match order {
        StreamOrder::Kept => {
            let end = if last {
                run_end
            } else {
                Some(chunk[chunk.len() - 1].ts_init)
            };
            PlannedChunk { data: chunk, start: next_start, end, warnings }
        },
        StreamOrder::Restored => {
            let ghost items = chunk@;
            let mut data = chunk;
            sort_by_time(&mut data);
            proof {
                lemma_sort_ends_latest(data@, items);
                lemma_latest(items);
                lemma_earliest(items);
                lemma_sort_begins_earliest(data@, items);
            }
            let oldest: UnixNanos = data[0].ts_init;
            let newest: UnixNanos = data[data.len() - 1].ts_init;
            let mut start = next_start;
            if let Some(boundary) = boundary {
                if oldest < boundary {
                    warnings.push(
                        Warning::BackwardChunk { chunk_index, earliest: oldest, boundary },
                    );
                }
                if newest < boundary {
                    warnings.push(
                        Warning::ClampedStart {
                            chunk_index,
                            latest: newest,
                            boundary,
                            start: oldest,
                        },
                    );
                    start = Some(oldest);
                }
            }
            let end = if last && run_end.is_some() {
                run_end
            } else {
                Some(newest)
            };
            assert(warnings@ =~= chunk_reports(order, boundary, chunk_index, items));
            PlannedChunk { data, start, end, warnings }
        },
    }
}

/// Advances a stream.
fn advance_stream<T>(
    order: StreamOrder,
    config: &BacktestRunConfig,
    chunk_size: usize,
    state: StreamState<T>,
    event: StepEvent<T>,
) -> (r: Step<StreamState<T>, T>)
    requires
        state.wf(order, *config, chunk_size),
        stream_accepts(state.phase, event),
    ensures
        r.state.wf(order, *config, chunk_size),
        stream_rule(
            order,
            *config,
            chunk_size,
            state,
            event,
            r.state,
            r.warnings@,
            r.action@,
        ),
{
    let ghost before = state;
    let mut state = state;
    let mut warnings: Vec<Warning> = Vec::new();
    match event {
        StepEvent::Item(next) => {
            proof {
                if next is Some {
                    lemma_joins_iff_fits(state.gathered@, next->0, chunk_size);
                    state.pulled@ = state.pulled@.push(next->0);
                }
            }
            let ghost gathered = state.gathered@;
            match take_aligned_chunk(&mut state.gathered, next, chunk_size) {
                None => {
                    assert(state.pulled@ =~= chunked_items(state.windows@) + state.gathered@);
                    proof {
                        lemma_windows_stay(order, *config, chunk_size, before, state);
                    }
                    Step { state, warnings, action: StepAction::Pull }
                },
                Some(chunk) => {
                    if chunk.items.len() == 0 {
                        state.phase = StreamPhase::Ending;
                        assert(state.pulled@ =~= chunked_items(state.windows@) + state.gathered@);
                        let calls = vec![EngineCall::End];
                        assert(calls_view(calls@) =~= seq![CallView::<T>::End]);
                        proof {
                            lemma_windows_stay(order, *config, chunk_size, before, state);
                        }
                        return Step { state, warnings, action: StepAction::Engine(calls) };
                    }
                    let planned = plan_chunk(
                        order,
                        config.end,
                        state.next_start,
                        state.boundary,
                        state.chunk_index,
                        chunk.items,
                        chunk.last,
                    );
                    let ghost window = Window {
                        chunk: gathered,
                        handed: planned.data@,
                        start: planned.start,
                        end: planned.end,
                        last: chunk.last,
                    };
                    proof {
                        state.windows@ = state.windows@.push(window);
                    }
                    state.phase = StreamPhase::Running { last: chunk.last, end: planned.end };
                    let calls = vec![
                        EngineCall::AddData {
                            data: planned.data,
                            client_id: None,
                            validate: false,
                            sort: true,
                        },
                        EngineCall::Run {
                            start: planned.start,
                            end: planned.end,
                            run_id: Some(config.id.clone()),
                            streaming: true,
                        },
                        EngineCall::ClearData,
                    ];
                    assert(calls_view(calls@) =~= window_calls(*config, window));
                    proof {
                        assert(state.windows@.drop_last() =~= before.windows@);
                        lemma_window_added(order, *config, chunk_size, before, next, state);
                    }
                    Step {
                        state,
                        warnings: planned.warnings,
                        action: StepAction::Engine(calls),
                    }
                },
            }
        },
        StepEvent::Ran { shutdown } => match state.phase {
            StreamPhase::Running { last, end } => {
                if shutdown {
                    state.phase = StreamPhase::Finished;
                    proof {
                        lemma_windows_stay(order, *config, chunk_size, before, state);
                    }
                    return Step { state, warnings, action: StepAction::Complete(Ok(())) };
                }
                match order {
                    StreamOrder::Kept => {
                        state.next_start = end;
                    },
                    StreamOrder::Restored => {
                        state.boundary = max_opt(state.boundary, end);
                        state.next_start = state.boundary;
                    },
                }
                state.chunk_index = state.chunk_index.saturating_add(1);
                if last {
                    state.phase = StreamPhase::Ending;
                    let calls = vec![EngineCall::End];
                    assert(calls_view(calls@) =~= seq![CallView::<T>::End]);
                    proof {
                        lemma_windows_stay(order, *config, chunk_size, before, state);
                    }
                    Step { state, warnings, action: StepAction::Engine(calls) }
                } else {
                    state.phase = StreamPhase::Pulling;
                    proof {
                        lemma_windows_stay(order, *config, chunk_size, before, state);
                    }
                    Step { state, warnings, action: StepAction::Pull }
                }
            },
            _ => {
                state.phase = StreamPhase::Finished;
                proof {
                    lemma_windows_stay(order, *config, chunk_size, before, state);
                }
                Step { state, warnings, action: StepAction::Complete(Ok(())) }
            },
        },
        StepEvent::Failed(message) => {
            state.phase = StreamPhase::Finished;
            proof {
                lemma_windows_stay(order, *config, chunk_size, before, state);
            }
            Step {
                state,
                warnings,
                action: StepAction::Complete(Err(NodeError::Outside { message })),
            }
        },
        StepEvent::Begin => {
            state.phase = StreamPhase::Pulling;
            Step { state, warnings, action: StepAction::Pull }
        },
        _ => vstd::pervasive::unreached(),
    }
}

/// Chunks that were fed right stay so while items are gathered behind them.
proof fn lemma_windows_stay<T>(
    order: StreamOrder,
    config: BacktestRunConfig,
    chunk_size: usize,
    before: StreamState<T>,
    after: StreamState<T>,
)
    requires
        before.wf(order, config, chunk_size),
        after.windows@ == before.windows@,
        before.gathered@.is_prefix_of(after.gathered@),
    ensures
        forall|i: int|
            0 <= i < after.windows@.len() ==> #[trigger] after.window_ok(
                order,
                config,
                chunk_size,
                i,
            ),
{
    assert forall|i: int| 0 <= i < after.windows@.len() implies #[trigger] after.window_ok(
        order,
        config,
        chunk_size,
        i,
    ) by {
        assert(before.window_ok(order, config, chunk_size, i));
    }
}

/// A chunk that was just handed over stands behind the others, and its items leave the
/// chunk that is being gathered.
proof fn lemma_window_added<T>(
    order: StreamOrder,
    config: BacktestRunConfig,
    chunk_size: usize,
    before: StreamState<T>,
    next: Option<Data<T>>,
    after: StreamState<T>,
)
    requires
        before.wf(order, config, chunk_size),
        before.phase is Pulling,
        before.gathered@.len() > 0,
        after.windows@.len() == before.windows@.len() + 1,
        after.windows@.drop_last() == before.windows@,
        after.windows@.last().chunk == before.gathered@,
        after.windows@.last().last == next is None,
        window_planned(
            order,
            config.end,
            before.next_start,
            before.boundary,
            after.windows@.last(),
        ),
        match next {
            Some(item) => {
                &&& !joins_chunk(before.gathered@, item, chunk_size)
                &&& after.gathered@ == seq![item]
                &&& after.pulled@ == before.pulled@.push(item)
            },
            None => after.gathered@.len() == 0 && after.pulled@ == before.pulled@,
        },
    ensures
        after.pulled@ == chunked_items(after.windows@) + after.gathered@,
        next is Some ==> fits_chunk(after.gathered@, chunk_size),
        forall|i: int|
            0 <= i < after.windows@.len() ==> #[trigger] after.window_ok(
                order,
                config,
                chunk_size,
                i,
            ),
{
    let n = before.windows@.len() as int;
    assert(after.pulled@ =~= chunked_items(after.windows@) + after.gathered@);
    assert forall|i: int| 0 <= i < after.windows@.len() implies #[trigger] after.window_ok(
        order,
        config,
        chunk_size,
        i,
    ) by {
        assert(after.windows@.take(i) =~= before.windows@.take(i));
        if i < n {
            assert(before.window_ok(order, config, chunk_size, i));
            assert(after.windows@[i] == before.windows@[i]);
            if i + 1 < n {
                assert(after.windows@[i + 1] == before.windows@[i + 1]);
            }
        } else {
            assert(after.windows@.take(n) =~= before.windows@);
        }
    }
}

/// Advances a stream that is fed as it comes: the engine is given one aligned chunk after
/// the other, and each run starts where the one ahead of it stopped.
pub fn stream_chunks<T>(
    config: &BacktestRunConfig,
    chunk_size: usize,
    state: StreamState<T>,
    event: StepEvent<T>,
) -> (r: Step<StreamState<T>, T>)
    requires
        state.wf(StreamOrder::Kept, *config, chunk_size),
        stream_accepts(state.phase, event),
    ensures
        r.state.wf(StreamOrder::Kept, *config, chunk_size),
        stream_rule(
            StreamOrder::Kept,
            *config,
            chunk_size,
            state,
            event,
            r.state,
            r.warnings@,
            r.action@,
        ),
{
    advance_stream(StreamOrder::Kept, config, chunk_size, state, event)
}

/// Advances a stream whose items may come slightly out of order: each chunk is sorted by
/// time before the engine is given it, and the engine never goes back behind the boundary
/// that it was run to unless a whole chunk lies behind it.
pub fn stream_chunks_resort<T>(
    config: &BacktestRunConfig,
    chunk_size: usize,
    state: StreamState<T>,
    event: StepEvent<T>,
) -> (r: Step<StreamState<T>, T>)
    requires
        state.wf(StreamOrder::Restored, *config, chunk_size),
        stream_accepts(state.phase, event),
    ensures
        r.state.wf(StreamOrder::Restored, *config, chunk_size),
        stream_rule(
            StreamOrder::Restored,
            *config,
            chunk_size,
            state,
            event,
            r.state,
            r.warnings@,
            r.action@,
        ),
{
    advance_stream(StreamOrder::Restored, config, chunk_size, state, event)
}

} // verus!
