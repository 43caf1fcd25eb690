//! Runs an engine over the data of a run in chunks.
use crate::catalog::{
    can_share_catalog, catalog_for, create_catalog, dispatch_register_query, load_data, load_for,
    registration_for, shares_backend, DataQuery, QueryView,
};
use crate::config::BacktestRunConfig;
use crate::data::{concatenated, is_stable_sort, load_and_merge_data, Data};
use crate::error::NodeError;
use crate::ordering::{
    backward_count, backward_report, capped, goes_back, latest_time, OrderingVerifier,
};
use crate::report::Warning;
use crate::step::{
    failure, queries_view, step_reply, ActionView, SourceView, Step, StepAction, StepEvent,
    StreamSource,
};
use crate::stream::{
    stream_accepts, stream_chunks, stream_chunks_resort, stream_rule, StreamOrder, StreamState,
};
use crate::stream_laws::law_stream_takes_every_reply;
use crate::time::UnixNanos;
use vstd::prelude::*;

verus! {

/// The name under which a stream merged from several data configs is reported.
pub const MERGED_STREAM: &'static str = "multi-config-kmerge";

/// How far a run in chunks has come, and what it is waiting for.
pub enum StreamingState<T> {
    /// To be begun.
    Begin,
    /// The stream to be opened.
    Opening { order: StreamOrder },
    /// The data of a data config, with what the others ahead of it yielded.
    Loading { index: usize, batches: Vec<Vec<Data<T>>> },
    /// What the stream waits for. A merged stream is watched by a verifier.
    Streaming { verifier: Option<OrderingVerifier>, stream: StreamState<T> },
    /// Nothing.
    Finished,
}

/// The times of items.
pub open spec fn times<T>(items: Seq<Data<T>>) -> Seq<UnixNanos> {
    items.map_values(|item: Data<T>| item.ts_init)
}

/// The queries of all data configs of a run, as they join in one session.
pub open spec fn registrations(config: BacktestRunConfig) -> Seq<QueryView> {
    config.data@.map_values(|data| registration_for(data, config.start, config.end))
}

impl<T> StreamingState<T> {
    /// Whether the order of items is kept: it is, unless several configs share a stream.
    pub open spec fn order(self) -> StreamOrder {
        match self {
            StreamingState::Streaming { verifier: Some(_), .. } => StreamOrder::Restored,
            _ => StreamOrder::Kept,
        }
    }

    /// What holds of a run in chunks at any time.
    pub open spec fn wf(self, config: BacktestRunConfig, chunk_size: usize) -> bool {
        match self {
            StreamingState::Loading { index, batches } => {
                &&& index < config.data@.len()
                &&& batches@.len() == index
            },
            StreamingState::Streaming { verifier, stream } => {
                &&& stream.wf(self.order(), config, chunk_size)
                &&& verifier matches Some(v) ==> {
                    &&& v.wf()
                    &&& v.label() == MERGED_STREAM
                    &&& v.seen() == times(stream.pulled@)
                }
            },
            _ => true,
        }
    }
}

/// Whether an event is a reply to what the run is waiting for.
pub open spec fn streaming_accepts<T>(state: StreamingState<T>, event: StepEvent<T>) -> bool {
    match state {
        StreamingState::Begin => event is Begin,
        StreamingState::Opening { .. } => event is Opened || event is Failed,
        StreamingState::Loading { .. } => event is Loaded,
        StreamingState::Streaming { stream, .. } => stream_accepts(stream.phase, event),
        StreamingState::Finished => false,
    }
}

/// What is reported of an item of a merged stream, given the times of those ahead of it.
pub open spec fn item_report(seen: Seq<UnixNanos>, time: UnixNanos) -> Option<Warning> {
    if goes_back(seen, time) {
        backward_report(
            MERGED_STREAM,
            capped(backward_count(seen.push(time))),
            time,
            seen.last(),
            latest_time(seen)->0,
        )
    } else {
        None
    }
}

/// What is reported of an event before the stream takes it.
pub open spec fn event_report<T>(
    order: StreamOrder,
    pulled: Seq<Data<T>>,
    event: StepEvent<T>,
) -> Option<Warning> {
    match event {
        StepEvent::Item(Some(item)) if order is Restored => item_report(
            times(pulled),
            item.ts_init,
        ),
        _ => None,
    }
}

/// How a run in chunks begins. Without data configs it fails. One data config is streamed as
/// it is queried. Several that share a backend are merged by their catalog into one stream.
/// Others are loaded one by one, because their catalogs cannot merge them.
pub open spec fn streaming_begun<T>(
    config: BacktestRunConfig,
    after: StreamingState<T>,
    action: ActionView<T>,
) -> bool {
    let data = config.data@;
    if data.len() == 0 {
        &&& after == StreamingState::<T>::Finished
        &&& action == ActionView::<T>::Complete(Err(NodeError::NoDataConfigs { id: config.id }))
    } else if data.len() == 1 {
        &&& after == StreamingState::<T>::Opening { order: StreamOrder::Kept }
        &&& action == ActionView::<T>::Open(
            SourceView::Query(load_for(data[0], config.start, config.end)),
        )
    } else if shares_backend(data) {
        &&& after == StreamingState::<T>::Opening { order: StreamOrder::Restored }
        &&& action == ActionView::<T>::Open(
            SourceView::Shared {
                catalog: catalog_for(data[0]),
                fresh_session: true,
                queries: registrations(config),
            },
        )
    } else {
        &&& after matches StreamingState::Loading { index, batches } && index == 0
            && batches@.len() == 0
        &&& action == ActionView::<T>::Load(load_for(data[0], config.start, config.end))
    }
}

/// How the data of a data config is taken: the next one is loaded, or what all of them
/// yielded is merged in the order of time and streamed.
pub open spec fn batch_taken<T>(
    config: BacktestRunConfig,
    index: usize,
    batches: Seq<Vec<Data<T>>>,
    batch: Vec<Data<T>>,
    after: StreamingState<T>,
    warnings: Seq<Warning>,
    action: ActionView<T>,
) -> bool {
    let data = config.data@;
    let now = batches.push(batch);
    &&& warnings == if batch@.len() == 0 {
        seq![Warning::NoData { data_type: data[index as int].data_type }]
    } else {
        Seq::empty()
    }
    &&& if index + 1 < data.len() {
        &&& after matches StreamingState::Loading { index: next, batches: kept } && next == index
            + 1 && kept@ == now
        &&& action == ActionView::<T>::Load(
            load_for(data[index + 1], config.start, config.end),
        )
    } else {
        &&& after == StreamingState::<T>::Opening { order: StreamOrder::Kept }
        &&& action matches ActionView::Open(SourceView::Items(items)) && is_stable_sort(
            items,
            concatenated(now),
        )
    }
}

/// How a run in chunks is advanced by an event.
pub open spec fn streaming_rule<T>(
    config: BacktestRunConfig,
    chunk_size: usize,
    before: StreamingState<T>,
    event: StepEvent<T>,
    after: StreamingState<T>,
    warnings: Seq<Warning>,
    action: ActionView<T>,
) -> bool {
    match before {
        StreamingState::Begin => {
            &&& warnings == Seq::<Warning>::empty()
            &&& streaming_begun(config, after, action)
        },
        StreamingState::Opening { order } => {
            &&& warnings == Seq::<Warning>::empty()
            &&& match event {
                StepEvent::Failed(message) => {
                    &&& after == StreamingState::<T>::Finished
                    &&& action == failure::<T>(message)
                },
                _ => {
                    &&& after matches StreamingState::Streaming { stream, .. }
                        && stream.phase is Pulling && stream.pulled@.len() == 0
                        && stream.windows@.len() == 0
                    &&& after.order() == order
                    &&& action == ActionView::<T>::Pull
                },
            }
        },
        StreamingState::Loading { index, batches } => match event {
            StepEvent::Loaded(Ok(batch)) => batch_taken(
                config,
                index,
                batches@,
                batch,
                after,
                warnings,
                action,
            ),
            StepEvent::Loaded(Err(message)) => {
                &&& warnings == Seq::<Warning>::empty()
                &&& after == StreamingState::<T>::Finished
                &&& action == failure::<T>(message)
            },
            _ => false,
        },
        StreamingState::Streaming { stream, .. } => {
            let order = before.order();
            &&& after.order() == order
            &&& after matches StreamingState::Streaming { stream: next, .. } && match event_report(
                order,
                stream.pulled@,
                event,
            ) {
                None => stream_rule(
                    order,
                    config,
                    chunk_size,
                    stream,
                    event,
                    next,
                    warnings,
                    action,
                ),
                Some(first) => {
                    &&& warnings.len() > 0
                    &&& warnings[0] == first
                    &&& stream_rule(
                        order,
                        config,
                        chunk_size,
                        stream,
                        event,
                        next,
                        warnings.skip(1),
                        action,
                    )
                },
            }
        },
        StreamingState::Finished => false,
    }
}

/// Whatever a run in chunks asks for, it takes every reply to that, and nothing else.
pub proof fn law_streaming_takes_every_reply<T>(
    config: BacktestRunConfig,
    chunk_size: usize,
    before: StreamingState<T>,
    event: StepEvent<T>,
    after: StreamingState<T>,
    warnings: Seq<Warning>,
    action: ActionView<T>,
    reply: StepEvent<T>,
)
    requires
        streaming_rule(config, chunk_size, before, event, after, warnings, action),
    ensures
        streaming_accepts(after, reply) <==> step_reply(action, reply),
{
    if let (
        StreamingState::Streaming { stream, .. },
        StreamingState::Streaming { stream: next, .. },
    ) = (before, after) {
        let rest = match event_report(before.order(), stream.pulled@, event) {
            None => warnings,
            Some(_) => warnings.skip(1),
        };
        law_stream_takes_every_reply(
            before.order(),
            config,
            chunk_size,
            stream,
            event,
            next,
            rest,
            action,
            reply,
        );
    }
}

/// Returns the queries of all data configs of a run, as they join in one session.
fn register_all(config: &BacktestRunConfig) -> (r: Vec<DataQuery>)
    ensures
        queries_view(r@) == registrations(*config),
{
    let mut queries: Vec<DataQuery> = Vec::new();
    let mut i: usize = 0;
    while i < config.data.len()
        invariant
            i <= config.data.len(),
            queries@.len() == i,
            forall|j: int|
                0 <= j < i ==> (#[trigger] queries@[j])@ == registration_for(
                    config.data@[j],
                    config.start,
                    config.end,
                ),
        decreases config.data.len() - i,
    {
        queries.push(dispatch_register_query(&config.data[i], config.start, config.end));
        i += 1;
    }
    assert(queries_view(queries@) =~= registrations(*config));
    queries
}

/// Advances a run in chunks.
pub fn run_streaming<T>(
    config: &BacktestRunConfig,
    chunk_size: usize,
    state: StreamingState<T>,
    event: StepEvent<T>,
) -> (r: Step<StreamingState<T>, T>)
    requires
        state.wf(*config, chunk_size),
        streaming_accepts(state, event),
    ensures
        r.state.wf(*config, chunk_size),
        streaming_rule(*config, chunk_size, state, event, r.state, r.warnings@, r.action@),
{
    let mut warnings: Vec<Warning> = Vec::new();
    match state {
        StreamingState::Begin => {
            if config.data.len() == 0 {
                Step {
                    state: StreamingState::Finished,
                    warnings,
                    action: StepAction::Complete(
                        Err(NodeError::NoDataConfigs { id: config.id.clone() }),
                    ),
                }
            } else if config.data.len() == 1 {
                Step {
                    state: StreamingState::Opening { order: StreamOrder::Kept },
                    warnings,
                    action: StepAction::Open(
                        StreamSource::Query(load_data(&config.data[0], config.start, config.end)),
                    ),
                }
            } else if can_share_catalog(config.data.as_slice()) {
                Step {
                    state: StreamingState::Opening { order: StreamOrder::Restored },
                    warnings,
                    action: StepAction::Open(
                        StreamSource::Shared {
                            catalog: create_catalog(&config.data[0]),
                            fresh_session: true,
                            queries: register_all(config),
                        },
                    ),
                }
            } else {
                Step {
                    state: StreamingState::Loading { index: 0, batches: Vec::new() },
                    warnings,
                    action: StepAction::Load(load_data(&config.data[0], config.start, config.end)),
                }
            }
        },
        StreamingState::Opening { order } => match event {
            StepEvent::Failed(message) => Step {
                state: StreamingState::Finished,
                warnings,
                action: StepAction::Complete(Err(NodeError::Outside { message })),
            },
            _ => {
                let stream = StreamState::new(config);
                match order {
                    StreamOrder::Kept => {
                        let step = stream_chunks(config, chunk_size, stream, StepEvent::Begin);
                        Step {
                            state: StreamingState::Streaming { verifier: None, stream: step.state },
                            warnings: step.warnings,
                            action: step.action,
                        }
                    },
                    StreamOrder::Restored => {
                        let step = stream_chunks_resort(
                            config,
                            chunk_size,
                            stream,
                            StepEvent::Begin,
                        );
                        let verifier = OrderingVerifier::new(MERGED_STREAM);
                        assert(verifier.seen() =~= times(step.state.pulled@));
                        Step {
                            state: StreamingState::Streaming {
                                verifier: Some(verifier),
                                stream: step.state,
                            },
                            warnings: step.warnings,
                            action: step.action,
                        }
                    },
                }
            },
        },
        StreamingState::Loading { index, batches } => match event {
            StepEvent::Loaded(Ok(batch)) => {
                let mut batches = batches;
                if batch.len() == 0 {
                    warnings.push(Warning::NoData { data_type: config.data[index].data_type });
                }
                batches.push(batch);
                let count: usize = config.data.len();
                if index + 1 < count {
                    Step {
                        state: StreamingState::Loading { index: index + 1, batches },
                        warnings,
                        action: StepAction::Load(
                            load_data(&config.data[index + 1], config.start, config.end),
                        ),
                    }
                } else {
                    Step {
                        state: StreamingState::Opening { order: StreamOrder::Kept },
                        warnings,
                        action: StepAction::Open(
                            StreamSource::Items(load_and_merge_data(batches)),
                        ),
                    }
                }
            },
            StepEvent::Loaded(Err(message)) => Step {
                state: StreamingState::Finished,
                warnings,
                action: StepAction::Complete(Err(NodeError::Outside { message })),
            },
            _ => vstd::pervasive::unreached(),
        },
        StreamingState::Streaming { verifier, stream } => match verifier {
            None => {
                let step = stream_chunks(config, chunk_size, stream, event);
                Step {
                    state: StreamingState::Streaming { verifier: None, stream: step.state },
                    warnings: step.warnings,
                    action: step.action,
                }
            },
            Some(verifier) => {
                let mut verifier = verifier;
                if let StepEvent::Item(Some(item)) = &event {
                    if let Some(warning) = verifier.next(item.ts_init) {
                        warnings.push(warning);
                    }
                }
                let ghost ahead = warnings@;
                let mut step = stream_chunks_resort(config, chunk_size, stream, event);
                let ghost behind = step.warnings@;
                warnings.append(&mut step.warnings);
                assert(warnings@.skip(ahead.len() as int) =~= behind);
                assert(ahead.len() == 0 ==> warnings@ =~= behind);
                assert(verifier.seen() =~= times(step.state.pulled@));
                Step {
                    state: StreamingState::Streaming {
                        verifier: Some(verifier),
                        stream: step.state,
                    },
                    warnings,
                    action: step.action,
                }
            },
        },
        StreamingState::Finished => vstd::pervasive::unreached(),
    }
}

} // verus!
