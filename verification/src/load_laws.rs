//! What holds of every run as to the data that it loads and hands over, told by the row of
//! what is asked for and of what is told in return.
use crate::catalog::{
    law_shared_backend_is_one_catalog, load_for, registration_for, shares_backend, LoadRequest,
};
use crate::catalog_laws::{
    asks_for, law_catalog_is_the_one_configured, law_load_goes_to_its_own_catalog,
    law_registration_asks_for_what_is_configured, law_shared_iff_settings_agree, opened_at,
    options_agree, texts_agree,
};
use crate::config::BacktestRunConfig;
use crate::data::{at_time, concatenated, is_stable_sort, lemma_sort_ends_latest, Data};
use crate::error::NodeError;
use crate::oneshot::{oneshot_accepts, oneshot_rule, OneshotPhase, OneshotState};
use crate::report::Warning;
use crate::step::{queries_view, ActionView, CallView, StepAction, StepEvent, StreamSource};
use crate::stream::StreamOrder;
use crate::streaming::{registrations, streaming_accepts, streaming_rule, StreamingState};
use crate::time::UnixNanos;
use vstd::prelude::*;

verus! {

/// All steps within a run, from the first on: the state ahead of each step and behind the
/// last, and the event, the warnings and the action of each.
pub struct StepTrace<S, T> {
    pub states: Seq<S>,
    pub events: Seq<StepEvent<T>>,
    pub warnings: Seq<Seq<Warning>>,
    pub actions: Seq<StepAction<T>>,
}

/// The loads that were asked for.
pub open spec fn loads_of<T>(actions: Seq<StepAction<T>>) -> Seq<LoadRequest>
    decreases actions.len(),
{
    if actions.len() == 0 {
        Seq::empty()
    } else {
        match actions.last() {
            StepAction::Load(request) => loads_of(actions.drop_last()).push(request),
            _ => loads_of(actions.drop_last()),
        }
    }
}

/// What the loads that succeeded yielded.
pub open spec fn batches_of<T>(events: Seq<StepEvent<T>>) -> Seq<Seq<Data<T>>>
    decreases events.len(),
{
    if events.len() == 0 {
        Seq::empty()
    } else {
        match events.last() {
            StepEvent::Loaded(Ok(batch)) => batches_of(events.drop_last()).push(batch@),
            _ => batches_of(events.drop_last()),
        }
    }
}

/// The engine calls that were asked for.
pub open spec fn calls_of<T>(actions: Seq<StepAction<T>>) -> Seq<CallView<T>>
    decreases actions.len(),
{
    if actions.len() == 0 {
        Seq::empty()
    } else {
        match actions.last()@ {
            ActionView::Engine(calls) => calls_of(actions.drop_last()) + calls,
            _ => calls_of(actions.drop_last()),
        }
    }
}

/// All that was reported.
pub open spec fn reports_of(warnings: Seq<Seq<Warning>>) -> Seq<Warning>
    decreases warnings.len(),
{
    if warnings.len() == 0 {
        Seq::empty()
    } else {
        reports_of(warnings.drop_last()) + warnings.last()
    }
}

/// The calls that hand each batch over in turn, under the client of its data config, unless it
/// is empty.
pub open spec fn handing_over<T>(
    config: BacktestRunConfig,
    batches: Seq<Seq<Data<T>>>,
) -> Seq<CallView<T>>
    decreases batches.len(),
{
    if batches.len() == 0 {
        Seq::empty()
    } else if batches.last().len() == 0 {
        handing_over(config, batches.drop_last())
    } else {
        handing_over(config, batches.drop_last()).push(
            CallView::AddData {
                data: batches.last(),
                client_id: config.data@[batches.len() - 1].client_id,
                validate: false,
                sort: false,
            },
        )
    }
}

/// One report for each batch that is empty, which names the kind of data of its data config.
pub open spec fn reports_of_empty<T>(
    config: BacktestRunConfig,
    batches: Seq<Seq<Data<T>>>,
) -> Seq<Warning>
    decreases batches.len(),
{
    if batches.len() == 0 {
        Seq::empty()
    } else if batches.last().len() == 0 {
        reports_of_empty(config, batches.drop_last()).push(
            Warning::NoData { data_type: config.data@[batches.len() - 1].data_type },
        )
    } else {
        reports_of_empty(config, batches.drop_last())
    }
}

/// Whether loads are those of the first data configs, one each and in order: each goes to the
/// catalog that its data config names, and asks for the data that its data config names.
pub open spec fn loads_in_order(config: BacktestRunConfig, loads: Seq<LoadRequest>) -> bool {
    &&& loads.len() <= config.data@.len()
    &&& forall|i: int|
        0 <= i < loads.len() ==> {
            &&& opened_at((#[trigger] loads[i]).catalog, config.data@[i])
            &&& asks_for(loads[i].query, config.data@[i], config.start, config.end)
            &&& loads[i].query.optimize == config.data@[i].optimize_file_loading
            &&& loads[i].query.fresh_session
        }
}

/// One more load, of the next data config, leaves loads in order.
proof fn lemma_next_load(
    config: BacktestRunConfig,
    loads: Seq<LoadRequest>,
    request: LoadRequest,
)
    requires
        loads_in_order(config, loads),
        loads.len() < config.data@.len(),
        request@ == load_for(
            config.data@[loads.len() as int],
            config.start,
            config.end,
        ),
    ensures
        loads_in_order(config, loads.push(request)),
{
    law_load_goes_to_its_own_catalog(
        config.data@[loads.len() as int],
        config.start,
        config.end,
        request,
    );
    let more = loads.push(request);
    assert forall|i: int| 0 <= i < more.len() implies {
        &&& opened_at((#[trigger] more[i]).catalog, config.data@[i])
        &&& asks_for(more[i].query, config.data@[i], config.start, config.end)
        &&& more[i].query.optimize == config.data@[i].optimize_file_loading
        &&& more[i].query.fresh_session
    } by {
        if i < loads.len() {
            assert(more[i] == loads[i]);
        }
    }
}

impl<T> StepTrace<OneshotState<T>, T> {
    /// Whether the step at a position was taken.
    pub open spec fn step_taken(self, config: BacktestRunConfig, i: int) -> bool {
        &&& oneshot_accepts(self.states[i].phase, self.events[i])
        &&& oneshot_rule(
            config,
            self.states[i],
            self.events[i],
            self.states[i + 1],
            self.warnings[i],
            self.actions[i]@,
        )
        &&& self.states[i + 1].wf(config)
    }

    /// Whether these are steps of a run over all data.
    pub open spec fn holds(self, config: BacktestRunConfig) -> bool {
        &&& self.states.len() == self.events.len() + 1
        &&& self.warnings.len() == self.events.len()
        &&& self.actions.len() == self.events.len()
        &&& self.states[0].phase is Begin
        &&& self.states[0].wf(config)
        &&& forall|i: int| 0 <= i < self.events.len() ==> #[trigger] self.step_taken(config, i)
    }
}

/// What is asked for, told and reported up to a step.
proof fn lemma_up_to_step<S, T>(trace: StepTrace<S, T>, k: int)
    requires
        0 <= k < trace.events.len(),
        trace.warnings.len() == trace.events.len(),
        trace.actions.len() == trace.events.len(),
    ensures
        loads_of(trace.actions.take(k + 1)) == match trace.actions[k] {
            StepAction::Load(request) => loads_of(trace.actions.take(k)).push(request),
            _ => loads_of(trace.actions.take(k)),
        },
        batches_of(trace.events.take(k + 1)) == match trace.events[k] {
            StepEvent::Loaded(Ok(batch)) => batches_of(trace.events.take(k)).push(batch@),
            _ => batches_of(trace.events.take(k)),
        },
        calls_of(trace.actions.take(k + 1)) == match trace.actions[k]@ {
            ActionView::Engine(calls) => calls_of(trace.actions.take(k)) + calls,
            _ => calls_of(trace.actions.take(k)),
        },
        reports_of(trace.warnings.take(k + 1)) == reports_of(trace.warnings.take(k))
            + trace.warnings[k],
{
    assert(trace.actions.take(k + 1).drop_last() =~= trace.actions.take(k));
    assert(trace.events.take(k + 1).drop_last() =~= trace.events.take(k));
    assert(trace.warnings.take(k + 1).drop_last() =~= trace.warnings.take(k));
}

/// The calls that run an engine over all data of a run.
pub open spec fn running<T>(config: BacktestRunConfig) -> Seq<CallView<T>> {
    seq![
        CallView::SortData,
        CallView::Run {
            start: config.start,
            end: config.end,
            run_id: Some(config.id),
            streaming: false,
        },
    ]
}

/// How far a run over all data has come after some steps.
proof fn lemma_oneshot_so_far<T>(
    config: BacktestRunConfig,
    trace: StepTrace<OneshotState<T>, T>,
    k: int,
)
    requires
        trace.holds(config),
        0 <= k <= trace.events.len(),
    ensures
        ({
            let loads = loads_of(trace.actions.take(k));
            let batches = batches_of(trace.events.take(k));
            let calls = calls_of(trace.actions.take(k));
            &&& trace.states[k].wf(config)
            &&& loads_in_order(config, loads)
            &&& batches.len() <= loads.len()
            &&& reports_of(trace.warnings.take(k)) == reports_of_empty(config, batches)
            &&& match trace.states[k].phase {
                OneshotPhase::Begin => k == 0,
                OneshotPhase::Loading { index } => {
                    &&& loads.len() == index + 1
                    &&& batches.len() == index
                    &&& calls == handing_over(config, batches)
                },
                OneshotPhase::Adding { index } => {
                    &&& loads.len() == index + 1
                    &&& batches.len() == index + 1
                    &&& calls == handing_over(config, batches)
                },
                OneshotPhase::Running => {
                    &&& loads.len() == config.data@.len()
                    &&& batches.len() == config.data@.len()
                    &&& calls == handing_over(config, batches) + running::<T>(config)
                },
                OneshotPhase::Finished => true,
            }
        }),
    decreases k,
{
    if k == 0 {
        assert(trace.actions.take(0) =~= Seq::empty());
        assert(trace.events.take(0) =~= Seq::empty());
        assert(trace.warnings.take(0) =~= Seq::empty());
    } else {
        let i = k - 1;
        lemma_oneshot_so_far(config, trace, i);
        assert(trace.step_taken(config, i));
        lemma_up_to_step(trace, i);
        let loads = loads_of(trace.actions.take(i));
        let batches = batches_of(trace.events.take(i));
        let calls = calls_of(trace.actions.take(i));
        if i == 0 {
            assert(trace.actions.take(0) =~= Seq::empty());
            assert(trace.events.take(0) =~= Seq::empty());
        }
        assert(config.data.len() == config.data@.len());
        assert(reports_of(trace.warnings.take(i)) + Seq::<Warning>::empty() =~= reports_of(
            trace.warnings.take(i),
        ));
        if let StepEvent::Loaded(Ok(batch)) = trace.events[i] {
            let now = batches.push(batch@);
            assert(now.drop_last() =~= batches);
            if batch@.len() == 0 {
                let report = Warning::NoData { data_type: config.data@[batches.len() as int].data_type };
                assert(reports_of(trace.warnings.take(i)) + seq![report] =~= reports_of(
                    trace.warnings.take(i),
                ).push(report));
            }
        }
        if let ActionView::Engine(more) = trace.actions[i]@ {
            if trace.states[k].phase is Adding {
                assert(calls + more =~= calls.push(more[0]));
            } else {
                assert(more =~= running::<T>(config));
            }
        }
        if let StepAction::Load(request) = trace.actions[i] {
            lemma_next_load(config, loads, request);
        }
    }
}

/// At every moment of a run over all data, the loads that were asked for are those of the
/// first data configs, one each and in order, to the catalog and for the data that each of
/// them names; and each that yielded nothing is reported by its kind of data.
pub proof fn law_oneshot_loads_each_config_in_turn<T>(
    config: BacktestRunConfig,
    trace: StepTrace<OneshotState<T>, T>,
)
    requires
        trace.holds(config),
    ensures
        loads_in_order(config, loads_of(trace.actions)),
        reports_of(trace.warnings) == reports_of_empty(config, batches_of(trace.events)),
{
    let n = trace.events.len() as int;
    lemma_oneshot_so_far(config, trace, n);
    assert(trace.actions.take(n) =~= trace.actions);
    assert(trace.events.take(n) =~= trace.events);
    assert(trace.warnings.take(n) =~= trace.warnings);
}

/// Where a run over all data completes, each data config was loaded exactly once, in order;
/// the engine was handed just what they yielded, each under its own client; and it was then
/// sorted and run, once, for the time of the run and under its ID.
pub proof fn law_oneshot_completes_over_all_data<T>(
    config: BacktestRunConfig,
    trace: StepTrace<OneshotState<T>, T>,
)
    requires
        trace.holds(config),
        trace.actions.len() > 0,
        trace.actions.last()@ == ActionView::<T>::Complete(Ok(())),
    ensures
        loads_of(trace.actions).len() == config.data@.len(),
        loads_in_order(config, loads_of(trace.actions)),
        batches_of(trace.events).len() == config.data@.len(),
        calls_of(trace.actions) == handing_over(config, batches_of(trace.events)) + running::<T>(
            config,
        ),
{
    let n = trace.events.len() as int;
    lemma_oneshot_so_far(config, trace, n - 1);
    lemma_oneshot_so_far(config, trace, n);
    assert(trace.step_taken(config, n - 1));
    lemma_up_to_step(trace, n - 1);
    assert(trace.actions.take(n) =~= trace.actions);
    assert(trace.events.take(n) =~= trace.events);
}

/// A run over all data fails only with what it was told, in its own words, and completes only
/// once the engine has run.
pub proof fn law_oneshot_ends_as_it_is_told<T>(
    config: BacktestRunConfig,
    trace: StepTrace<OneshotState<T>, T>,
    k: int,
)
    requires
        trace.holds(config),
        0 <= k < trace.actions.len(),
    ensures
        trace.events[k] matches StepEvent::Failed(message) ==> trace.actions[k]@
            == ActionView::<T>::Complete(Err(NodeError::Outside { message })),
        trace.events[k] matches StepEvent::Loaded(Err(message)) ==> trace.actions[k]@
            == ActionView::<T>::Complete(Err(NodeError::Outside { message })),
        trace.actions[k]@ matches ActionView::Complete(Err(error)) ==> match trace.events[k] {
            StepEvent::Failed(message) => error == (NodeError::Outside { message }),
            StepEvent::Loaded(Err(message)) => error == (NodeError::Outside { message }),
            _ => false,
        },
        trace.actions[k]@ == ActionView::<T>::Complete(Ok(())) ==> {
            &&& k > 0
            &&& trace.events[k] is Ran
            &&& trace.actions[k - 1]@ == ActionView::Engine(running::<T>(config))
        },
{
    assert(trace.step_taken(config, k));
    lemma_oneshot_so_far(config, trace, k);
    if k > 0 {
        assert(trace.step_taken(config, k - 1));
        if let ActionView::Engine(calls) = trace.actions[k - 1]@ {
            if trace.states[k].phase is Running {
                assert(calls =~= running::<T>(config));
            }
        }
    }
}

/// The items of one time of several batches, batch by batch.
pub open spec fn at_one_time<T>(batches: Seq<Seq<Data<T>>>, time: UnixNanos) -> Seq<Data<T>>
    decreases batches.len(),
{
    if batches.len() == 0 {
        Seq::empty()
    } else {
        at_one_time(batches.drop_last(), time) + batches.last().filter(
            |item: Data<T>| item.ts_init == time,
        )
    }
}

/// How many items several batches hold.
pub open spec fn total_length<T>(batches: Seq<Seq<Data<T>>>) -> int
    decreases batches.len(),
{
    if batches.len() == 0 {
        0
    } else {
        total_length(batches.drop_last()) + batches.last().len()
    }
}

/// Whether items are those of all batches in the order of time, and those of one time batch by
/// batch and in each in the order in which they came.
pub open spec fn merged_by_time<T>(items: Seq<Data<T>>, batches: Seq<Seq<Data<T>>>) -> bool {
    &&& forall|i: int, j: int|
        #![trigger items[i], items[j]]
        0 <= i <= j < items.len() ==> items[i].ts_init <= items[j].ts_init
    &&& items.len() == total_length(batches)
    &&& forall|time: UnixNanos| #[trigger]
        at_one_time(batches, time) == items.filter(|item: Data<T>| item.ts_init == time)
}

/// The batches that vectors hold.
pub open spec fn batch_views<T>(batches: Seq<Vec<Data<T>>>) -> Seq<Seq<Data<T>>> {
    batches.map_values(|batch: Vec<Data<T>>| batch@)
}

/// Batches in a row hold the items of each time batch by batch.
proof fn lemma_concatenated_by_time<T>(batches: Seq<Vec<Data<T>>>, time: UnixNanos)
    ensures
        concatenated(batches).filter(|item: Data<T>| item.ts_init == time) == at_one_time(
            batch_views(batches),
            time,
        ),
        concatenated(batches).len() == total_length(batch_views(batches)),
    decreases batches.len(),
{
    let keep = |item: Data<T>| item.ts_init == time;
    if batches.len() == 0 {
        reveal(Seq::filter);
        assert(concatenated(batches).filter(keep) =~= Seq::empty());
    } else {
        lemma_concatenated_by_time(batches.drop_last(), time);
        assert(batch_views(batches).drop_last() =~= batch_views(batches.drop_last()));
        Seq::filter_distributes_over_add(
            concatenated(batches.drop_last()),
            batches.last()@,
            keep,
        );
    }
}

/// Data that is merged holds every item of every batch, no other, and in the order of time;
/// items of one time stand in the order of their batches, and within a batch as they came.
pub proof fn law_merge_holds_every_batch<T>(batches: Seq<Vec<Data<T>>>, merged: Seq<Data<T>>)
    requires
        is_stable_sort(merged, concatenated(batches)),
    ensures
        merged_by_time(merged, batch_views(batches)),
{
    lemma_sort_ends_latest(merged, concatenated(batches));
    lemma_concatenated_by_time(batches, 0);
    assert forall|time: UnixNanos| #[trigger] at_one_time(batch_views(batches), time)
        == merged.filter(|item: Data<T>| item.ts_init == time) by {
        lemma_concatenated_by_time(batches, time);
        assert(at_time(merged, time) == at_time(
            concatenated(batches),
            time,
        ));
    }
}

impl<T> StepTrace<StreamingState<T>, T> {
    /// Whether the step at a position was taken.
    pub open spec fn streaming_step(
        self,
        config: BacktestRunConfig,
        chunk_size: usize,
        i: int,
    ) -> bool {
        &&& streaming_accepts(self.states[i], self.events[i])
        &&& streaming_rule(
            config,
            chunk_size,
            self.states[i],
            self.events[i],
            self.states[i + 1],
            self.warnings[i],
            self.actions[i]@,
        )
        &&& self.states[i + 1].wf(config, chunk_size)
    }

    /// Whether these are steps of a run in chunks.
    pub open spec fn streams(self, config: BacktestRunConfig, chunk_size: usize) -> bool {
        &&& self.events.len() > 0
        &&& self.states.len() == self.events.len() + 1
        &&& self.warnings.len() == self.events.len()
        &&& self.actions.len() == self.events.len()
        &&& self.states[0] is Begin
        &&& forall|i: int|
            0 <= i < self.events.len() ==> #[trigger] self.streaming_step(config, chunk_size, i)
    }
}

/// Whether all data configs have the same path, protocol and options.
pub open spec fn one_backend(config: BacktestRunConfig) -> bool {
    forall|i: int, j: int|
        #![trigger config.data@[i], config.data@[j]]
        0 <= i < config.data@.len() && 0 <= j < config.data@.len() ==> {
            let a = config.data@[i];
            let b = config.data@[j];
            &&& a.catalog_path@ == b.catalog_path@
            &&& texts_agree(a.catalog_fs_protocol, b.catalog_fs_protocol)
            &&& options_agree(a.catalog_fs_storage_options, b.catalog_fs_storage_options)
            &&& options_agree(
                a.catalog_fs_rust_storage_options,
                b.catalog_fs_rust_storage_options,
            )
        }
}

/// How a run in chunks begins: it fails without data configs; a single data config is streamed
/// from the catalog that it names; several of one backend are registered in one fresh session
/// of their catalog, each with the data that it names and in order; and of several backends,
/// the first data config is loaded.
pub proof fn law_streaming_begins_by_its_configs<T>(
    config: BacktestRunConfig,
    chunk_size: usize,
    trace: StepTrace<StreamingState<T>, T>,
)
    requires
        trace.streams(config, chunk_size),
    ensures
        trace.warnings[0].len() == 0,
        config.data@.len() == 0 ==> trace.actions[0]@ == ActionView::<T>::Complete(
            Err(NodeError::NoDataConfigs { id: config.id }),
        ),
        config.data@.len() == 1 ==> {
            &&& trace.actions[0] matches StepAction::Open(StreamSource::Query(request))
            &&& opened_at(request.catalog, config.data@[0])
            &&& asks_for(request.query, config.data@[0], config.start, config.end)
            &&& request.query.optimize == config.data@[0].optimize_file_loading
            &&& request.query.fresh_session
        },
        config.data@.len() > 1 && one_backend(config) ==> {
            &&& trace.actions[0] matches StepAction::Open(
                StreamSource::Shared { catalog, fresh_session, queries },
            )
            &&& fresh_session
            &&& queries@.len() == config.data@.len()
            &&& forall|i: int|
                0 <= i < queries@.len() ==> {
                    &&& opened_at(catalog, config.data@[i])
                    &&& asks_for(#[trigger] queries@[i], config.data@[i], config.start, config.end)
                    &&& queries@[i].optimize
                    &&& !queries@[i].fresh_session
                }
        },
        config.data@.len() > 1 && !one_backend(config) ==> trace.actions[0] is Load,
{
    assert(trace.streaming_step(config, chunk_size, 0));
    law_shared_iff_settings_agree(config.data@);
    if config.data@.len() == 1 {
        if let StepAction::Open(StreamSource::Query(request)) = trace.actions[0] {
            law_load_goes_to_its_own_catalog(config.data@[0], config.start, config.end, request);
        }
    } else if config.data@.len() > 1 && one_backend(config) {
        assert(shares_backend(config.data@));
        assert(trace.actions[0] is Open);
        assert(trace.actions[0]->Open_0 is Shared);
        if let StepAction::Open(StreamSource::Shared { catalog, queries, .. }) = trace.actions[0] {
            let views = registrations(config);
            assert(queries_view(queries@) == views);
            assert(queries@.len() == views.len());
            assert(views.len() == config.data@.len());
            assert forall|i: int| 0 <= i < queries@.len() implies {
                &&& opened_at(catalog, config.data@[i])
                &&& asks_for(#[trigger] queries@[i], config.data@[i], config.start, config.end)
                &&& queries@[i].optimize
                &&& !queries@[i].fresh_session
            } by {
                assert(queries_view(queries@)[i] == queries@[i]@);
                assert(views[i] == registration_for(config.data@[i], config.start, config.end));
                law_registration_asks_for_what_is_configured(
                    config.data@[i],
                    config.start,
                    config.end,
                    queries@[i],
                );
                law_shared_backend_is_one_catalog(config.data@, 0, i);
                law_catalog_is_the_one_configured(config.data@[i], catalog);
            }
        }
    }
}

/// How far a run in chunks over several backends has come after some steps.
proof fn lemma_eager_so_far<T>(
    config: BacktestRunConfig,
    chunk_size: usize,
    trace: StepTrace<StreamingState<T>, T>,
    k: int,
)
    requires
        trace.streams(config, chunk_size),
        config.data@.len() > 1,
        !one_backend(config),
        0 <= k <= trace.events.len(),
    ensures
        ({
            let loads = loads_of(trace.actions.take(k));
            let batches = batches_of(trace.events.take(k));
            &&& loads_in_order(config, loads)
            &&& batches.len() <= loads.len()
            &&& match trace.states[k] {
                StreamingState::Begin => k == 0,
                StreamingState::Loading { index, batches: held } => {
                    &&& loads.len() == index + 1
                    &&& batches.len() == index
                    &&& batch_views(held@) == batches
                    &&& reports_of(trace.warnings.take(k)) == reports_of_empty(config, batches)
                },
                StreamingState::Opening { order } => {
                    &&& order == StreamOrder::Kept
                    &&& loads.len() == config.data@.len()
                    &&& batches.len() == config.data@.len()
                    &&& reports_of(trace.warnings.take(k)) == reports_of_empty(config, batches)
                    &&& k > 0
                    &&& trace.actions[k - 1] matches StepAction::Open(StreamSource::Items(items))
                    &&& merged_by_time(items@, batches)
                },
                StreamingState::Streaming { verifier, .. } => {
                    &&& verifier is None
                    &&& loads.len() == config.data@.len()
                    &&& batches.len() == config.data@.len()
                },
                StreamingState::Finished => true,
            }
        }),
    decreases k,
{
    if k == 0 {
        assert(trace.actions.take(0) =~= Seq::empty());
        assert(trace.events.take(0) =~= Seq::empty());
        assert(trace.warnings.take(0) =~= Seq::empty());
    } else {
        let i = k - 1;
        lemma_eager_so_far(config, chunk_size, trace, i);
        assert(trace.streaming_step(config, chunk_size, i));
        law_shared_iff_settings_agree(config.data@);
        lemma_up_to_step(trace, i);
        let loads = loads_of(trace.actions.take(i));
        let batches = batches_of(trace.events.take(i));
        if i == 0 {
            assert(trace.actions.take(0) =~= Seq::empty());
            assert(trace.events.take(0) =~= Seq::empty());
            assert(trace.warnings.take(0) =~= Seq::empty());
            assert(reports_of(trace.warnings.take(k)) =~= Seq::empty());
            if let StreamingState::Loading { batches: held, .. } = trace.states[k] {
                assert(batch_views(held@) =~= Seq::empty());
            }
        }
        assert(config.data.len() == config.data@.len());
        let reports = reports_of(trace.warnings.take(i));
        if let (StreamingState::Loading { batches: held, .. }, StepEvent::Loaded(Ok(batch))) = (
            trace.states[i],
            trace.events[i],
        ) {
            let now = batches.push(batch@);
            assert(now.drop_last() =~= batches);
            assert(batch_views(held@.push(batch)) =~= now);
            if batch@.len() == 0 {
                let report = Warning::NoData {
                    data_type: config.data@[batches.len() as int].data_type,
                };
                assert(reports + seq![report] =~= reports.push(report));
            } else {
                assert(reports + Seq::<Warning>::empty() =~= reports);
            }
            if let StepAction::Open(StreamSource::Items(items)) = trace.actions[i] {
                law_merge_holds_every_batch(held@.push(batch), items@);
            }
        }
        if let StepAction::Load(request) = trace.actions[i] {
            lemma_next_load(config, loads, request);
        }
    }
}

/// A run in chunks over several backends asks for one load for each data config, in order: the
/// load at a position goes to the catalog that the data config at that position names, and
/// asks for its kind of data, its identifiers and its filter. When the merged items are
/// opened, each data config has been loaded exactly once, and the items are all that they
/// yielded, merged by time.
pub proof fn law_eager_stream_loads_each_config_once<T>(
    config: BacktestRunConfig,
    chunk_size: usize,
    trace: StepTrace<StreamingState<T>, T>,
)
    requires
        trace.streams(config, chunk_size),
        config.data@.len() > 1,
        !one_backend(config),
    ensures
        loads_in_order(config, loads_of(trace.actions)),
        trace.actions.last() is Open ==> {
            &&& loads_of(trace.actions).len() == config.data@.len()
            &&& batches_of(trace.events).len() == config.data@.len()
            &&& reports_of(trace.warnings) == reports_of_empty(config, batches_of(trace.events))
            &&& trace.actions.last() matches StepAction::Open(StreamSource::Items(items))
            &&& merged_by_time(items@, batches_of(trace.events))
        },
        trace.actions.last() is Pull || trace.actions.last() is Engine ==> loads_of(
            trace.actions,
        ).len() == config.data@.len(),
{
    let n = trace.events.len() as int;
    lemma_eager_so_far(config, chunk_size, trace, n);
    lemma_eager_so_far(config, chunk_size, trace, n - 1);
    assert(trace.streaming_step(config, chunk_size, n - 1));
    law_shared_iff_settings_agree(config.data@);
    lemma_up_to_step(trace, n - 1);
    assert(trace.actions.take(n) =~= trace.actions);
    assert(trace.events.take(n) =~= trace.events);
    assert(trace.warnings.take(n) =~= trace.warnings);
}

/// Until its stream is open, a run in chunks over several data configs of one backend restores
/// the order of its stream, and every other keeps it.
pub proof fn law_order_is_restored_for_one_backend<T>(
    config: BacktestRunConfig,
    chunk_size: usize,
    trace: StepTrace<StreamingState<T>, T>,
    k: int,
)
    requires
        trace.streams(config, chunk_size),
        0 <= k <= trace.events.len(),
    ensures
        trace.states[k] matches StreamingState::Opening { order } ==> (order
            == StreamOrder::Restored <==> config.data@.len() > 1 && one_backend(config)),
        trace.states[k] is Streaming ==> (trace.states[k].order() == StreamOrder::Restored
            <==> config.data@.len() > 1 && one_backend(config)),
        trace.states[k] is Loading ==> config.data@.len() > 1 && !one_backend(config),
        trace.states[k] is Begin <==> k == 0,
    decreases k,
{
    if k > 0 {
        law_order_is_restored_for_one_backend(config, chunk_size, trace, k - 1);
        assert(trace.streaming_step(config, chunk_size, k - 1));
        law_shared_iff_settings_agree(config.data@);
        if one_backend(config) {
            assert(shares_backend(config.data@));
        }
    }
}

/// A run in chunks fails with what it was told, in its own words; it fails otherwise only for
/// want of data configs; and it completes only once the engine was told to end the run, or was
/// asked to shut down.
pub proof fn law_streaming_ends_as_it_is_told<T>(
    config: BacktestRunConfig,
    chunk_size: usize,
    trace: StepTrace<StreamingState<T>, T>,
    k: int,
)
    requires
        trace.streams(config, chunk_size),
        0 <= k < trace.actions.len(),
    ensures
        trace.events[k] matches StepEvent::Failed(message) ==> trace.actions[k]@
            == ActionView::<T>::Complete(Err(NodeError::Outside { message })),
        trace.events[k] matches StepEvent::Loaded(Err(message)) ==> trace.actions[k]@
            == ActionView::<T>::Complete(Err(NodeError::Outside { message })),
        trace.actions[k]@ matches ActionView::Complete(Err(error)) ==> match trace.events[k] {
            StepEvent::Failed(message) => error == (NodeError::Outside { message }),
            StepEvent::Loaded(Err(message)) => error == (NodeError::Outside { message }),
            StepEvent::Begin => config.data@.len() == 0,
            _ => false,
        },
        trace.actions[k]@ == ActionView::<T>::Complete(Ok(())) ==> {
            &&& k > 0
            &&& trace.events[k] matches StepEvent::Ran { shutdown }
            &&& trace.actions[k - 1]@ matches ActionView::Engine(calls)
            &&& shutdown || calls == seq![CallView::<T>::End]
        },
        trace.events[k] is Opened ==> trace.actions[k]@ == ActionView::<T>::Pull,
{
    assert(trace.streaming_step(config, chunk_size, k));
    law_order_is_restored_for_one_backend(config, chunk_size, trace, k);
    if k > 0 {
        assert(trace.streaming_step(config, chunk_size, k - 1));
    }
}

} // verus!
