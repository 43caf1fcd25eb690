//! Runs an engine once over all data of a run.
use crate::catalog::{copy_text, load_data, load_for};
use crate::config::BacktestRunConfig;
use crate::data::Data;
use crate::error::NodeError;
use crate::report::Warning;
use crate::step::{
    calls_view, failure, step_reply, ActionView, CallView, EngineCall, Step, StepAction, StepEvent,
};
use vstd::prelude::*;

verus! {

/// What a run over all data is waiting for.
#[derive(Debug, Clone, Copy, PartialEq, Eq, Structural)]
pub enum OneshotPhase {
    /// To be begun.
    Begin,
    /// The data of a data config.
    Loading { index: usize },
    /// The engine, which takes the data of a data config.
    Adding { index: usize },
    /// The engine, which runs.
    Running,
    /// Nothing.
    Finished,
}

/// How far a run over all data has come.
pub struct OneshotState<T> {
    pub phase: OneshotPhase,
    /// The data that was loaded, config by config.
    pub loaded: Ghost<Seq<Seq<Data<T>>>>,
    /// The calls that the engine was asked to make.
    pub calls: Ghost<Seq<CallView<T>>>,
}

/// The call that hands the data of a data config to the engine.
pub open spec fn add_call<T>(
    config: BacktestRunConfig,
    index: int,
    data: Seq<Data<T>>,
) -> CallView<T> {
    CallView::AddData {
        data,
        client_id: config.data@[index].client_id,
        validate: false,
        sort: false,
    }
}

/// The calls that run the engine once it has all data.
pub open spec fn run_calls<T>(config: BacktestRunConfig) -> Seq<CallView<T>> {
    seq![
        CallView::SortData,
        CallView::Run {
            start: config.start,
            end: config.end,
            run_id: Some(config.id),
            streaming: false,
        },
    ]
}

/// The calls that hand over what was loaded, config by config, leaving out what is empty.
pub open spec fn add_calls<T>(
    config: BacktestRunConfig,
    loaded: Seq<Seq<Data<T>>>,
) -> Seq<CallView<T>>
    decreases loaded.len(),
{
    if loaded.len() == 0 {
        Seq::empty()
    } else {
        let ahead = add_calls(config, loaded.drop_last());
        if loaded.last().len() == 0 {
            ahead
        } else {
            ahead.push(add_call(config, loaded.len() - 1, loaded.last()))
        }
    }
}

/// Whether an event is a reply to what the run is waiting for.
pub open spec fn oneshot_accepts<T>(phase: OneshotPhase, event: StepEvent<T>) -> bool {
    match phase {
        OneshotPhase::Begin => event is Begin,
        OneshotPhase::Loading { .. } => event is Loaded,
        OneshotPhase::Adding { .. } => event is Ran || event is Failed,
        OneshotPhase::Running => event is Ran || event is Failed,
        OneshotPhase::Finished => false,
    }
}

impl<T> OneshotState<T> {
    /// What holds of a run over all data until it is over: as many configs were loaded as
    /// the phase says, and what they yielded was handed over, before the engine is run.
    pub open spec fn wf(self, config: BacktestRunConfig) -> bool {
        let data = config.data@.len();
        match self.phase {
            OneshotPhase::Begin => self.loaded@.len() == 0 && self.calls@.len() == 0,
            OneshotPhase::Loading { index } => {
                &&& index < data
                &&& self.loaded@.len() == index
                &&& self.calls@ == add_calls(config, self.loaded@)
            },
            OneshotPhase::Adding { index } => {
                &&& index < data
                &&& self.loaded@.len() == index + 1
                &&& self.calls@ == add_calls(config, self.loaded@)
            },
            OneshotPhase::Running => {
                &&& self.loaded@.len() == data
                &&& self.calls@ == add_calls(config, self.loaded@) + run_calls(config)
            },
            OneshotPhase::Finished => true,
        }
    }

    /// Returns the state of a run that is yet to begin.
    pub fn new() -> (r: Self)
        ensures
            r.phase is Begin,
            forall|config: BacktestRunConfig| #[trigger] r.wf(config),
    {
        OneshotState {
            phase: OneshotPhase::Begin,
            loaded: Ghost(Seq::empty()),
            calls: Ghost(Seq::empty()),
        }
    }
}

/// What follows once the data configs before `index` are dealt with: the next one is
/// loaded, or the engine is run.
pub open spec fn load_or_run<T>(
    config: BacktestRunConfig,
    index: int,
    phase: OneshotPhase,
    action: ActionView<T>,
) -> bool {
    if index < config.data@.len() {
        &&& phase == OneshotPhase::Loading { index: index as usize }
        &&& action == ActionView::<T>::Load(load_for(config.data@[index], config.start, config.end))
    } else {
        &&& phase is Running
        &&& action == ActionView::<T>::Engine(run_calls(config))
    }
}

/// The engine calls that an action asks for.
pub open spec fn calls_asked<T>(action: ActionView<T>) -> Seq<CallView<T>> {
    match action {
        ActionView::Engine(calls) => calls,
        _ => Seq::empty(),
    }
}

/// How a run over all data is advanced by an event.
pub open spec fn oneshot_rule<T>(
    config: BacktestRunConfig,
    before: OneshotState<T>,
    event: StepEvent<T>,
    after: OneshotState<T>,
    warnings: Seq<Warning>,
    action: ActionView<T>,
) -> bool {
    &&& after.calls@ == before.calls@ + calls_asked(action)
    &&& match (before.phase, event) {
        (OneshotPhase::Begin, StepEvent::Begin) => {
            &&& after.loaded@ == before.loaded@
            &&& warnings == Seq::<Warning>::empty()
            &&& load_or_run(config, 0, after.phase, action)
        },
        (OneshotPhase::Loading { index }, StepEvent::Loaded(Ok(data))) => {
            &&& after.loaded@ == before.loaded@.push(data@)
            &&& if data@.len() == 0 {
                &&& warnings == seq![
                    Warning::NoData { data_type: config.data@[index as int].data_type },
                ]
                &&& load_or_run(config, index + 1, after.phase, action)
            } else {
                &&& warnings == Seq::<Warning>::empty()
                &&& after.phase == OneshotPhase::Adding { index }
                &&& action == ActionView::Engine(seq![add_call(config, index as int, data@)])
            }
        },
        (OneshotPhase::Adding { index }, StepEvent::Ran { .. }) => {
            &&& after.loaded@ == before.loaded@
            &&& warnings == Seq::<Warning>::empty()
            &&& load_or_run(config, index + 1, after.phase, action)
        },
        (OneshotPhase::Running, StepEvent::Ran { .. }) => {
            &&& after.loaded@ == before.loaded@
            &&& warnings == Seq::<Warning>::empty()
            &&& after.phase is Finished
            &&& action == ActionView::<T>::Complete(Ok(()))
        },
        (_, StepEvent::Loaded(Err(message))) | (_, StepEvent::Failed(message)) => {
            &&& after.loaded@ == before.loaded@
            &&& warnings == Seq::<Warning>::empty()
            &&& after.phase is Finished
            &&& action == failure::<T>(message)
        },
        _ => false,
    }
}

/// Loads the data config at `index`, or runs the engine if there is none.
fn load_next<T>(config: &BacktestRunConfig, index: usize, warnings: Vec<Warning>, loaded: Ghost<
    Seq<Seq<Data<T>>>,
>) -> (r: Step<OneshotState<T>, T>)
    requires
        index <= config.data@.len(),
        loaded@.len() == index,
    ensures
        r.state.wf(*config),
        r.state.loaded@ == loaded@,
        r.warnings@ == warnings@,
        load_or_run(*config, index as int, r.state.phase, r.action@),
        r.state.calls@ == add_calls(*config, loaded@) + calls_asked(r.action@),
{
    let ghost calls = add_calls(*config, loaded@);
    assert(calls + Seq::empty() =~= calls);
    if index < config.data.len() {
        Step {
            state: OneshotState {
                phase: OneshotPhase::Loading { index },
                loaded,
                calls: Ghost(calls),
            },
            warnings,
            action: StepAction::Load(load_data(&config.data[index], config.start, config.end)),
        }
    } else {
        let ghost calls = calls + run_calls(*config);
        let script = vec![
            EngineCall::SortData,
            EngineCall::Run {
                start: config.start,
                end: config.end,
                run_id: Some(config.id.clone()),
                streaming: false,
            },
        ];
        assert(calls_view(script@) =~= run_calls::<T>(*config));
        Step {
            state: OneshotState { phase: OneshotPhase::Running, loaded, calls: Ghost(calls) },
            warnings,
            action: StepAction::Engine(script),
        }
    }
}

/// Advances a run over all data: each data config is loaded and handed to the engine in
/// turn, the engine sorts what it was given, and runs once.
pub fn run_oneshot<T>(
    config: &BacktestRunConfig,
    state: OneshotState<T>,
    event: StepEvent<T>,
) -> (r: Step<OneshotState<T>, T>)
    requires
        state.wf(*config),
        oneshot_accepts(state.phase, event),
    ensures
        r.state.wf(*config),
        oneshot_rule(*config, state, event, r.state, r.warnings@, r.action@),
{
    let mut warnings: Vec<Warning> = Vec::new();
    let ghost loaded = state.loaded@;
    let ghost calls = state.calls@;
    assert(config.data.len() == config.data@.len());
    assert(calls + Seq::empty() =~= calls);
    match event {
        StepEvent::Begin => {
            assert(loaded =~= Seq::empty());
            load_next(config, 0, warnings, Ghost(loaded))
        },
        StepEvent::Loaded(Ok(data)) => {
            let index: usize = match state.phase {
                OneshotPhase::Loading { index } => index,
                _ => vstd::pervasive::unreached(),
            };
            let ghost now = loaded.push(data@);
            assert(now.drop_last() =~= loaded);
            if data.len() == 0 {
                warnings.push(Warning::NoData { data_type: config.data[index].data_type });
                return load_next(config, index + 1, warnings, Ghost(now));
            }
            let ghost call = add_call(*config, index as int, data@);
            let script = vec![
                EngineCall::AddData {
                    data,
                    client_id: copy_text(&config.data[index].client_id),
                    validate: false,
                    sort: false,
                },
            ];
            assert(calls_view(script@) =~= seq![call]);
            assert(calls.push(call) =~= calls + seq![call]);
            Step {
                state: OneshotState {
                    phase: OneshotPhase::Adding { index },
                    loaded: Ghost(now),
                    calls: Ghost(calls.push(call)),
                },
                warnings,
                action: StepAction::Engine(script),
            }
        },
        StepEvent::Ran { .. } => match state.phase {
            OneshotPhase::Adding { index } => load_next(config, index + 1, warnings, Ghost(loaded)),
            _ => Step {
                state: OneshotState {
                    phase: OneshotPhase::Finished,
                    loaded: Ghost(loaded),
                    calls: Ghost(calls),
                },
                warnings,
                action: StepAction::Complete(Ok(())),
            },
        },
        StepEvent::Loaded(Err(message)) | StepEvent::Failed(message) => Step {
            state: OneshotState {
                phase: OneshotPhase::Finished,
                loaded: Ghost(loaded),
                calls: Ghost(calls),
            },
            warnings,
            action: StepAction::Complete(Err(NodeError::Outside { message })),
        },
        _ => vstd::pervasive::unreached(),
    }
}

/// Where a run over all data stands, as a number.
pub open spec fn oneshot_position(phase: OneshotPhase) -> int {
    match phase {
        OneshotPhase::Begin => -1,
        OneshotPhase::Loading { index } => 2 * index,
        OneshotPhase::Adding { index } => 2 * index + 1,
        OneshotPhase::Running => 2 * usize::MAX + 2,
        OneshotPhase::Finished => 2 * usize::MAX + 3,
    }
}

/// A run over all data always moves forward, through its data configs in order. So it comes
/// to an end.
pub proof fn law_oneshot_moves_forward<T>(
    config: BacktestRunConfig,
    before: OneshotState<T>,
    event: StepEvent<T>,
    after: OneshotState<T>,
    warnings: Seq<Warning>,
    action: ActionView<T>,
)
    requires
        before.wf(config),
        oneshot_accepts(before.phase, event),
        oneshot_rule(config, before, event, after, warnings, action),
    ensures
        oneshot_position(before.phase) < oneshot_position(after.phase),
{
    assert(config.data.len() == config.data@.len());
}

/// Whatever a run over all data asks for, it takes every reply to that, and nothing else.
pub proof fn law_oneshot_takes_every_reply<T>(
    config: BacktestRunConfig,
    before: OneshotState<T>,
    event: StepEvent<T>,
    after: OneshotState<T>,
    warnings: Seq<Warning>,
    action: ActionView<T>,
    reply: StepEvent<T>,
)
    requires
        oneshot_rule(config, before, event, after, warnings, action),
    ensures
        oneshot_accepts(after.phase, reply) <==> step_reply(action, reply),
{
    if let ActionView::Engine(calls) = action {
        let last = calls[calls.len() - 1];
        assert(last is AddData || last is Run);
    }
}

/// All data that a row of engine calls hands over.
pub open spec fn data_handed<T>(calls: Seq<CallView<T>>) -> Seq<Data<T>>
    decreases calls.len(),
{
    if calls.len() == 0 {
        Seq::empty()
    } else {
        let ahead = data_handed(calls.drop_last());
        match calls.last() {
            CallView::AddData { data, .. } => ahead + data,
            _ => ahead,
        }
    }
}

/// All data that was loaded.
pub open spec fn data_loaded<T>(loaded: Seq<Seq<Data<T>>>) -> Seq<Data<T>>
    decreases loaded.len(),
{
    if loaded.len() == 0 {
        Seq::empty()
    } else {
        data_loaded(loaded.drop_last()) + loaded.last()
    }
}

/// What was loaded is what was handed over.
proof fn lemma_loaded_is_handed<T>(config: BacktestRunConfig, loaded: Seq<Seq<Data<T>>>)
    ensures
        data_handed(add_calls(config, loaded)) == data_loaded(loaded),
    decreases loaded.len(),
{
    if loaded.len() > 0 {
        lemma_loaded_is_handed(config, loaded.drop_last());
        let ahead = add_calls(config, loaded.drop_last());
        if loaded.last().len() == 0 {
            assert(data_loaded(loaded) =~= data_loaded(loaded.drop_last()));
        } else {
            let call = add_call(config, loaded.len() - 1, loaded.last());
            assert(ahead.push(call).drop_last() =~= ahead);
        }
    }
}

/// When the engine is run, every data config has been loaded, and the engine was given
/// exactly what they yielded, config by config; it is then told to sort and run, once.
pub proof fn law_oneshot_runs_over_all_data<T>(config: BacktestRunConfig, state: OneshotState<T>)
    requires
        state.wf(config),
        state.phase is Running,
    ensures
        state.loaded@.len() == config.data@.len(),
        data_handed(state.calls@) == data_loaded(state.loaded@),
        state.calls@.len() >= 2,
        state.calls@.skip(state.calls@.len() - 2) == run_calls::<T>(config),
        forall|i: int|
            0 <= i < state.calls@.len() - 2 ==> (#[trigger] state.calls@[i]) is AddData,
{
    let ahead = add_calls(config, state.loaded@);
    let calls = state.calls@;
    lemma_loaded_is_handed(config, state.loaded@);
    lemma_add_calls_add(config, state.loaded@);
    assert(calls.drop_last().drop_last() =~= ahead);
    assert(calls.drop_last().last() == CallView::<T>::SortData);
    assert(data_handed(calls) == data_handed(calls.drop_last()));
    assert(data_handed(calls.drop_last()) == data_handed(ahead));
    assert(calls.skip(calls.len() - 2) =~= run_calls::<T>(config));
    assert forall|i: int| 0 <= i < calls.len() - 2 implies (#[trigger] calls[i]) is AddData by {
        assert(calls[i] == ahead[i]);
    }
}

/// The calls that hand over data do nothing else.
proof fn lemma_add_calls_add<T>(config: BacktestRunConfig, loaded: Seq<Seq<Data<T>>>)
    ensures
        forall|i: int|
            0 <= i < add_calls(config, loaded).len() ==> (#[trigger] add_calls(
                config,
                loaded,
            )[i]) is AddData,
    decreases loaded.len(),
{
    if loaded.len() > 0 {
        lemma_add_calls_add(config, loaded.drop_last());
    }
}

} // verus!
