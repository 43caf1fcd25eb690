//! What holds of every run of a node, told by the row of what is asked for and of what is
//! told in return.
use crate::config::BacktestRunConfig;
use crate::error::NodeError;
use crate::load_laws::{
    batches_of, calls_of, handing_over, law_oneshot_completes_over_all_data, loads_in_order,
    loads_of, running, StepTrace,
};
use crate::oneshot::{calls_asked, oneshot_rule, OneshotPhase, OneshotState};
use crate::report::Warning;
use crate::run::{
    run_accepts, run_rule, step_relayed, RunAction, RunEvent, RunPhase, RunState,
};
use crate::step::{ActionView, CallView, StepAction, StepEvent};
use crate::streaming::{streaming_rule, StreamingState};
use vstd::prelude::*;

verus! {

/// Steps of a run in a row: the IDs that have engines at each step, the state ahead of each
/// and behind the last, and the event, the warnings and the action of each.
pub struct RunRow<T, R> {
    pub configs: Seq<BacktestRunConfig>,
    pub built: Seq<Set<Seq<char>>>,
    pub states: Seq<RunState<T, R>>,
    pub events: Seq<RunEvent<T, R>>,
    pub warnings: Seq<Seq<Warning>>,
    pub actions: Seq<RunAction<T, R>>,
}

impl<T, R> RunRow<T, R> {
    /// Whether the step at a position was taken.
    pub open spec fn step_taken(self, i: int) -> bool {
        &&& self.states[i].wf(self.configs)
        &&& self.states[i + 1].wf(self.configs)
        &&& run_accepts(self.states[i].phase, self.events[i])
        &&& run_rule(
            self.configs,
            self.built[i],
            self.states[i],
            self.events[i],
            self.states[i + 1],
            self.warnings[i],
            self.actions[i]@,
        )
    }

    /// Whether these are steps of a run.
    pub open spec fn holds(self) -> bool {
        &&& self.built.len() == self.events.len()
        &&& self.states.len() == self.events.len() + 1
        &&& self.warnings.len() == self.events.len()
        &&& self.actions.len() == self.events.len()
        &&& forall|i: int| 0 <= i < self.events.len() ==> #[trigger] self.step_taken(i)
    }
}

/// What the first run config is begun with: where it has no engine, that is the failure; with
/// chunks of no items, that is; without data configs to stream, that is; and otherwise a run
/// over all data where no chunk size is given, or in chunks of just that size.
pub proof fn law_run_begins_as_configured<T, R>(row: RunRow<T, R>, k: int)
    requires
        row.holds(),
        row.configs.len() > 0,
        0 <= k < row.actions.len(),
        row.events[k] is Begin && row.built[k] != Set::<Seq<char>>::empty() || row.events[k]
            == RunEvent::<T, R>::Built(Ok(())),
    ensures
        ({
            let config = row.configs[0];
            let action = row.actions[k];
            &&& row.warnings[k].len() == 0
            &&& if !row.built[k].contains(config.id@) {
                action == RunAction::<T, R>::Finish(
                    Err(NodeError::EngineNotFound { id: config.id }),
                )
            } else if config.chunk_size == Some(0usize) {
                action == RunAction::<T, R>::Finish(Err(NodeError::ZeroChunkSize))
            } else if config.chunk_size is Some && config.data@.len() == 0 {
                action == RunAction::<T, R>::Finish(
                    Err(NodeError::NoDataConfigs { id: config.id }),
                )
            } else {
                &&& action matches RunAction::Step { config: at, .. }
                &&& at == 0
                &&& row.states[k + 1].config == 0
                &&& row.states[k + 1].results@.len() == 0
                &&& config.chunk_size is None ==> row.states[k + 1].phase is Oneshot
                &&& config.chunk_size matches Some(size) ==> {
                    &&& row.states[k + 1].phase is Streaming
                    &&& row.states[k + 1].phase->Streaming_chunk_size == size
                }
            }
        }),
{
    assert(row.step_taken(k));
}

/// The state of a run over all data that is yet to begin.
pub open spec fn oneshot_begin<T>() -> OneshotState<T> {
    OneshotState {
        phase: OneshotPhase::Begin,
        loaded: Ghost(Seq::empty()),
        calls: Ghost(Seq::empty()),
    }
}

/// The steps of a row between two positions, as steps of a run over all data.
pub open spec fn oneshot_steps<T, R>(
    row: RunRow<T, R>,
    a: int,
    b: int,
) -> StepTrace<OneshotState<T>, T> {
    StepTrace {
        states: Seq::new(
            (b - a + 1) as nat,
            |i: int|
                if i == 0 {
                    oneshot_begin()
                } else {
                    row.states[a + i].phase->Oneshot_0
                },
        ),
        events: Seq::new(
            (b - a) as nat,
            |i: int|
                if i == 0 {
                    StepEvent::Begin
                } else {
                    row.events[a + i]->Step_0
                },
        ),
        warnings: row.warnings.subrange(a, b),
        actions: Seq::new((b - a) as nat, |i: int| row.actions[a + i]->Step_action),
    }
}

/// Whether the steps of a row between two positions begin a run config and stay within a run
/// over all data.
pub open spec fn oneshot_part<T, R>(row: RunRow<T, R>, a: int, b: int) -> bool {
    &&& 0 <= a < b <= row.events.len()
    &&& !(row.states[a].phase is Oneshot || row.states[a].phase is Streaming)
    &&& forall|i: int| a < i <= b ==> (#[trigger] row.states[i]).phase is Oneshot
}

/// A run config without a chunk size is run by just the steps of a run over all data.
pub proof fn law_run_over_all_data<T, R>(row: RunRow<T, R>, a: int, b: int)
    requires
        row.holds(),
        oneshot_part(row, a, b),
    ensures
        row.states[b].config == row.states[a + 1].config,
        row.states[b].config < row.configs.len(),
        forall|i: int|
            a <= i < b ==> (#[trigger] row.actions[i] matches RunAction::Step { config, .. }
                && config == row.states[a + 1].config),
        oneshot_steps(row, a, b).holds(row.configs[row.states[b].config as int]),
    decreases b - a,
{
    let part = oneshot_steps(row, a, b);
    let at = row.states[a + 1].config;
    assert(row.step_taken(a));
    assert(row.states[a + 1].phase is Oneshot);
    let config = row.configs[at as int];
    if a + 1 < b {
        law_run_over_all_data(row, a, b - 1);
    }
    let front = oneshot_steps(row, a, b - 1);
    assert(row.step_taken(b - 1));
    assert(row.states[b].phase is Oneshot);
    assert forall|i: int| 0 <= i < part.events.len() implies #[trigger] part.step_taken(
        config,
        i,
    ) by {
        if i < b - a - 1 {
            assert(front.step_taken(config, i));
        } else if i == 0 {
            let state = row.states[a + 1].phase->Oneshot_0;
            assert(state.calls@ =~= oneshot_begin::<T>().calls@ + calls_asked(
                part.actions[0]@,
            ));
            assert(state.loaded@ =~= Seq::empty());
        } else {
            assert(row.states[b - 1].phase is Oneshot);
            lemma_oneshot_relayed(row, b - 1);
        }
    }
    assert forall|i: int| a <= i < b implies (#[trigger] row.actions[i] matches RunAction::Step {
        config,
        ..
    } && config == row.states[a + 1].config) by {
        if i == b - 1 && a + 1 < b {
            assert(row.states[b - 1].phase is Oneshot);
            lemma_oneshot_relayed(row, b - 1);
        }
    }
    if a + 1 < b {
        assert(row.states[b - 1].phase is Oneshot);
        lemma_oneshot_relayed(row, b - 1);
    }
}

/// A step within a run over all data is handed on as it is.
proof fn lemma_oneshot_relayed<T, R>(row: RunRow<T, R>, k: int)
    requires
        row.holds(),
        0 <= k < row.events.len(),
        row.states[k].phase is Oneshot,
        row.states[k + 1].phase is Oneshot,
    ensures
        row.states[k + 1].config == row.states[k].config,
        row.actions[k] is Step,
        row.actions[k]->Step_config == row.states[k].config,
        row.events[k] is Step,
        oneshot_rule(
            row.configs[row.states[k].config as int],
            row.states[k].phase->Oneshot_0,
            row.events[k]->Step_0,
            row.states[k + 1].phase->Oneshot_0,
            row.warnings[k],
            row.actions[k]->Step_action@,
        ),
{
    assert(row.step_taken(k));
    let config = row.configs[row.states[k].config as int];
    let before = row.states[k];
    let told = row.events[k]->Step_0;
    let state = before.phase->Oneshot_0;
    let (next, asked) = choose|next: OneshotState<T>, asked: ActionView<T>| #[trigger]
        oneshot_rule(config, state, told, next, row.warnings[k], asked) && step_relayed(
            config,
            before.config,
            before.results@,
            row.states[k + 1],
            RunPhase::Oneshot(next),
            asked,
            row.actions[k]@,
        );
    assert(oneshot_rule(config, state, told, next, row.warnings[k], asked));
}

/// Where the result of a run config without a chunk size is collected, each of its data
/// configs was loaded exactly once and in order, the engine was handed just what they yielded,
/// and it was sorted and run once; and the engine is to be disposed of as configured.
pub proof fn law_collected_after_all_data<T, R>(row: RunRow<T, R>, a: int, b: int)
    requires
        row.holds(),
        oneshot_part(row, a, b),
        b < row.events.len(),
        row.actions[b] is Collect,
    ensures
        ({
            let at = row.states[a + 1].config;
            let config = row.configs[at as int];
            let part = oneshot_steps(row, a, b);
            &&& row.actions[b] == (RunAction::<T, R>::Collect {
                config: at,
                dispose: config.dispose_on_completion,
            })
            &&& loads_of(part.actions).len() == config.data@.len()
            &&& loads_in_order(config, loads_of(part.actions))
            &&& batches_of(part.events).len() == config.data@.len()
            &&& calls_of(part.actions) == handing_over(config, batches_of(part.events)) + running::<
                T,
            >(config)
        }),
{
    law_run_over_all_data(row, a, b);
    assert(row.step_taken(b));
    assert(row.states[b].phase is Oneshot);
    let part = oneshot_steps(row, a, b);
    let before = row.states[b];
    let config = row.configs[before.config as int];
    let told = row.events[b]->Step_0;
    let state = before.phase->Oneshot_0;
    let (next, asked) = choose|next: OneshotState<T>, asked: ActionView<T>| #[trigger]
        oneshot_rule(config, state, told, next, row.warnings[b], asked) && step_relayed(
            config,
            before.config,
            before.results@,
            row.states[b + 1],
            RunPhase::Oneshot(next),
            asked,
            row.actions[b]@,
        );
    let n = part.events.len() as int;
    let finish = StepAction::<T>::Complete(Ok(()));
    let whole = StepTrace {
        states: part.states.push(next),
        events: part.events.push(told),
        warnings: part.warnings.push(row.warnings[b]),
        actions: part.actions.push(finish),
    };
    assert(asked == finish@);
    assert forall|i: int| 0 <= i < whole.events.len() implies #[trigger] whole.step_taken(
        config,
        i,
    ) by {
        if i < n {
            assert(part.step_taken(config, i));
        }
    }
    law_oneshot_completes_over_all_data(config, whole);
    assert(whole.actions.drop_last() =~= part.actions);
    assert(whole.events.drop_last() =~= part.events);
}

/// The steps of a row between two positions, as steps of a run in chunks.
pub open spec fn streaming_steps<T, R>(
    row: RunRow<T, R>,
    a: int,
    b: int,
) -> StepTrace<StreamingState<T>, T> {
    StepTrace {
        states: Seq::new(
            (b - a + 1) as nat,
            |i: int|
                if i == 0 {
                    StreamingState::Begin
                } else {
                    row.states[a + i].phase->Streaming_state
                },
        ),
        events: Seq::new(
            (b - a) as nat,
            |i: int|
                if i == 0 {
                    StepEvent::Begin
                } else {
                    row.events[a + i]->Step_0
                },
        ),
        warnings: row.warnings.subrange(a, b),
        actions: Seq::new((b - a) as nat, |i: int| row.actions[a + i]->Step_action),
    }
}

/// Whether the steps of a row between two positions begin a run config and stay within a run
/// in chunks.
pub open spec fn streaming_part<T, R>(row: RunRow<T, R>, a: int, b: int) -> bool {
    &&& 0 <= a < b <= row.events.len()
    &&& !(row.states[a].phase is Oneshot || row.states[a].phase is Streaming)
    &&& forall|i: int| a < i <= b ==> (#[trigger] row.states[i]).phase is Streaming
}

/// A run config with a chunk size is run by just the steps of a run in chunks of that size.
pub proof fn law_run_in_chunks<T, R>(row: RunRow<T, R>, a: int, b: int)
    requires
        row.holds(),
        streaming_part(row, a, b),
    ensures
        row.states[b].config == row.states[a + 1].config,
        row.states[b].config < row.configs.len(),
        row.configs[row.states[b].config as int].chunk_size is Some,
        forall|i: int|
            a <= i < b ==> (#[trigger] row.actions[i] matches RunAction::Step { config, .. }
                && config == row.states[a + 1].config),
        streaming_steps(row, a, b).streams(
            row.configs[row.states[b].config as int],
            row.configs[row.states[b].config as int].chunk_size->0,
        ),
    decreases b - a,
{
    let part = streaming_steps(row, a, b);
    let at = row.states[a + 1].config;
    assert(row.step_taken(a));
    assert(row.states[a + 1].phase is Streaming);
    let config = row.configs[at as int];
    let size = config.chunk_size->0;
    if a + 1 < b {
        law_run_in_chunks(row, a, b - 1);
    }
    let front = streaming_steps(row, a, b - 1);
    assert(row.step_taken(b - 1));
    assert(row.states[b].phase is Streaming);
    assert forall|i: int| 0 <= i < part.events.len() implies #[trigger] part.streaming_step(
        config,
        size,
        i,
    ) by {
        if i < b - a - 1 {
            assert(front.streaming_step(config, size, i));
        } else if i > 0 {
            assert(row.states[b - 1].phase is Streaming);
            lemma_streaming_relayed(row, b - 1);
        }
    }
    assert forall|i: int| a <= i < b implies (#[trigger] row.actions[i] matches RunAction::Step {
        config,
        ..
    } && config == row.states[a + 1].config) by {
        if i == b - 1 && a + 1 < b {
            assert(row.states[b - 1].phase is Streaming);
            lemma_streaming_relayed(row, b - 1);
        }
    }
    if a + 1 < b {
        assert(row.states[b - 1].phase is Streaming);
        lemma_streaming_relayed(row, b - 1);
    }
}

/// A step within a run in chunks is handed on as it is.
proof fn lemma_streaming_relayed<T, R>(row: RunRow<T, R>, k: int)
    requires
        row.holds(),
        0 <= k < row.events.len(),
        row.states[k].phase is Streaming,
        row.states[k + 1].phase is Streaming,
    ensures
        row.states[k + 1].config == row.states[k].config,
        row.actions[k] is Step,
        row.actions[k]->Step_config == row.states[k].config,
        row.events[k] is Step,
        row.states[k + 1].phase->Streaming_chunk_size == row.states[k].phase->Streaming_chunk_size,
        streaming_rule(
            row.configs[row.states[k].config as int],
            row.states[k].phase->Streaming_chunk_size,
            row.states[k].phase->Streaming_state,
            row.events[k]->Step_0,
            row.states[k + 1].phase->Streaming_state,
            row.warnings[k],
            row.actions[k]->Step_action@,
        ),
{
    assert(row.step_taken(k));
    let config = row.configs[row.states[k].config as int];
    let before = row.states[k];
    let told = row.events[k]->Step_0;
    let state = before.phase->Streaming_state;
    let size = before.phase->Streaming_chunk_size;
    let (next, asked) = choose|next: StreamingState<T>, asked: ActionView<T>| #[trigger]
        streaming_rule(config, size, state, told, next, row.warnings[k], asked) && step_relayed(
            config,
            before.config,
            before.results@,
            row.states[k + 1],
            RunPhase::Streaming { chunk_size: size, state: next },
            asked,
            row.actions[k]@,
        );
    assert(streaming_rule(config, size, state, told, next, row.warnings[k], asked));
}

/// Where the result of a run config with a chunk size is collected, the engine had just made
/// calls: it was told to end the run, or had been asked to shut down; and it is to be disposed
/// of as configured.
pub proof fn law_collected_after_chunks<T, R>(row: RunRow<T, R>, a: int, b: int)
    requires
        row.holds(),
        streaming_part(row, a, b),
        b < row.events.len(),
        row.actions[b] is Collect,
    ensures
        ({
            let at = row.states[a + 1].config;
            &&& row.actions[b] == (RunAction::<T, R>::Collect {
                config: at,
                dispose: row.configs[at as int].dispose_on_completion,
            })
            &&& row.events[b] matches RunEvent::Step(StepEvent::Ran { shutdown })
            &&& shutdown || row.actions[b - 1]->Step_action@ == ActionView::<T>::Engine(
                seq![CallView::End],
            )
        }),
{
    law_run_in_chunks(row, a, b);
    assert(row.step_taken(b));
    assert(row.states[b].phase is Streaming);
    let before = row.states[b];
    let config = row.configs[before.config as int];
    let told = row.events[b]->Step_0;
    let state = before.phase->Streaming_state;
    let size = before.phase->Streaming_chunk_size;
    let (next, asked) = choose|next: StreamingState<T>, asked: ActionView<T>| #[trigger]
        streaming_rule(config, size, state, told, next, row.warnings[b], asked) && step_relayed(
            config,
            before.config,
            before.results@,
            row.states[b + 1],
            RunPhase::Streaming { chunk_size: size, state: next },
            asked,
            row.actions[b]@,
        );
    assert(streaming_rule(config, size, state, told, next, row.warnings[b], asked));
    let part = streaming_steps(row, a, b);
    assert(part.streaming_step(config, config.chunk_size->0, b - a - 1));
    assert(row.actions[b - 1] is Step);
}

/// Once the result of the only run config is collected, the run is over with just that result.
pub proof fn law_results_stand_in_order<T, R>(row: RunRow<T, R>, k: int, result: R)
    requires
        row.holds(),
        row.configs.len() == 1,
        0 <= k < row.actions.len(),
        row.events[k] == RunEvent::<T, R>::Collected(result),
    ensures
        row.actions[k] matches RunAction::Finish(Ok(results)) && results@ == seq![result],
        row.warnings[k].len() == 0,
{
    assert(row.step_taken(k));
    assert(row.states[k].results@.push(result) =~= seq![result]);
}

/// A run whose build fails ends with that very failure.
pub proof fn law_failed_build_is_handed_on<T, R>(row: RunRow<T, R>, k: int, error: NodeError)
    requires
        row.holds(),
        0 <= k < row.actions.len(),
        row.events[k] == RunEvent::<T, R>::Built(Err(error)),
    ensures
        row.actions[k] == RunAction::<T, R>::Finish(Err(error)),
        row.warnings[k].len() == 0,
{
    assert(row.step_taken(k));
}

/// A failure within a run config ends the run with that very failure.
pub proof fn law_failure_ends_the_run<T, R>(row: RunRow<T, R>, a: int, b: int, message: String)
    requires
        row.holds(),
        oneshot_part(row, a, b) || streaming_part(row, a, b),
        b < row.events.len(),
        row.events[b] == RunEvent::<T, R>::Step(StepEvent::Failed(message)) || row.events[b]
            == RunEvent::<T, R>::Step(StepEvent::Loaded(Err(message))),
    ensures
        row.actions[b] == RunAction::<T, R>::Finish(Err(NodeError::Outside { message })),
{
    assert(row.step_taken(b));
    let before = row.states[b];
    let config = row.configs[before.config as int];
    let told = row.events[b]->Step_0;
    let warnings = row.warnings[b];
    let after = row.states[b + 1];
    if oneshot_part(row, a, b) {
        assert(before.phase is Oneshot);
        let state = before.phase->Oneshot_0;
        let (next, asked) = choose|next: OneshotState<T>, asked: ActionView<T>| #[trigger]
            oneshot_rule(config, state, told, next, warnings, asked) && step_relayed(
                config,
                before.config,
                before.results@,
                after,
                RunPhase::Oneshot(next),
                asked,
                row.actions[b]@,
            );
        assert(oneshot_rule(config, state, told, next, warnings, asked));
    } else {
        assert(before.phase is Streaming);
        let state = before.phase->Streaming_state;
        let size = before.phase->Streaming_chunk_size;
        let (next, asked) = choose|next: StreamingState<T>, asked: ActionView<T>| #[trigger]
            streaming_rule(config, size, state, told, next, warnings, asked) && step_relayed(
                config,
                before.config,
                before.results@,
                after,
                RunPhase::Streaming { chunk_size: size, state: next },
                asked,
                row.actions[b]@,
            );
        assert(streaming_rule(config, size, state, told, next, warnings, asked));
    }
}

} // verus!
