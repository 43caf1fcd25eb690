//! Runs the engines of a node, one run config after the other.
//!
//! A run is advanced by events, as building is. Each action names the run config that it is
//! for, whose engine performs it:
//!
//! | action | reply |
//! |---|---|
//! | `Build` | `Built` |
//! | `Step` | `Step`, with a reply to the action inside |
//! | `Collect` | `Collected` |
//! | `Finish` | none: the run is over |
use crate::config::BacktestRunConfig;
use crate::error::NodeError;
use crate::node::{
    build_outcome, law_engines_are_configured, law_node_has_one_consistent_config, BacktestNode,
};
use crate::oneshot::{
    law_oneshot_takes_every_reply, load_or_run, oneshot_accepts, oneshot_rule, run_oneshot,
    OneshotState,
};
use crate::report::Warning;
use crate::step::{step_reply, ActionView, StepAction, StepEvent};
use crate::streaming::{
    law_streaming_takes_every_reply, run_streaming, streaming_accepts, streaming_begun,
    streaming_rule, StreamingState,
};
use vstd::prelude::*;

verus! {

/// What a run of the node asks for next.
#[derive(Debug)]
pub enum RunAction<T, R> {
    /// Build the engines.
    Build,
    /// Perform an action for the run config at this position.
    Step { config: usize, action: StepAction<T> },
    /// Take the result of the engine of the run config at this position, and then dispose
    /// of the engine, or make it drop its data.
    Collect { config: usize, dispose: bool },
    /// The run is over.
    Finish(Result<Vec<R>, NodeError>),
}

/// An action by what its parts hold.
pub enum RunActionView<T, R> {
    Build,
    Step { config: usize, action: ActionView<T> },
    Collect { config: usize, dispose: bool },
    Finish(Result<Seq<R>, NodeError>),
}

impl<T, R> View for RunAction<T, R> {
    type V = RunActionView<T, R>;

    open spec fn view(&self) -> RunActionView<T, R> {
        match *self {
            RunAction::Build => RunActionView::Build,
            RunAction::Step { config, action } => RunActionView::Step { config, action: action@ },
            RunAction::Collect { config, dispose } => RunActionView::Collect { config, dispose },
            RunAction::Finish(Ok(results)) => RunActionView::Finish(Ok(results@)),
            RunAction::Finish(Err(error)) => RunActionView::Finish(Err(error)),
        }
    }
}

/// What a run of the node is told.
#[derive(Debug)]
pub enum RunEvent<T, R> {
    /// The run is to begin.
    Begin,
    /// Building is over.
    Built(Result<(), NodeError>),
    /// The reply to the action of a step.
    Step(StepEvent<T>),
    /// The result of an engine.
    Collected(R),
}

/// What a run of the node is waiting for.
pub enum RunPhase<T> {
    /// To be begun.
    Begin,
    /// The engines to be built.
    Building,
    /// What a run over all data waits for.
    Oneshot(OneshotState<T>),
    /// What a run in chunks waits for.
    Streaming { chunk_size: usize, state: StreamingState<T> },
    /// The result of the engine.
    Collecting,
    /// Nothing.
    Finished,
}

/// How far a run of the node has come.
pub struct RunState<T, R> {
    /// The run config that is being run.
    pub config: usize,
    /// The results of the run configs ahead of it.
    pub results: Vec<R>,
    pub phase: RunPhase<T>,
}

/// One advance of a run: its new state, what is to be reported, and what is asked for next.
pub struct RunStep<T, R> {
    pub state: RunState<T, R>,
    pub warnings: Vec<Warning>,
    pub action: RunAction<T, R>,
}

/// Whether an event is a reply to what the run is waiting for.
pub open spec fn run_accepts<T, R>(phase: RunPhase<T>, event: RunEvent<T, R>) -> bool {
    match phase {
        RunPhase::Begin => event is Begin,
        RunPhase::Building => event is Built,
        RunPhase::Oneshot(state) => event matches RunEvent::Step(reply) && oneshot_accepts(
            state.phase,
            reply,
        ),
        RunPhase::Streaming { state, .. } => event matches RunEvent::Step(reply)
            && streaming_accepts(state, reply),
        RunPhase::Collecting => event is Collected,
        RunPhase::Finished => false,
    }
}

impl<T, R> RunState<T, R> {
    /// What holds of a run at any time: each run config ahead has left one result.
    pub open spec fn wf(self, configs: Seq<BacktestRunConfig>) -> bool {
        match self.phase {
            RunPhase::Begin | RunPhase::Building => self.config == 0 && self.results@.len() == 0,
            RunPhase::Oneshot(state) => {
                &&& self.config < configs.len()
                &&& self.results@.len() == self.config
                &&& configs[self.config as int].chunk_size is None
                &&& state.wf(configs[self.config as int])
            },
            RunPhase::Streaming { chunk_size, state } => {
                &&& self.config < configs.len()
                &&& self.results@.len() == self.config
                &&& configs[self.config as int].chunk_size == Some(chunk_size)
                &&& chunk_size > 0
                &&& state.wf(configs[self.config as int], chunk_size)
            },
            RunPhase::Collecting => {
                &&& self.config < configs.len()
                &&& self.results@.len() == self.config
            },
            RunPhase::Finished => true,
        }
    }

    /// Returns the state of a run that is yet to begin.
    pub fn new() -> (r: Self)
        ensures
            r.phase is Begin,
            forall|configs: Seq<BacktestRunConfig>| #[trigger] r.wf(configs),
    {
        RunState { config: 0, results: Vec::new(), phase: RunPhase::Begin }
    }
}

/// Whether the run is over for a reason.
pub open spec fn run_failed<T, R>(
    after: RunState<T, R>,
    warnings: Seq<Warning>,
    action: RunActionView<T, R>,
    error: NodeError,
) -> bool {
    &&& after.phase is Finished
    &&& warnings == Seq::<Warning>::empty()
    &&& action == RunActionView::<T, R>::Finish(Err(error))
}

/// How a step within a run config is handed on: its action is asked for, or if it is the
/// last, the result is collected or the run given up.
pub open spec fn step_relayed<T, R>(
    config: BacktestRunConfig,
    at: usize,
    results: Seq<R>,
    after: RunState<T, R>,
    phase: RunPhase<T>,
    asked: ActionView<T>,
    action: RunActionView<T, R>,
) -> bool {
    &&& after.config == at
    &&& after.results@ == results
    &&& match asked {
        ActionView::Complete(Ok(())) => {
            &&& after.phase is Collecting
            &&& action == RunActionView::<T, R>::Collect {
                config: at,
                dispose: config.dispose_on_completion,
            }
        },
        ActionView::Complete(Err(error)) => {
            &&& after.phase is Finished
            &&& action == RunActionView::<T, R>::Finish(Err(error))
        },
        _ => {
            &&& after.phase == phase
            &&& action == RunActionView::<T, R>::Step { config: at, action: asked }
        },
    }
}

/// Whether a step over all data is taken and handed on.
pub open spec fn oneshot_relayed<T, R>(
    config: BacktestRunConfig,
    at: usize,
    results: Seq<R>,
    state: OneshotState<T>,
    reply: StepEvent<T>,
    after: RunState<T, R>,
    warnings: Seq<Warning>,
    action: RunActionView<T, R>,
) -> bool {
    exists|next: OneshotState<T>, asked: ActionView<T>| #[trigger]
        oneshot_rule(config, state, reply, next, warnings, asked) && step_relayed(
            config,
            at,
            results,
            after,
            RunPhase::Oneshot(next),
            asked,
            action,
        )
}

/// Whether a step in chunks is taken and handed on.
pub open spec fn streaming_relayed<T, R>(
    config: BacktestRunConfig,
    at: usize,
    results: Seq<R>,
    chunk_size: usize,
    state: StreamingState<T>,
    reply: StepEvent<T>,
    after: RunState<T, R>,
    warnings: Seq<Warning>,
    action: RunActionView<T, R>,
) -> bool {
    exists|next: StreamingState<T>, asked: ActionView<T>| #[trigger]
        streaming_rule(config, chunk_size, state, reply, next, warnings, asked) && step_relayed(
            config,
            at,
            results,
            after,
            RunPhase::Streaming { chunk_size, state: next },
            asked,
            action,
        )
}

/// How the run config at a position is begun, after those ahead of it have left their
/// results, or the run is over if there is none: its engine must have been built, and where
/// it is run in chunks, they must not be empty, and there must be data configs.
pub open spec fn config_begun<T, R>(
    configs: Seq<BacktestRunConfig>,
    built: Set<Seq<char>>,
    at: int,
    results: Seq<R>,
    after: RunState<T, R>,
    warnings: Seq<Warning>,
    action: RunActionView<T, R>,
) -> bool {
    &&& warnings == Seq::<Warning>::empty()
    &&& if at >= configs.len() {
        &&& after.phase is Finished
        &&& action == RunActionView::<T, R>::Finish(Ok(results))
    } else {
        let config = configs[at];
        if !built.contains(config.id@) {
            run_failed(after, warnings, action, NodeError::EngineNotFound { id: config.id })
        } else if config.chunk_size == Some(0usize) {
            run_failed(after, warnings, action, NodeError::ZeroChunkSize)
        } else if config.chunk_size is Some && config.data@.len() == 0 {
            run_failed(after, warnings, action, NodeError::NoDataConfigs { id: config.id })
        } else {
            &&& after.config == at
            &&& after.results@ == results
            &&& action matches RunActionView::Step { config: position, action: asked } && position
                == at && match after.phase {
                RunPhase::Oneshot(state) => {
                    &&& config.chunk_size is None
                    &&& load_or_run(config, 0, state.phase, asked)
                },
                RunPhase::Streaming { chunk_size, state } => {
                    &&& config.chunk_size == Some(chunk_size)
                    &&& streaming_begun(config, state, asked)
                },
                _ => false,
            }
        }
    }
}

/// How a run of the node is advanced by an event. `built` holds the IDs that have engines.
pub open spec fn run_rule<T, R>(
    configs: Seq<BacktestRunConfig>,
    built: Set<Seq<char>>,
    before: RunState<T, R>,
    event: RunEvent<T, R>,
    after: RunState<T, R>,
    warnings: Seq<Warning>,
    action: RunActionView<T, R>,
) -> bool {
    match (before.phase, event) {
        (RunPhase::Begin, RunEvent::Begin) => if built == Set::<Seq<char>>::empty() {
            &&& after.phase is Building
            &&& warnings == Seq::<Warning>::empty()
            &&& action == RunActionView::<T, R>::Build
        } else {
            config_begun(configs, built, 0, Seq::empty(), after, warnings, action)
        },
        (RunPhase::Building, RunEvent::Built(Ok(()))) => config_begun(
            configs,
            built,
            0,
            Seq::empty(),
            after,
            warnings,
            action,
        ),
        (RunPhase::Building, RunEvent::Built(Err(error))) => run_failed(
            after,
            warnings,
            action,
            error,
        ),
        (RunPhase::Oneshot(state), RunEvent::Step(reply)) => oneshot_relayed(
            configs[before.config as int],
            before.config,
            before.results@,
            state,
            reply,
            after,
            warnings,
            action,
        ),
        (RunPhase::Streaming { chunk_size, state }, RunEvent::Step(reply)) => streaming_relayed(
            configs[before.config as int],
            before.config,
            before.results@,
            chunk_size,
            state,
            reply,
            after,
            warnings,
            action,
        ),
        (RunPhase::Collecting, RunEvent::Collected(result)) => config_begun(
            configs,
            built,
            before.config + 1,
            before.results@.push(result),
            after,
            warnings,
            action,
        ),
        _ => false,
    }
}

impl<E> BacktestNode<E> {
    /// Hands on a step within a run config.
    fn relay<T, R>(
        &self,
        at: usize,
        results: Vec<R>,
        phase: RunPhase<T>,
        warnings: Vec<Warning>,
        action: StepAction<T>,
    ) -> (r: RunStep<T, R>)
        requires
            at < self.config_list().len(),
            (RunState { config: at, results, phase }).wf(self.config_list()),
            results@.len() == at,
        ensures
            r.state.wf(self.config_list()),
            r.warnings@ == warnings@,
            step_relayed(
                self.config_list()[at as int],
                at,
                results@,
                r.state,
                phase,
                action@,
                r.action@,
            ),
    {
        match action {
            StepAction::Complete(Ok(())) => RunStep {
                state: RunState { config: at, results, phase: RunPhase::Collecting },
                warnings,
                action: RunAction::Collect {
                    config: at,
                    dispose: self.configs()[at].dispose_on_completion,
                },
            },
            StepAction::Complete(Err(error)) => RunStep {
                state: RunState { config: at, results, phase: RunPhase::Finished },
                warnings,
                action: RunAction::Finish(Err(error)),
            },
            action => RunStep {
                state: RunState { config: at, results, phase },
                warnings,
                action: RunAction::Step { config: at, action },
            },
        }
    }

    /// Gives a run up.
    fn abandon<T, R>(error: NodeError) -> (r: RunStep<T, R>)
        ensures
            run_failed(r.state, r.warnings@, r.action@, error),
    {
        RunStep {
            state: RunState { config: 0, results: Vec::new(), phase: RunPhase::Finished },
            warnings: Vec::new(),
            action: RunAction::Finish(Err(error)),
        }
    }

    /// Begins the run config at a position.
    fn begin_config<T, R>(&self, at: usize, results: Vec<R>) -> (r: RunStep<T, R>)
        requires
            self.wf(),
            results@.len() == at,
        ensures
            r.state.wf(self.config_list()),
            config_begun(
                self.config_list(),
                self.engine_map().dom(),
                at as int,
                results@,
                r.state,
                r.warnings@,
                r.action@,
            ),
    {
        let configs = self.configs();
        if at >= configs.len() {
            return RunStep {
                state: RunState { config: 0, results: Vec::new(), phase: RunPhase::Finished },
                warnings: Vec::new(),
                action: RunAction::Finish(Ok(results)),
            };
        }
        let config = &configs[at];
        if self.get_engine(config.id.as_str()).is_none() {
            return Self::abandon(NodeError::EngineNotFound { id: config.id.clone() });
        }
        match config.chunk_size {
            None => {
                let step = run_oneshot(config, OneshotState::new(), StepEvent::Begin);
                self.relay(
                    at,
                    results,
                    RunPhase::Oneshot(step.state),
                    step.warnings,
                    step.action,
                )
            },
            Some(chunk_size) => {
                if chunk_size == 0 {
                    return Self::abandon(NodeError::ZeroChunkSize);
                }
                let step = run_streaming(
                    config,
                    chunk_size,
                    StreamingState::Begin,
                    StepEvent::Begin,
                );
                self.relay(
                    at,
                    results,
                    RunPhase::Streaming { chunk_size, state: step.state },
                    step.warnings,
                    step.action,
                )
            },
        }
    }

    /// Advances a run of all run configs. The engines are built first if there are none;
    /// then each run config is run over all of its data, or in chunks if it says so, and
    /// leaves one result. A run in chunks fails if no data config says what to stream.
    pub fn run<T, R>(&self, state: RunState<T, R>, event: RunEvent<T, R>) -> (r: RunStep<T, R>)
        requires
            self.wf(),
            state.wf(self.config_list()),
            run_accepts(state.phase, event),
        ensures
            r.state.wf(self.config_list()),
            run_rule(
                self.config_list(),
                self.engine_map().dom(),
                state,
                event,
                r.state,
                r.warnings@,
                r.action@,
            ),
    {
        let at: usize = state.config;
        let count: usize = self.configs().len();
        match (state.phase, event) {
            (RunPhase::Begin, RunEvent::Begin) => {
                assert(state.results@ =~= Seq::empty());
                if self.lacks_engines() {
                    return RunStep {
                        state: RunState {
                            config: at,
                            results: state.results,
                            phase: RunPhase::Building,
                        },
                        warnings: Vec::new(),
                        action: RunAction::Build,
                    };
                }
                assert(!(self.engine_map() =~= Map::<Seq<char>, E>::empty()));
                self.begin_config(at, state.results)
            },
            (RunPhase::Building, RunEvent::Built(built)) => {
                assert(state.results@ =~= Seq::empty());
                match built {
                    Ok(()) => self.begin_config(at, state.results),
                    Err(error) => Self::abandon(error),
                }
            },
            (RunPhase::Oneshot(inner), RunEvent::Step(reply)) => {
                let step = run_oneshot(&self.configs()[at], inner, reply);
                let ghost taken = oneshot_rule(
                    self.config_list()[at as int],
                    inner,
                    reply,
                    step.state,
                    step.warnings@,
                    step.action@,
                );
                let r = self.relay(
                    at,
                    state.results,
                    RunPhase::Oneshot(step.state),
                    step.warnings,
                    step.action,
                );
                assert(taken);
                r
            },
            (RunPhase::Streaming { chunk_size, state: inner }, RunEvent::Step(reply)) => {
                let step = run_streaming(&self.configs()[at], chunk_size, inner, reply);
                let ghost taken = streaming_rule(
                    self.config_list()[at as int],
                    chunk_size,
                    inner,
                    reply,
                    step.state,
                    step.warnings@,
                    step.action@,
                );
                let r = self.relay(
                    at,
                    state.results,
                    RunPhase::Streaming { chunk_size, state: step.state },
                    step.warnings,
                    step.action,
                );
                assert(taken);
                r
            },
            (RunPhase::Collecting, RunEvent::Collected(result)) => {
                assert(at < count);
                let mut results = state.results;
                results.push(result);
                self.begin_config(at + 1, results)
            },
            _ => vstd::pervasive::unreached(),
        }
    }
}

/// A run that is over without a failure has left one result for each run config, and they
/// stand in the order of the run configs: each was the next to be collected.
pub proof fn law_one_result_per_config<T, R>(
    configs: Seq<BacktestRunConfig>,
    built: Set<Seq<char>>,
    before: RunState<T, R>,
    event: RunEvent<T, R>,
    after: RunState<T, R>,
    warnings: Seq<Warning>,
    action: RunActionView<T, R>,
    results: Seq<R>,
)
    requires
        configs.len() > 0,
        before.wf(configs),
        run_accepts(before.phase, event),
        run_rule(configs, built, before, event, after, warnings, action),
        action == RunActionView::<T, R>::Finish(Ok(results)),
    ensures
        results.len() == configs.len(),
        event matches RunEvent::Collected(last) && results == before.results@.push(last),
{
}

/// Whether an event is a reply to an action.
pub open spec fn run_reply<T, R>(action: RunActionView<T, R>, event: RunEvent<T, R>) -> bool {
    match action {
        RunActionView::Build => event is Built,
        RunActionView::Step { action, .. } => event matches RunEvent::Step(reply) && step_reply(
            action,
            reply,
        ),
        RunActionView::Collect { .. } => event is Collected,
        RunActionView::Finish(_) => false,
    }
}

/// Whatever a run asks for, it takes every reply to that, and nothing else.
pub proof fn law_run_takes_every_reply<T, R>(
    configs: Seq<BacktestRunConfig>,
    built: Set<Seq<char>>,
    before: RunState<T, R>,
    event: RunEvent<T, R>,
    after: RunState<T, R>,
    warnings: Seq<Warning>,
    action: RunActionView<T, R>,
    reply: RunEvent<T, R>,
)
    requires
        run_rule(configs, built, before, event, after, warnings, action),
    ensures
        run_accepts(after.phase, reply) <==> run_reply(action, reply),
{
    if let (RunPhase::Oneshot(state), RunEvent::Step(told)) = (before.phase, event) {
        let config = configs[before.config as int];
        let (next, asked) = choose|next: OneshotState<T>, asked: ActionView<T>| #[trigger]
            oneshot_rule(config, state, told, next, warnings, asked) && step_relayed(
                config,
                before.config,
                before.results@,
                after,
                RunPhase::Oneshot(next),
                asked,
                action,
            );
        if let RunEvent::Step(inner) = reply {
            law_oneshot_takes_every_reply(config, state, told, next, warnings, asked, inner);
        }
    }
    if let (RunPhase::Streaming { chunk_size, state }, RunEvent::Step(told)) = (
        before.phase,
        event,
    ) {
        let config = configs[before.config as int];
        let (next, asked) = choose|next: StreamingState<T>, asked: ActionView<T>| #[trigger]
            streaming_rule(config, chunk_size, state, told, next, warnings, asked) && step_relayed(
                config,
                before.config,
                before.results@,
                after,
                RunPhase::Streaming { chunk_size, state: next },
                asked,
                action,
            );
        if let RunEvent::Step(inner) = reply {
            law_streaming_takes_every_reply(
                config,
                chunk_size,
                state,
                told,
                next,
                warnings,
                asked,
                inner,
            );
        }
    }
    if let (RunActionView::Step { action: asked, .. }, RunPhase::Oneshot(state)) = (
        action,
        after.phase,
    ) {
        if let ActionView::Engine(calls) = asked {
            if state.phase is Running {
                assert(calls[1] is Run);
            }
        }
    }
}

/// A run begins by having the engines built exactly when there are none.
pub proof fn law_run_builds_first<T, R>(
    configs: Seq<BacktestRunConfig>,
    built: Set<Seq<char>>,
    before: RunState<T, R>,
    after: RunState<T, R>,
    warnings: Seq<Warning>,
    action: RunActionView<T, R>,
)
    requires
        before.phase is Begin,
        run_rule(configs, built, before, RunEvent::Begin, after, warnings, action),
    ensures
        action is Build <==> built == Set::<Seq<char>>::empty(),
{
}

/// All steps of a run, from the first on: the node and the state ahead of each step, and the
/// event, the warnings and the action of each. The last state stands behind the last step.
pub struct RunTrace<E, T, R> {
    pub nodes: Seq<BacktestNode<E>>,
    pub states: Seq<RunState<T, R>>,
    pub events: Seq<RunEvent<T, R>>,
    pub warnings: Seq<Seq<Warning>>,
    pub actions: Seq<RunActionView<T, R>>,
}

impl<E, T, R> RunTrace<E, T, R> {
    /// Whether the step at a position was taken.
    pub open spec fn step_taken(self, i: int) -> bool {
        &&& self.nodes[i].wf()
        &&& self.states[i].wf(self.nodes[i].config_list())
        &&& run_accepts(self.states[i].phase, self.events[i])
        &&& run_rule(
            self.nodes[i].config_list(),
            self.nodes[i].engine_map().dom(),
            self.states[i],
            self.events[i],
            self.states[i + 1],
            self.warnings[i],
            self.actions[i],
        )
    }

    /// Whether the action of the step at a position was performed ahead of the next: the
    /// node was built where that was asked for; otherwise engines may have changed, and none
    /// came or went.
    pub open spec fn performed(self, i: int) -> bool {
        if self.actions[i] is Build {
            self.events[i + 1] matches RunEvent::Built(result) && build_outcome(
                self.nodes[i],
                result,
                self.nodes[i + 1],
            )
        } else {
            &&& self.nodes[i + 1].config_list() == self.nodes[i].config_list()
            &&& self.nodes[i + 1].engine_map().dom() == self.nodes[i].engine_map().dom()
        }
    }

    /// Whether these are steps of a run.
    pub open spec fn holds(self) -> bool {
        &&& self.events.len() > 0
        &&& self.nodes.len() == self.events.len()
        &&& self.states.len() == self.events.len() + 1
        &&& self.warnings.len() == self.events.len()
        &&& self.actions.len() == self.events.len()
        &&& self.states[0].phase is Begin
        &&& forall|i: int| 0 <= i < self.events.len() ==> #[trigger] self.step_taken(i)
        &&& forall|i: int| 0 <= i < self.events.len() - 1 ==> #[trigger] self.performed(i)
    }
}

/// A step within a run config never fails for want of an engine.
proof fn lemma_steps_need_no_engine<T, R>(
    configs: Seq<BacktestRunConfig>,
    built: Set<Seq<char>>,
    before: RunState<T, R>,
    event: RunEvent<T, R>,
    after: RunState<T, R>,
    warnings: Seq<Warning>,
    action: RunActionView<T, R>,
)
    requires
        before.phase is Oneshot || before.phase is Streaming,
        run_accepts(before.phase, event),
        run_rule(configs, built, before, event, after, warnings, action),
    ensures
        !(action is Build),
        !(after.phase is Begin || after.phase is Building),
        action matches RunActionView::Finish(Err(error)) ==> !(error is EngineNotFound),
{
}

/// Once a run has begun, it waits for the engine to be built, or the node has it.
proof fn lemma_run_has_its_engine<E, T, R>(trace: RunTrace<E, T, R>, k: int)
    requires
        trace.holds(),
        0 <= k < trace.events.len(),
    ensures
        trace.nodes[k].config_list() == trace.nodes[0].config_list(),
        trace.states[k].phase is Begin <==> k == 0,
        trace.states[k].phase is Building ==> k == 1 && trace.actions[0] is Build,
        !(trace.states[k].phase is Begin || trace.states[k].phase is Building)
            ==> trace.nodes[k].engine_map().dom().contains(trace.nodes[0].config_list()[0].id@),
    decreases k,
{
    if k > 0 {
        lemma_run_has_its_engine(trace, k - 1);
        let node = trace.nodes[k - 1];
        let before = trace.states[k - 1];
        assert(trace.step_taken(k - 1));
        assert(trace.step_taken(k));
        assert(trace.performed(k - 1));
        law_node_has_one_consistent_config(node);
        law_engines_are_configured(node, node.config_list()[0].id@);
        if before.phase is Oneshot || before.phase is Streaming {
            lemma_steps_need_no_engine(
                node.config_list(),
                node.engine_map().dom(),
                before,
                trace.events[k - 1],
                trace.states[k],
                trace.warnings[k - 1],
                trace.actions[k - 1],
            );
        }
    }
}

/// A run never fails for want of an engine, and asks for engines to be built only with its
/// first step.
pub proof fn law_run_never_lacks_an_engine<E, T, R>(trace: RunTrace<E, T, R>, k: int)
    requires
        trace.holds(),
        0 <= k < trace.events.len(),
    ensures
        trace.actions[k] matches RunActionView::Finish(Err(error)) ==> !(error is EngineNotFound),
        trace.actions[k] is Build ==> k == 0,
        trace.actions[k] is Step || trace.actions[k] is Collect
            ==> trace.nodes[k].engine_map().dom().contains(trace.nodes[k].config_list()[0].id@),
{
    lemma_run_has_its_engine(trace, k);
    let node = trace.nodes[k];
    assert(trace.step_taken(k));
    law_node_has_one_consistent_config(node);
    law_engines_are_configured(node, node.config_list()[0].id@);
    if k > 0 {
        lemma_run_has_its_engine(trace, k - 1);
        assert(trace.step_taken(k - 1));
        assert(trace.performed(k - 1));
    }
    if trace.states[k].phase is Oneshot || trace.states[k].phase is Streaming {
        lemma_steps_need_no_engine(
            node.config_list(),
            node.engine_map().dom(),
            trace.states[k],
            trace.events[k],
            trace.states[k + 1],
            trace.warnings[k],
            trace.actions[k],
        );
    }
}

/// A run of a node that has engines uses just those: none is built, and none comes or goes.
pub proof fn law_run_uses_the_engines_at_hand<E, T, R>(trace: RunTrace<E, T, R>, k: int)
    requires
        trace.holds(),
        trace.nodes[0].engine_map().dom() != Set::<Seq<char>>::empty(),
        0 <= k < trace.events.len(),
    ensures
        !(trace.actions[k] is Build),
        trace.nodes[k].engine_map().dom() == trace.nodes[0].engine_map().dom(),
    decreases k,
{
    law_run_never_lacks_an_engine(trace, k);
    assert(trace.step_taken(0));
    if k > 0 {
        law_run_uses_the_engines_at_hand(trace, k - 1);
        assert(trace.performed(k - 1));
    }
}

/// A run of a node without engines first has them built. If that fails, the run ends with
/// the same failure, no engine has been run, and the node still has none.
pub proof fn law_run_fails_with_its_build<E, T, R>(trace: RunTrace<E, T, R>, error: NodeError)
    requires
        trace.holds(),
        trace.nodes[0].engine_map().dom() == Set::<Seq<char>>::empty(),
    ensures
        trace.actions[0] is Build,
        trace.events.len() > 1 && trace.events[1] == RunEvent::<T, R>::Built(Err(error)) ==> {
            &&& trace.events.len() == 2
            &&& trace.actions[1] == RunActionView::<T, R>::Finish(Err(error))
            &&& trace.nodes[1].engine_map().dom() == Set::<Seq<char>>::empty()
        },
{
    assert(trace.step_taken(0));
    if trace.events.len() > 1 {
        assert(trace.performed(0));
        assert(trace.step_taken(1));
        if trace.events.len() > 2 {
            assert(trace.step_taken(2));
        }
    }
}

} // verus!
