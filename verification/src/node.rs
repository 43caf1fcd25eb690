//! The node: holds run configurations and the engines that were built for them, and decides
//! how the engines are built and run.
use crate::catalog::{
    catalog_for, create_catalog, load_data, load_for, CatalogRequest, LoadRequest,
};
use crate::catalog_laws::{asks_for, opened_at};
use crate::config::{BacktestDataConfig, BacktestRunConfig};
use crate::error::NodeError;
use crate::hashed::{
    slots_clear, slots_contains, slots_get, slots_insert, slots_is_empty, slots_new, slots_of,
};
use crate::setup::{
    advance_setup, build_accepts, build_rule, build_turns_to, config_phase,
    lemma_finished_between_configs, BuildAction, BuildEvent, BuildPhase, BuildState, BuildStep,
};
use crate::time::UnixNanos;
use crate::validate::{
    consistent, law_accepted_iff_consistent, validate_configs, validation_error,
};
use ahash::AHashMap;
use vstd::prelude::*;

verus! {

/// Orchestrates backtests that run over data from catalogs.
///
/// `E` is the type of the engines, which the node keeps and never looks into.
#[derive(Debug)]
pub struct BacktestNode<E> {
    configs: Vec<BacktestRunConfig>,
    /// Where the engine of each run config stands in the list of engines.
    slots: AHashMap<String, usize>,
    engines: Vec<E>,
}

/// Whether some engine stands at a position.
pub open spec fn slot_taken(slots: Map<Seq<char>, usize>, slot: int) -> bool {
    exists|id: Seq<char>| #[trigger] slots.dom().contains(id) && slots[id] == slot
}

/// Whether some run config has an ID.
pub open spec fn id_configured(configs: Seq<BacktestRunConfig>, id: Seq<char>) -> bool {
    exists|i: int| 0 <= i < configs.len() && (#[trigger] configs[i]).id@ == id
}

/// What is done to the engines of a node.
pub enum NodeChange<E> {
    /// Nothing.
    Kept,
    /// The engine of the run config at a position was built.
    Built { config: int, engine: E },
    /// The engine under an ID was changed.
    Changed { id: Seq<char>, engine: E },
    /// All engines were taken out.
    Disposed,
}

/// How a node is changed. Its run configs never are.
pub open spec fn node_changed<E>(
    before: BacktestNode<E>,
    change: NodeChange<E>,
    after: BacktestNode<E>,
) -> bool {
    &&& after.config_list() == before.config_list()
    &&& match change {
        NodeChange::Kept => {
            &&& after.engine_map() == before.engine_map()
            &&& after.engine_list() == before.engine_list()
        },
        NodeChange::Built { config, engine } => {
            let id = before.config_list()[config].id@;
            &&& 0 <= config < before.config_list().len()
            &&& after.engine_map() == before.engine_map().insert(id, engine)
            &&& after.engine_list() == if before.engine_map().dom().contains(id) {
                before.engine_list().update(before.engine_position(id), engine)
            } else {
                before.engine_list().push(engine)
            }
        },
        NodeChange::Changed { id, engine } => {
            &&& before.engine_map().dom().contains(id)
            &&& after.engine_map() =~= before.engine_map().insert(id, engine)
            &&& after.engine_list() =~= before.engine_list().update(
                before.engine_position(id),
                engine,
            )
        },
        NodeChange::Disposed => {
            &&& after.engine_map() == Map::<Seq<char>, E>::empty()
            &&& after.engine_list() == Seq::<E>::empty()
        },
    }
}

/// What a step of building does to the engines: the node takes over the engine that it is
/// handed, and otherwise nothing.
pub open spec fn build_change<E, N>(phase: BuildPhase, event: BuildEvent<E, N>) -> NodeChange<E> {
    match event {
        BuildEvent::Engine(engine) => NodeChange::Built {
            config: phase->HandingOver_config as int,
            engine,
        },
        _ => NodeChange::Kept,
    }
}

/// How a step of building advances a node and the state of building.
pub open spec fn build_taken<E, N>(
    before: BacktestNode<E>,
    state: BuildState<N>,
    event: BuildEvent<E, N>,
    after: BacktestNode<E>,
    next: BuildState<N>,
    action: BuildAction<N>,
) -> bool {
    &&& after.wf()
    &&& node_changed(before, build_change(state.phase, event), after)
    &&& next.wf(after.config_list())
    &&& build_rule(after.config_list(), after.engine_map().dom(), state, event, next, action)
}

impl<E> BacktestNode<E> {
    /// The run configurations.
    pub closed spec fn config_list(self) -> Seq<BacktestRunConfig> {
        self.configs@
    }

    /// The engines that were built, by the ID of their run config.
    pub closed spec fn engine_map(self) -> Map<Seq<char>, E> {
        slots_of(self.slots).map_values(|slot: usize| self.engines@[slot as int])
    }

    /// The engines that were built, in the order in which they were.
    pub closed spec fn engine_list(self) -> Seq<E> {
        self.engines@
    }

    /// Where an engine stands in the list of engines.
    pub closed spec fn engine_position(self, id: Seq<char>) -> int {
        slots_of(self.slots)[id] as int
    }

    /// Whether some engine stands at a position of the list.
    pub open spec fn position_taken(self, i: int) -> bool {
        exists|id: Seq<char>| #[trigger]
            self.engine_map().dom().contains(id) && self.engine_position(id) == i
    }

    /// What holds of a node at any time: its configurations were accepted, and it has one
    /// engine for each ID that it has an engine for, which is the ID of a run config.
    pub closed spec fn wf(self) -> bool {
        &&& self.configs@.len() > 0
        &&& validation_error(self.configs@) is None
        &&& forall|id: Seq<char>| #[trigger]
            slots_of(self.slots).dom().contains(id) ==> id_configured(self.configs@, id)
        &&& forall|id: Seq<char>| #[trigger]
            slots_of(self.slots).dom().contains(id) ==> slots_of(self.slots)[id]
                < self.engines@.len()
        &&& forall|a: Seq<char>, b: Seq<char>|
            #![trigger slots_of(self.slots)[a], slots_of(self.slots)[b]]
            slots_of(self.slots).dom().contains(a) && slots_of(self.slots).dom().contains(b)
                && slots_of(self.slots)[a] == slots_of(self.slots)[b] ==> a == b
        &&& forall|slot: int|
            0 <= slot < self.engines@.len() ==> #[trigger] slot_taken(slots_of(self.slots), slot)
    }

    /// Creates a node.
    ///
    /// The configurations are refused if there is none, or if [`validate_configs`] refuses
    /// them.
    pub fn new(configs: Vec<BacktestRunConfig>) -> (r: Result<Self, NodeError>)
        ensures
            match r {
                Ok(node) => {
                    &&& configs@.len() == 1
                    &&& consistent(configs@[0])
                    &&& node.wf()
                    &&& node.config_list() == configs@
                    &&& node.engine_map() == Map::<Seq<char>, E>::empty()
                    &&& node.engine_list() == Seq::<E>::empty()
                },
                Err(error) => if configs@.len() == 0 {
                    error == NodeError::EmptyConfigs
                } else {
                    validation_error(configs@) == Some(error)
                },
            },
            r is Ok <==> configs@.len() == 1 && consistent(configs@[0]),
    {
        if configs.len() == 0 {
            return Err(NodeError::EmptyConfigs);
        }
        match validate_configs(configs.as_slice()) {
            Ok(()) => {
                let node = BacktestNode { configs, slots: slots_new(), engines: Vec::new() };
                assert(node.engine_map() =~= Map::<Seq<char>, E>::empty());
                Ok(node)
            },
            Err(error) => Err(error),
        }
    }

    /// Returns the run configurations.
    #[must_use]
    pub fn configs(&self) -> (r: &[BacktestRunConfig])
        ensures
            r@ == self.config_list(),
    {
        self.configs.as_slice()
    }

    /// Returns the engine of a run config, if one was built.
    #[must_use]
    pub fn get_engine(&self, id: &str) -> (r: Option<&E>)
        requires
            self.wf(),
        ensures
            r == (if self.engine_map().dom().contains(id@) {
                Some(&self.engine_map()[id@])
            } else {
                None
            }),
            !id_configured(self.config_list(), id@) ==> r is None,
    {
        match slots_get(&self.slots, id) {
            Some(slot) => Some(&self.engines[slot]),
            None => None,
        }
    }

    /// Returns the engine of a run config for a change, if one was built.
    #[must_use]
    pub fn get_engine_mut(&mut self, id: &str) -> (r: Option<&mut E>)
        requires
            old(self).wf(),
        ensures
            final(self).wf(),
            match r {
                Some(engine) => {
                    &&& *engine == old(self).engine_map()[id@]
                    &&& node_changed(
                        *old(self),
                        NodeChange::Changed { id: id@, engine: *final(engine) },
                        *final(self),
                    )
                },
                None => {
                    &&& !old(self).engine_map().dom().contains(id@)
                    &&& node_changed(*old(self), NodeChange::Kept, *final(self))
                },
            },
    {
        match slots_get(&self.slots, id) {
            Some(slot) => Some(&mut self.engines[slot]),
            None => None,
        }
    }

    /// Returns whether no engine was built.
    pub(crate) fn lacks_engines(&self) -> (r: bool)
        ensures
            r == (self.engine_map() == Map::<Seq<char>, E>::empty()),
    {
        let empty = slots_is_empty(&self.slots);
        if empty {
            assert(self.engine_map() =~= Map::<Seq<char>, E>::empty());
        } else {
            assert(!(slots_of(self.slots) =~= Map::<Seq<char>, usize>::empty()));
            assert(self.engine_map().dom() =~= slots_of(self.slots).dom());
        }
        empty
    }

    /// Returns all engines that were built.
    #[must_use]
    pub fn get_engines(&self) -> (r: Vec<&E>)
        ensures
            r@.len() == self.engine_list().len(),
            forall|i: int| 0 <= i < r@.len() ==> *(#[trigger] r@[i]) == self.engine_list()[i],
    {
        let mut list: Vec<&E> = Vec::new();
        let mut i: usize = 0;
        while i < self.engines.len()
            invariant
                i <= self.engines.len(),
                list@.len() == i,
                forall|j: int| 0 <= j < i ==> *(#[trigger] list@[j]) == self.engines@[j],
            decreases self.engines.len() - i,
        {
            list.push(&self.engines[i]);
            i += 1;
        }
        list
    }

    /// Takes all engines out of the node and returns them, to be disposed of.
    pub fn dispose(&mut self) -> (r: Vec<E>)
        requires
            old(self).wf(),
        ensures
            final(self).wf(),
            node_changed(*old(self), NodeChange::Disposed, *final(self)),
            r@ == old(self).engine_list(),
    {
        let mut engines: Vec<E> = Vec::new();
        engines.append(&mut self.engines);
        slots_clear(&mut self.slots);
        assert(self.engine_map() =~= Map::<Seq<char>, E>::empty());
        engines
    }

    /// Returns where the catalog of a data config is to be opened.
    pub fn load_catalog(config: &BacktestDataConfig) -> (r: CatalogRequest)
        ensures
            r@ == catalog_for(*config),
            opened_at(r, *config),
    {
        create_catalog(config)
    }

    /// Returns what is to be loaded for a data config.
    pub fn load_data_config(
        config: &BacktestDataConfig,
        start: Option<UnixNanos>,
        end: Option<UnixNanos>,
    ) -> (r: LoadRequest)
        ensures
            r@ == load_for(*config, start, end),
            opened_at(r.catalog, *config),
            asks_for(r.query, *config, start, end),
    {
        load_data(config, start, end)
    }

    /// Keeps an engine under the ID of the run config at a position.
    fn keep_engine(&mut self, config: usize, engine: E)
        requires
            old(self).wf(),
            config < old(self).config_list().len(),
        ensures
            final(self).wf(),
            node_changed(
                *old(self),
                NodeChange::Built { config: config as int, engine },
                *final(self),
            ),
    {
        let ghost before = *self;
        let id = self.configs[config].id.clone();
        assert(id_configured(self.configs@, id@));
        match slots_get(&self.slots, id.as_str()) {
            Some(slot) => {
                self.engines.set(slot, engine);
                assert(self.engine_map() =~= before.engine_map().insert(id@, engine));
            },
            None => {
                let slot: usize = self.engines.len();
                slots_insert(&mut self.slots, id, slot);
                self.engines.push(engine);
                assert(self.engine_map() =~= before.engine_map().insert(id@, engine));
                assert forall|k: int| 0 <= k < self.engines@.len() implies #[trigger] slot_taken(
                    slots_of(self.slots),
                    k,
                ) by {
                    if k < before.engines@.len() {
                        assert(slot_taken(slots_of(before.slots), k));
                        let a = choose|a: Seq<char>| #[trigger]
                            slots_of(before.slots).dom().contains(a) && slots_of(before.slots)[a]
                                == k;
                        assert(slots_of(self.slots).dom().contains(a));
                    } else {
                        assert(slots_of(self.slots).dom().contains(id@));
                    }
                }
            },
        }
    }

    /// Turns to the next run config from `at` on that has no engine.
    fn turn_to_config<N>(&self, at: usize) -> (r: BuildStep<N>)
        requires
            self.wf(),
            at <= self.config_list().len(),
        ensures
            r.state.wf(self.config_list()),
            build_turns_to(
                self.config_list(),
                r.state,
                r.action,
                config_phase(self.config_list(), self.engine_map().dom(), at as int),
            ),
    {
        let mut state: BuildState<N> = BuildState::new();
        let mut i: usize = at;
        while i < self.configs.len()
            invariant
                i <= self.configs@.len(),
                state.read@.len() == 0,
                state.venues@.len() == 0,
                state.instruments@.len() == 0,
                state.prices@.len() == 0,
                config_phase(self.config_list(), self.engine_map().dom(), at as int)
                    == config_phase(self.config_list(), self.engine_map().dom(), i as int),
            decreases self.configs.len() - i,
        {
            if !slots_contains(&self.slots, self.configs[i].id.as_str()) {
                state.phase = BuildPhase::Creating { config: i };
                return BuildStep {
                    state,
                    action: BuildAction::CreateEngine(self.configs[i].engine),
                };
            }
            i += 1;
        }
        state.phase = BuildPhase::Finished;
        BuildStep { state, action: BuildAction::Finish(Ok(())) }
    }

    /// Advances building: for each run config that has no engine, an engine is created, its
    /// venues, instruments and settlement prices are set up, and the node takes it over.
    pub fn build<N>(&mut self, state: BuildState<N>, event: BuildEvent<E, N>) -> (r: BuildStep<N>)
        requires
            old(self).wf(),
            state.wf(old(self).config_list()),
            build_accepts(old(self).config_list(), state.phase, event),
        ensures
            build_taken(*old(self), state, event, *final(self), r.state, r.action),
    {
        match event {
            BuildEvent::Begin => self.turn_to_config(0),
            BuildEvent::Engine(engine) => match state.phase {
                BuildPhase::HandingOver { config } => {
                    self.keep_engine(config, engine);
                    self.turn_to_config(config + 1)
                },
                _ => vstd::pervasive::unreached(),
            },
            event => advance_setup(&self.configs, Ghost(self.engine_map().dom()), state, event),
        }
    }
}

/// A node has one run config, and it is consistent.
pub proof fn law_node_has_one_consistent_config<E>(node: BacktestNode<E>)
    requires
        node.wf(),
    ensures
        node.config_list().len() == 1,
        consistent(node.config_list()[0]),
{
    law_accepted_iff_consistent(node.config_list());
}

/// The list of engines holds the engine of each ID at a position of its own, and nothing
/// else.
pub proof fn law_each_engine_is_listed_once<E>(node: BacktestNode<E>)
    requires
        node.wf(),
    ensures
        forall|id: Seq<char>| #[trigger]
            node.engine_map().dom().contains(id) ==> {
                &&& 0 <= node.engine_position(id) < node.engine_list().len()
                &&& node.engine_list()[node.engine_position(id)] == node.engine_map()[id]
            },
        forall|a: Seq<char>, b: Seq<char>|
            #![trigger node.engine_position(a), node.engine_position(b)]
            node.engine_map().dom().contains(a) && node.engine_map().dom().contains(b) && a != b
                ==> node.engine_position(a) != node.engine_position(b),
        forall|i: int| 0 <= i < node.engine_list().len() ==> #[trigger] node.position_taken(i),
{
    assert forall|i: int| 0 <= i < node.engine_list().len() implies #[trigger] node.position_taken(
        i,
    ) by {
        assert(slot_taken(slots_of(node.slots), i));
        let id = choose|id: Seq<char>| #[trigger]
            slots_of(node.slots).dom().contains(id) && slots_of(node.slots)[id] == i;
        assert(node.engine_map().dom().contains(id));
    }
}

/// An ID that no run config has never has an engine; so a node has no engine, or just that
/// of its run config.
pub proof fn law_engines_are_configured<E>(node: BacktestNode<E>, id: Seq<char>)
    requires
        node.wf(),
    ensures
        node.engine_map().dom().contains(id) ==> id_configured(node.config_list(), id),
        node.engine_map().dom().contains(id) ==> id == node.config_list()[0].id@,
        node.engine_map().dom() != Set::<Seq<char>>::empty() ==> node.engine_map().dom().contains(
            node.config_list()[0].id@,
        ),
{
    law_node_has_one_consistent_config(node);
    let dom = node.engine_map().dom();
    if dom != Set::<Seq<char>>::empty() {
        assert(!(dom =~= Set::<Seq<char>>::empty()));
        let other = choose|other: Seq<char>| dom.contains(other);
        assert(slots_of(node.slots).dom().contains(other));
        assert(id_configured(node.config_list(), other));
    }
    if dom.contains(id) {
        assert(slots_of(node.slots).dom().contains(id));
    }
}

/// Whether one of a row of changes built the engine of a run config with an ID, and none
/// behind it took the engines out.
pub open spec fn built_since_disposal<E>(
    configs: Seq<BacktestRunConfig>,
    changes: Seq<NodeChange<E>>,
    id: Seq<char>,
) -> bool {
    exists|j: int| #[trigger] built_and_kept(configs, changes, id, j)
}

/// Whether the change at a position built the engine of a run config with an ID, and none
/// behind it took the engines out.
pub open spec fn built_and_kept<E>(
    configs: Seq<BacktestRunConfig>,
    changes: Seq<NodeChange<E>>,
    id: Seq<char>,
    j: int,
) -> bool {
    &&& 0 <= j < changes.len()
    &&& changes[j] matches NodeChange::Built { config, .. } && 0 <= config < configs.len()
        && configs[config].id@ == id
    &&& forall|k: int| j < k < changes.len() ==> !(#[trigger] changes[k] is Disposed)
}

/// Whatever is done to a node after it was created, it has an engine for an ID exactly when
/// the engine of a run config with that ID was built since the engines were last taken out.
pub proof fn law_engine_iff_built_since_disposal<E>(
    nodes: Seq<BacktestNode<E>>,
    changes: Seq<NodeChange<E>>,
    id: Seq<char>,
)
    requires
        nodes.len() == changes.len() + 1,
        nodes[0].engine_map() == Map::<Seq<char>, E>::empty(),
        forall|i: int|
            0 <= i < changes.len() ==> node_changed(nodes[i], #[trigger] changes[i], nodes[i + 1]),
    ensures
        nodes.last().config_list() == nodes[0].config_list(),
        nodes.last().engine_map().dom().contains(id) <==> built_since_disposal(
            nodes[0].config_list(),
            changes,
            id,
        ),
    decreases changes.len(),
{
    let configs = nodes[0].config_list();
    if changes.len() > 0 {
        let earlier = changes.drop_last();
        let n = earlier.len() as int;
        assert forall|i: int| 0 <= i < earlier.len() implies node_changed(
            nodes.drop_last()[i],
            #[trigger] earlier[i],
            nodes.drop_last()[i + 1],
        ) by {
            assert(earlier[i] == changes[i]);
        }
        law_engine_iff_built_since_disposal(nodes.drop_last(), earlier, id);
        assert(node_changed(nodes[n], changes[n], nodes[n + 1]));
        if built_since_disposal(configs, earlier, id) && !(changes[n] is Disposed) {
            let j = choose|j: int| #[trigger] built_and_kept(configs, earlier, id, j);
            assert forall|k: int| j < k < changes.len() implies !(#[trigger] changes[k] is Disposed) by {
                if k < n {
                    assert(earlier[k] == changes[k]);
                }
            }
            assert(built_and_kept(configs, changes, id, j));
        }
        if built_and_kept(configs, changes, id, n) {
            assert(built_since_disposal(configs, changes, id));
        }
        if built_since_disposal(configs, changes, id) {
            let j = choose|j: int| #[trigger] built_and_kept(configs, changes, id, j);
            if j < n {
                assert forall|k: int| j < k < earlier.len() implies !(
                #[trigger] earlier[k] is Disposed) by {
                    assert(earlier[k] == changes[k]);
                }
                assert(built_and_kept(configs, earlier, id, j));
                assert(!(changes[n] is Disposed));
            }
        }
    }
}

/// The engine that a row of changes leaves under an ID: the last that was built for it or put
/// in its place, unless the engines were taken out since.
pub open spec fn last_engine<E>(
    configs: Seq<BacktestRunConfig>,
    changes: Seq<NodeChange<E>>,
    id: Seq<char>,
) -> Option<E>
    decreases changes.len(),
{
    if changes.len() == 0 {
        None
    } else {
        match changes.last() {
            NodeChange::Disposed => None,
            NodeChange::Built { config, engine } if configs[config].id@ == id => Some(engine),
            NodeChange::Changed { id: changed, engine } if changed == id => Some(engine),
            _ => last_engine(configs, changes.drop_last(), id),
        }
    }
}

/// Whatever is done to a node after it was created, the engine that it has for an ID is the
/// last one that was built for it or put in its place.
pub proof fn law_engine_is_the_last_given<E>(
    nodes: Seq<BacktestNode<E>>,
    changes: Seq<NodeChange<E>>,
    id: Seq<char>,
)
    requires
        nodes.len() == changes.len() + 1,
        nodes[0].engine_map() == Map::<Seq<char>, E>::empty(),
        forall|i: int|
            0 <= i < changes.len() ==> node_changed(nodes[i], #[trigger] changes[i], nodes[i + 1]),
    ensures
        nodes.last().config_list() == nodes[0].config_list(),
        match last_engine(nodes[0].config_list(), changes, id) {
            Some(engine) => {
                &&& nodes.last().engine_map().dom().contains(id)
                &&& nodes.last().engine_map()[id] == engine
            },
            None => !nodes.last().engine_map().dom().contains(id),
        },
    decreases changes.len(),
{
    if changes.len() > 0 {
        let earlier = changes.drop_last();
        let n = earlier.len() as int;
        assert forall|i: int| 0 <= i < earlier.len() implies node_changed(
            nodes.drop_last()[i],
            #[trigger] earlier[i],
            nodes.drop_last()[i + 1],
        ) by {
            assert(earlier[i] == changes[i]);
        }
        law_engine_is_the_last_given(nodes.drop_last(), earlier, id);
        assert(node_changed(nodes[n], changes[n], nodes[n + 1]));
    }
}

/// Where building is over without a failure, the run config has an engine.
pub proof fn law_finished_build_has_the_engine<E, N>(
    before: BacktestNode<E>,
    state: BuildState<N>,
    event: BuildEvent<E, N>,
    after: BacktestNode<E>,
    next: BuildState<N>,
    action: BuildAction<N>,
)
    requires
        before.wf(),
        state.wf(before.config_list()),
        build_accepts(before.config_list(), state.phase, event),
        build_taken(before, state, event, after, next, action),
        action == BuildAction::<N>::Finish(Ok(())),
    ensures
        after.engine_map().dom().contains(after.config_list()[0].id@),
{
    law_node_has_one_consistent_config(before);
    lemma_finished_between_configs(
        after.config_list(),
        after.engine_map().dom(),
        state,
        event,
        next,
        action,
    );
    reveal_with_fuel(config_phase, 2);
}

/// All steps of building a node, from the first on: the node and the state ahead of each step
/// and behind the last, and the event and the action of each.
pub struct BuildTrace<E, N> {
    pub nodes: Seq<BacktestNode<E>>,
    pub states: Seq<BuildState<N>>,
    pub events: Seq<BuildEvent<E, N>>,
    pub actions: Seq<BuildAction<N>>,
}

impl<E, N> BuildTrace<E, N> {
    /// Whether the step at a position was taken.
    pub open spec fn step_taken(self, i: int) -> bool {
        &&& build_accepts(self.nodes[i].config_list(), self.states[i].phase, self.events[i])
        &&& build_taken(
            self.nodes[i],
            self.states[i],
            self.events[i],
            self.nodes[i + 1],
            self.states[i + 1],
            self.actions[i],
        )
    }

    /// Whether these are steps of building.
    pub open spec fn holds(self) -> bool {
        &&& self.events.len() > 0
        &&& self.nodes.len() == self.events.len() + 1
        &&& self.states.len() == self.events.len() + 1
        &&& self.actions.len() == self.events.len()
        &&& self.nodes[0].wf()
        &&& self.states[0].phase is Begin
        &&& forall|i: int| 0 <= i < self.events.len() ==> #[trigger] self.step_taken(i)
    }
}

/// What building a node does as a whole: the run config has an engine afterwards, and one
/// that was there is left alone; or nothing, if it fails.
pub open spec fn build_outcome<E>(
    before: BacktestNode<E>,
    result: Result<(), NodeError>,
    after: BacktestNode<E>,
) -> bool {
    let id = before.config_list()[0].id@;
    &&& after.wf()
    &&& after.config_list() == before.config_list()
    &&& match result {
        Ok(()) => {
            &&& after.engine_map().dom().contains(id)
            &&& before.engine_map().dom().contains(id) ==> after.engine_map()
                == before.engine_map()
        },
        Err(error) => {
            &&& after.engine_map() == before.engine_map()
            &&& !(error is EngineNotFound)
        },
    }
}

/// Until the last step of building, the engines of the node are those that it had.
pub proof fn lemma_engines_kept_while_building<E, N>(trace: BuildTrace<E, N>, k: int)
    requires
        trace.holds(),
        0 <= k < trace.events.len(),
    ensures
        trace.nodes[k].wf(),
        trace.nodes[k].config_list() == trace.nodes[0].config_list(),
        trace.nodes[k].engine_map() == trace.nodes[0].engine_map(),
        trace.states[k].wf(trace.nodes[0].config_list()),
        trace.states[k].phase is Begin <==> k == 0,
    decreases k,
{
    if k > 0 {
        lemma_engines_kept_while_building(trace, k - 1);
        law_node_has_one_consistent_config(trace.nodes[0]);
        assert(trace.step_taken(k - 1));
        assert(trace.step_taken(k));
        reveal_with_fuel(config_phase, 2);
    }
}

/// Building a node as a whole gives its run config an engine, the one that was handed over,
/// or leaves the one that was there alone; and where it fails, the node has just the engines
/// that it had.
pub proof fn law_build_as_a_whole<E, N>(trace: BuildTrace<E, N>, result: Result<(), NodeError>)
    requires
        trace.holds(),
        trace.actions.last() == BuildAction::<N>::Finish(result),
    ensures
        build_outcome(trace.nodes[0], result, trace.nodes.last()),
        ({
            let id = trace.nodes[0].config_list()[0].id@;
            result is Ok ==> if trace.nodes[0].engine_map().dom().contains(id) {
                trace.events.len() == 1
            } else {
                trace.events.last() matches BuildEvent::Engine(engine)
                    && trace.nodes.last().engine_map() == trace.nodes[0].engine_map().insert(
                    id,
                    engine,
                )
            }
        }),
{
    let n = trace.events.len() - 1;
    let configs = trace.nodes[0].config_list();
    law_node_has_one_consistent_config(trace.nodes[0]);
    lemma_engines_kept_while_building(trace, n);
    assert(trace.step_taken(0));
    assert(trace.step_taken(n));
    reveal_with_fuel(config_phase, 2);
    if result is Ok {
        law_finished_build_has_the_engine(
            trace.nodes[n],
            trace.states[n],
            trace.events[n],
            trace.nodes[n + 1],
            trace.states[n + 1],
            trace.actions[n],
        );
        lemma_finished_between_configs(
            configs,
            trace.nodes[n + 1].engine_map().dom(),
            trace.states[n],
            trace.events[n],
            trace.states[n + 1],
            trace.actions[n],
        );
        if n > 0 {
            assert(trace.step_taken(1));
        }
    }
}

/// Where the run config has an engine, building again does nothing.
pub proof fn law_building_again_does_nothing<E, N>(
    node: BacktestNode<E>,
    state: BuildState<N>,
    next: BuildState<N>,
    action: BuildAction<N>,
)
    requires
        node.wf(),
        node.engine_map().dom().contains(node.config_list()[0].id@),
        state.phase is Begin,
        build_rule(
            node.config_list(),
            node.engine_map().dom(),
            state,
            BuildEvent::<E, N>::Begin,
            next,
            action,
        ),
    ensures
        action == BuildAction::<N>::Finish(Ok(())),
{
    law_node_has_one_consistent_config(node);
    reveal_with_fuel(config_phase, 2);
}

} // verus!
