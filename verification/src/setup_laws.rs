//! What holds of every building of an engine, told by the row of what is asked for and of
//! what is told in return.
use crate::catalog_laws::{law_catalog_is_the_one_configured, opened_at};
use crate::config::{BacktestRunConfig, BacktestVenueConfig, InstrumentId, Money};
use crate::error::NodeError;
use crate::node::{
    law_node_has_one_consistent_config, lemma_engines_kept_while_building, BuildTrace,
};
use crate::setup::{
    build_accepts, build_asks, build_rule, config_phase, price_phase, venue_prices, BuildAction,
    BuildEvent, BuildPhase, BuildState,
};
use crate::text::joined;
use crate::venue_laws::{has_settings, law_added_venue_is_as_configured};
use vstd::prelude::*;

verus! {

/// How many settlement prices a venue has.
pub open spec fn price_count(venue: BacktestVenueConfig) -> int {
    match venue.settlement_prices {
        Some(prices) => prices@.len() as int,
        None => 0,
    }
}

/// How many settlement prices the venues ahead of one have.
pub open spec fn prices_before(venues: Seq<BacktestVenueConfig>, v: int) -> int
    decreases v,
{
    if v <= 0 {
        0
    } else {
        prices_before(venues, v - 1) + price_count(venues[v - 1])
    }
}

/// The place of the first venue among what building asks for: behind the engine.
pub open spec fn venue_place(v: int) -> int {
    1 + 2 * v
}

/// The place of a data config: behind the engine, and behind two actions for each venue.
pub open spec fn data_place(config: BacktestRunConfig, d: int) -> int {
    1 + 2 * config.venues@.len() + 3 * d
}

/// The place of a settlement price: behind three actions for each data config.
pub open spec fn price_place(config: BacktestRunConfig, v: int, p: int) -> int {
    data_place(config, config.data@.len() as int) + 2 * (prices_before(config.venues@, v) + p)
}

/// The place of what a phase waits for.
pub open spec fn phase_place(config: BacktestRunConfig, phase: BuildPhase) -> int {
    match phase {
        BuildPhase::Creating { .. } => 0,
        BuildPhase::Reading { venue, .. } => venue_place(venue as int),
        BuildPhase::AddingVenue { venue, .. } => venue_place(venue as int) + 1,
        BuildPhase::Opening { data, .. } => data_place(config, data as int),
        BuildPhase::Querying { data, .. } => data_place(config, data as int) + 1,
        BuildPhase::AddingInstruments { data, .. } => data_place(config, data as int) + 2,
        BuildPhase::Finding { venue, price, .. } => price_place(
            config,
            venue as int,
            price as int,
        ),
        BuildPhase::Pricing { venue, price, .. } => price_place(
            config,
            venue as int,
            price as int,
        ) + 1,
        BuildPhase::HandingOver { .. } => price_place(config, config.venues@.len() as int, 0),
        _ => -1,
    }
}

/// The next settlement price, or the engine if there are no more, has the next place.
proof fn lemma_price_phase_place(config: BacktestRunConfig, v: int, p: int)
    requires
        0 <= v <= config.venues@.len(),
        v < config.venues@.len() ==> 0 <= p <= price_count(config.venues@[v]),
        v == config.venues@.len() ==> p == 0,
    ensures
        phase_place(config, price_phase(config, 0, v, p)) == price_place(config, v, p),
        match price_phase(config, 0, v, p) {
            BuildPhase::Finding { config: c, venue, price } => {
                &&& c == 0
                &&& venue < config.venues@.len()
                &&& price < price_count(config.venues@[venue as int])
            },
            BuildPhase::HandingOver { config: c } => c == 0,
            _ => false,
        },
    decreases config.venues@.len() - v,
{
    if v < config.venues@.len() {
        assert(config.venues.len() == config.venues@.len());
        if p < venue_prices(config.venues@[v]).len() {
            assert(config.venues@[v].settlement_prices->0.len()
                == config.venues@[v].settlement_prices->0@.len());
        } else {
            lemma_price_phase_place(config, v + 1, 0);
        }
    }
}

/// Settlement prices of venues further back have no lower places.
proof fn lemma_prices_before_grow(venues: Seq<BacktestVenueConfig>, a: int, b: int)
    requires
        0 <= a <= b,
    ensures
        prices_before(venues, a) <= prices_before(venues, b),
    decreases b - a,
{
    if a < b {
        lemma_prices_before_grow(venues, a, b - 1);
    }
}

/// No two settlement prices have one place, and none has the place of the engine.
proof fn lemma_price_places_differ(config: BacktestRunConfig, v: int, p: int, w: int, q: int)
    requires
        0 <= v < config.venues@.len(),
        0 <= p < price_count(config.venues@[v]),
        0 <= w <= config.venues@.len(),
        w < config.venues@.len() ==> 0 <= q < price_count(config.venues@[w]),
        w == config.venues@.len() ==> q == 0,
        price_place(config, v, p) == price_place(config, w, q),
    ensures
        v == w && p == q,
{
    let venues = config.venues@;
    if v < w {
        lemma_prices_before_grow(venues, v + 1, w);
    } else if w < v {
        lemma_prices_before_grow(venues, w + 1, v);
    }
}

/// One step of setting up an engine moves on by one place.
proof fn lemma_step_moves_one_place<E, N>(
    configs: Seq<BacktestRunConfig>,
    built: Set<Seq<char>>,
    before: BuildState<N>,
    event: BuildEvent<E, N>,
    after: BuildState<N>,
    action: BuildAction<N>,
)
    requires
        configs.len() == 1,
        before.wf(configs),
        build_accepts(configs, before.phase, event),
        build_rule(configs, built, before, event, after, action),
        !(before.phase is Begin || before.phase is HandingOver),
        !(action is Finish),
    ensures
        phase_place(configs[0], after.phase) == phase_place(configs[0], before.phase) + 1,
{
    let config = configs[0];
    assert(config.venues.len() == config.venues@.len());
    assert(config.data.len() == config.data@.len());
    match before.phase {
        BuildPhase::Creating { .. } => {
            lemma_price_phase_place(config, 0, 0);
        },
        BuildPhase::AddingVenue { .. } => {
            lemma_price_phase_place(config, 0, 0);
        },
        BuildPhase::AddingInstruments { .. } => {
            lemma_price_phase_place(config, 0, 0);
        },
        BuildPhase::Pricing { venue, price, .. } => {
            lemma_price_phase_place(config, venue as int, price + 1);
        },
        _ => {},
    }
}

impl<E, N> BuildTrace<E, N> {
    /// The run config that is built.
    pub open spec fn config(self) -> BacktestRunConfig {
        self.nodes[0].config_list()[0]
    }

    /// Whether the node had no engine for it.
    pub open spec fn from_scratch(self) -> bool {
        !self.nodes[0].engine_map().dom().contains(self.config().id@)
    }
}

/// Until building is over, each action stands at the place of the phase that follows it.
proof fn lemma_action_stands_at_its_place<E, N>(trace: BuildTrace<E, N>, k: int)
    requires
        trace.holds(),
        trace.from_scratch(),
        0 <= k < trace.actions.len(),
        !(trace.actions[k] is Finish),
    ensures
        trace.nodes[0].config_list().len() == 1,
        trace.nodes[k].config_list() == trace.nodes[0].config_list(),
        trace.nodes[k + 1].config_list() == trace.nodes[0].config_list(),
        trace.states[k].wf(trace.nodes[0].config_list()),
        trace.states[k + 1].wf(trace.nodes[0].config_list()),
        phase_place(trace.config(), trace.states[k + 1].phase) == k,
        !(trace.states[k + 1].phase is Begin || trace.states[k + 1].phase is Finished),
        k > 0 ==> !(trace.actions[k - 1] is Finish) && phase_place(
            trace.config(),
            trace.states[k].phase,
        ) == k - 1,
    decreases k,
{
    law_node_has_one_consistent_config(trace.nodes[0]);
    lemma_engines_kept_while_building(trace, k);
    assert(trace.step_taken(k));
    reveal_with_fuel(config_phase, 2);
    if k > 0 {
        assert(trace.step_taken(k - 1));
        if trace.actions[k - 1] is Finish {
            assert(trace.states[k].phase is Finished) by {
                lemma_engines_kept_while_building(trace, k - 1);
                lemma_finish_finishes(
                    trace.nodes[k].config_list(),
                    trace.nodes[k].engine_map().dom(),
                    trace.states[k - 1],
                    trace.events[k - 1],
                    trace.states[k],
                    trace.actions[k - 1],
                );
            }
        }
        lemma_action_stands_at_its_place(trace, k - 1);
        lemma_step_moves_one_place(
            trace.nodes[0].config_list(),
            trace.nodes[k + 1].engine_map().dom(),
            trace.states[k],
            trace.events[k],
            trace.states[k + 1],
            trace.actions[k],
        );
    }
}

/// Building that is over waits for nothing.
proof fn lemma_finish_finishes<E, N>(
    configs: Seq<BacktestRunConfig>,
    built: Set<Seq<char>>,
    before: BuildState<N>,
    event: BuildEvent<E, N>,
    after: BuildState<N>,
    action: BuildAction<N>,
)
    requires
        before.wf(configs),
        build_accepts(configs, before.phase, event),
        build_rule(configs, built, before, event, after, action),
        action is Finish,
    ensures
        after.phase is Finished,
{
}

/// Building asks for the engine first.
pub proof fn law_engine_is_created_first<E, N>(trace: BuildTrace<E, N>)
    requires
        trace.holds(),
        trace.from_scratch(),
    ensures
        trace.actions[0] == BuildAction::<N>::CreateEngine(trace.config().engine),
{
    law_node_has_one_consistent_config(trace.nodes[0]);
    assert(trace.step_taken(0));
    reveal_with_fuel(config_phase, 2);
}

/// For each venue in turn, building asks for its own balances to be read, and then for that
/// venue to be added, with every setting of its config and the balances that were read.
pub proof fn law_venues_are_added_in_turn<E, N>(trace: BuildTrace<E, N>, v: int)
    requires
        trace.holds(),
        trace.from_scratch(),
        0 <= v < trace.config().venues@.len(),
    ensures
        ({
            let config = trace.config().venues@[v];
            let k = 1 + 2 * v;
            &&& k < trace.actions.len() && !(trace.actions[k] is Finish) ==> {
                &&& trace.actions[k] matches BuildAction::ReadBalances(texts)
                &&& texts@.len() == config.starting_balances@.len()
                &&& forall|i: int|
                    0 <= i < texts@.len() ==> (#[trigger] texts@[i])@
                        == config.starting_balances@[i]@
            }
            &&& k + 1 < trace.actions.len() && !(trace.actions[k + 1] is Finish) ==> {
                &&& trace.actions[k + 1] matches BuildAction::AddVenue(venue)
                &&& has_settings(venue, config)
                &&& trace.events[k + 1] matches BuildEvent::Balances(parsed)
                &&& parsed@.len() == config.starting_balances@.len()
                &&& venue.starting_balances@.len() == parsed@.len()
                &&& forall|i: int|
                    0 <= i < parsed@.len() ==> #[trigger] parsed@[i] == Ok::<Money, String>(
                        venue.starting_balances@[i],
                    )
            }
        }),
{
    let k = 1 + 2 * v;
    let config = trace.config();
    let configs = trace.nodes[0].config_list();
    if k < trace.actions.len() && !(trace.actions[k] is Finish) {
        lemma_action_stands_at_its_place(trace, k);
        lemma_phase_at_venue(config, trace.states[k + 1], configs, v, 0);
        assert(trace.step_taken(k));
    }
    if k + 1 < trace.actions.len() && !(trace.actions[k + 1] is Finish) {
        lemma_action_stands_at_its_place(trace, k + 1);
        lemma_phase_at_venue(config, trace.states[k + 1], configs, v, 0);
        assert(trace.step_taken(k + 1));
        if let BuildEvent::Balances(parsed) = trace.events[k + 1] {
            law_added_venue_is_as_configured::<E, N>(
                configs,
                trace.nodes[k + 2].engine_map().dom(),
                trace.states[k + 1],
                0,
                v as usize,
                parsed,
                trace.states[k + 2],
                trace.actions[k + 1],
            );
        }
    }
}

/// What building waits for at a place of a venue.
proof fn lemma_phase_at_venue<N>(
    config: BacktestRunConfig,
    state: BuildState<N>,
    configs: Seq<BacktestRunConfig>,
    v: int,
    step: int,
)
    requires
        configs.len() == 1,
        config == configs[0],
        state.wf(configs),
        !(state.phase is Begin || state.phase is Finished),
        0 <= v < config.venues@.len(),
        step == 0 || step == 1,
        phase_place(config, state.phase) == venue_place(v) + step,
    ensures
        step == 0 ==> state.phase == (BuildPhase::Reading { config: 0, venue: v as usize }),
        step == 1 ==> state.phase == (BuildPhase::AddingVenue { config: 0, venue: v as usize }),
{
    assert(config.venues.len() == config.venues@.len());
    match state.phase {
        BuildPhase::Finding { venue, .. } => {
            lemma_prices_before_grow(config.venues@, 0, venue as int);
        },
        BuildPhase::Pricing { venue, .. } => {
            lemma_prices_before_grow(config.venues@, 0, venue as int);
        },
        BuildPhase::HandingOver { .. } => {
            lemma_prices_before_grow(config.venues@, 0, config.venues@.len() as int);
        },
        _ => {},
    }
}

/// What building waits for at a place of a data config.
proof fn lemma_phase_at_data<N>(
    config: BacktestRunConfig,
    state: BuildState<N>,
    configs: Seq<BacktestRunConfig>,
    d: int,
    step: int,
)
    requires
        configs.len() == 1,
        config == configs[0],
        state.wf(configs),
        !(state.phase is Begin || state.phase is Finished),
        0 <= d < config.data@.len(),
        0 <= step <= 2,
        phase_place(config, state.phase) == data_place(config, d) + step,
    ensures
        step == 0 ==> state.phase == (BuildPhase::Opening { config: 0, data: d as usize }),
        step == 1 ==> state.phase == (BuildPhase::Querying { config: 0, data: d as usize }),
        step == 2 ==> state.phase == (BuildPhase::AddingInstruments {
            config: 0,
            data: d as usize,
        }),
{
    assert(config.data.len() == config.data@.len());
    match state.phase {
        BuildPhase::Finding { venue, .. } => {
            lemma_prices_before_grow(config.venues@, 0, venue as int);
        },
        BuildPhase::Pricing { venue, .. } => {
            lemma_prices_before_grow(config.venues@, 0, venue as int);
        },
        BuildPhase::HandingOver { .. } => {
            lemma_prices_before_grow(config.venues@, 0, config.venues@.len() as int);
        },
        _ => {},
    }
}

/// For each data config in turn, building asks for the catalog that this data config names to
/// be opened, then for the instruments that this data config names to be queried of it, and
/// then for the engine to be given just what that query was answered.
pub proof fn law_instruments_come_from_their_own_catalog<E, N>(trace: BuildTrace<E, N>, d: int)
    requires
        trace.holds(),
        trace.from_scratch(),
        0 <= d < trace.config().data@.len(),
    ensures
        ({
            let data = trace.config().data@[d];
            let k = 1 + 2 * trace.config().venues@.len() + 3 * d;
            &&& k < trace.actions.len() && !(trace.actions[k] is Finish) ==> {
                &&& trace.actions[k] matches BuildAction::OpenCatalog(request)
                &&& opened_at(request, data)
            }
            &&& k + 1 < trace.actions.len() && !(trace.actions[k + 1] is Finish) ==> {
                &&& trace.actions[k + 1] matches BuildAction::QueryInstruments(filter)
                &&& data.instrument_ids matches Ok(ids)
                &&& filter is None <==> ids@.len() == 0
                &&& filter matches Some(list) ==> {
                    &&& list@.len() == ids@.len()
                    &&& forall|i: int|
                        0 <= i < ids@.len() ==> (#[trigger] list@[i])@ == ids@[i].symbol@ + "."@
                            + ids@[i].venue@
                }
            }
            &&& k + 2 < trace.actions.len() && !(trace.actions[k + 2] is Finish) ==> {
                &&& trace.actions[k + 2] matches BuildAction::AddInstruments(list)
                &&& trace.events[k + 2] matches BuildEvent::Instruments(reply)
                &&& list@ == reply@
            }
        }),
{
    let k = 1 + 2 * trace.config().venues@.len() + 3 * d;
    let config = trace.config();
    let configs = trace.nodes[0].config_list();
    if k < trace.actions.len() && !(trace.actions[k] is Finish) {
        lemma_action_stands_at_its_place(trace, k);
        lemma_phase_at_data(config, trace.states[k + 1], configs, d, 0);
        assert(trace.step_taken(k));
        assert(build_asks(configs, trace.states[k + 1].phase, trace.actions[k])) by {
            lemma_asked_at_opening(trace, k);
        }
        if let BuildAction::OpenCatalog(request) = trace.actions[k] {
            law_catalog_is_the_one_configured(config.data@[d], request);
        }
    }
    if k + 1 < trace.actions.len() && !(trace.actions[k + 1] is Finish) {
        lemma_action_stands_at_its_place(trace, k + 1);
        lemma_phase_at_data(config, trace.states[k + 2], configs, d, 1);
        lemma_phase_at_data(config, trace.states[k + 1], configs, d, 0);
        assert(trace.step_taken(k + 1));
    }
    if k + 2 < trace.actions.len() && !(trace.actions[k + 2] is Finish) {
        lemma_action_stands_at_its_place(trace, k + 2);
        lemma_phase_at_data(config, trace.states[k + 3], configs, d, 2);
        lemma_phase_at_data(config, trace.states[k + 2], configs, d, 1);
        assert(trace.step_taken(k + 2));
    }
}

/// A step that leads to a catalog being opened asks for that.
proof fn lemma_asked_at_opening<E, N>(trace: BuildTrace<E, N>, k: int)
    requires
        trace.holds(),
        0 <= k < trace.actions.len(),
        trace.states[k + 1].phase is Opening || trace.states[k + 1].phase is Finding
            || trace.states[k + 1].phase is HandingOver,
        trace.nodes[k + 1].config_list() == trace.nodes[0].config_list(),
        trace.states[k].wf(trace.nodes[0].config_list()),
        !(trace.actions[k] is Finish),
    ensures
        build_asks(
            trace.nodes[0].config_list(),
            trace.states[k + 1].phase,
            trace.actions[k],
        ),
{
    assert(trace.step_taken(k));
}

/// For each settlement price in turn, venue by venue, building asks whether the engine knows
/// its instrument, and then for that very price to be set for that venue and instrument.
pub proof fn law_prices_are_set_in_turn<E, N>(trace: BuildTrace<E, N>, v: int, p: int)
    requires
        trace.holds(),
        trace.from_scratch(),
        0 <= v < trace.config().venues@.len(),
        trace.config().venues@[v].settlement_prices is Some,
        0 <= p < trace.config().venues@[v].settlement_prices->0@.len(),
    ensures
        ({
            let venue = trace.config().venues@[v];
            let entry = venue.settlement_prices->0@[p];
            let k = price_place(trace.config(), v, p);
            &&& k < trace.actions.len() && !(trace.actions[k] is Finish) ==> trace.actions[k]
                == BuildAction::<N>::FindInstrument(entry.0)
            &&& k + 1 < trace.actions.len() && !(trace.actions[k + 1] is Finish) ==> {
                &&& trace.actions[k + 1] matches BuildAction::SetSettlementPrice {
                    venue: name,
                    instrument,
                    price,
                }
                &&& name@ == venue.name@
                &&& instrument == entry.0
                &&& price == entry.1
                &&& trace.events[k + 1] == BuildEvent::<E, N>::Found(true)
            }
        }),
{
    let config = trace.config();
    let configs = trace.nodes[0].config_list();
    let k = price_place(config, v, p);
    assert(config.venues.len() == config.venues@.len());
    assert(config.venues@[v].settlement_prices->0.len()
        == config.venues@[v].settlement_prices->0@.len());
    lemma_prices_before_grow(config.venues@, 0, v);
    if k < trace.actions.len() && !(trace.actions[k] is Finish) {
        lemma_action_stands_at_its_place(trace, k);
        lemma_phase_at_price(config, trace.states[k + 1], configs, v, p, 0);
        assert(trace.step_taken(k));
        lemma_asked_at_opening(trace, k);
    }
    if k + 1 < trace.actions.len() && !(trace.actions[k + 1] is Finish) {
        lemma_action_stands_at_its_place(trace, k + 1);
        lemma_phase_at_price(config, trace.states[k + 1], configs, v, p, 0);
        assert(trace.step_taken(k + 1));
    }
}

/// What building waits for at a place of a settlement price.
proof fn lemma_phase_at_price<N>(
    config: BacktestRunConfig,
    state: BuildState<N>,
    configs: Seq<BacktestRunConfig>,
    v: int,
    p: int,
    step: int,
)
    requires
        configs.len() == 1,
        config == configs[0],
        state.wf(configs),
        !(state.phase is Begin || state.phase is Finished),
        0 <= v < config.venues@.len(),
        0 <= p < price_count(config.venues@[v]),
        step == 0 || step == 1,
        phase_place(config, state.phase) == price_place(config, v, p) + step,
    ensures
        step == 0 ==> state.phase == (BuildPhase::Finding {
            config: 0,
            venue: v as usize,
            price: p as usize,
        }),
        step == 1 ==> state.phase == (BuildPhase::Pricing {
            config: 0,
            venue: v as usize,
            price: p as usize,
        }),
{
    lemma_prices_before_grow(config.venues@, 0, v);
    match state.phase {
        BuildPhase::Finding { venue, price, .. } => {
            if step == 0 {
                lemma_price_places_differ(config, v, p, venue as int, price as int);
            }
        },
        BuildPhase::Pricing { venue, price, .. } => {
            if step == 1 {
                lemma_price_places_differ(config, v, p, venue as int, price as int);
            }
        },
        BuildPhase::HandingOver { .. } => {
            if step == 0 {
                lemma_price_places_differ(config, v, p, config.venues@.len() as int, 0);
            }
        },
        _ => {},
    }
}

/// The engine is handed over behind all of this, and not before: every venue was added, the
/// instruments of every data config were given to it as its own catalog answered, and every
/// settlement price was set.
pub proof fn law_engine_is_handed_over_last<E, N>(trace: BuildTrace<E, N>, k: int)
    requires
        trace.holds(),
        trace.from_scratch(),
        0 <= k < trace.actions.len(),
        trace.actions[k] is HandOver,
    ensures
        ({
            let config = trace.config();
            let venues = config.venues@.len() as int;
            let data = config.data@.len() as int;
            &&& k == 1 + 2 * venues + 3 * data + 2 * prices_before(config.venues@, venues)
            &&& forall|j: int| 0 <= j < k ==> !(#[trigger] trace.actions[j] is Finish)
            &&& forall|v: int|
                0 <= v < venues ==> {
                    &&& #[trigger] trace.actions[2 + 2 * v] matches BuildAction::AddVenue(venue)
                    &&& has_settings(venue, config.venues@[v])
                }
            &&& forall|d: int|
                0 <= d < data ==> {
                    let at = 1 + 2 * venues + 3 * d;
                    &&& #[trigger] trace.actions[1 + 2 * venues + 3 * d]
                        matches BuildAction::OpenCatalog(request)
                    &&& opened_at(request, config.data@[d])
                    &&& trace.actions[at + 1] is QueryInstruments
                    &&& trace.actions[at + 2] matches BuildAction::AddInstruments(list)
                    &&& trace.events[at + 2] matches BuildEvent::Instruments(reply)
                    &&& list@ == reply@
                }
        }),
{
    let config = trace.config();
    let venues = config.venues@.len() as int;
    let data = config.data@.len() as int;
    lemma_action_stands_at_its_place(trace, k);
    assert(trace.step_taken(k));
    lemma_prices_before_grow(config.venues@, 0, venues);
    assert(trace.states[k + 1].phase is HandingOver) by {
        lemma_handover_phase(
            trace.nodes[0].config_list(),
            trace.nodes[k + 1].engine_map().dom(),
            trace.states[k],
            trace.events[k],
            trace.states[k + 1],
            trace.actions[k],
        );
    }
    assert forall|j: int| 0 <= j < k implies !(#[trigger] trace.actions[j] is Finish) by {
        lemma_no_finish_ahead(trace, j, k);
    }
    assert forall|v: int| 0 <= v < venues implies {
        &&& #[trigger] trace.actions[2 + 2 * v] matches BuildAction::AddVenue(venue)
        &&& has_settings(venue, config.venues@[v])
    } by {
        law_venues_are_added_in_turn(trace, v);
        assert(!(trace.actions[2 + 2 * v] is Finish));
    }
    assert forall|d: int| 0 <= d < data implies {
        let at = 1 + 2 * venues + 3 * d;
        &&& #[trigger] trace.actions[1 + 2 * venues + 3 * d]
            matches BuildAction::OpenCatalog(request)
        &&& opened_at(request, config.data@[d])
        &&& trace.actions[at + 1] is QueryInstruments
        &&& trace.actions[at + 2] matches BuildAction::AddInstruments(list)
        &&& trace.events[at + 2] matches BuildEvent::Instruments(reply)
        &&& list@ == reply@
    } by {
        let at = 1 + 2 * venues + 3 * d;
        law_instruments_come_from_their_own_catalog(trace, d);
        assert(!(trace.actions[at] is Finish));
        assert(!(trace.actions[at + 1] is Finish));
        assert(!(trace.actions[at + 2] is Finish));
    }
}

/// Only what leads to the engine being handed over asks for that.
proof fn lemma_handover_phase<E, N>(
    configs: Seq<BacktestRunConfig>,
    built: Set<Seq<char>>,
    before: BuildState<N>,
    event: BuildEvent<E, N>,
    after: BuildState<N>,
    action: BuildAction<N>,
)
    requires
        before.wf(configs),
        build_accepts(configs, before.phase, event),
        build_rule(configs, built, before, event, after, action),
        action is HandOver,
    ensures
        after.phase is HandingOver,
{
}

/// Nothing ahead of an action that goes on ended the building.
proof fn lemma_no_finish_ahead<E, N>(trace: BuildTrace<E, N>, j: int, k: int)
    requires
        trace.holds(),
        trace.from_scratch(),
        0 <= j <= k < trace.actions.len(),
        !(trace.actions[k] is Finish),
    ensures
        !(trace.actions[j] is Finish),
    decreases k - j,
{
    if j < k {
        lemma_action_stands_at_its_place(trace, k);
        lemma_no_finish_ahead(trace, j, k - 1);
    }
}

/// Building fails only for what it was told: outside work that failed, in its own words; a
/// balance that could not be read; a query that found none of the instruments it named; or a
/// settlement price for an instrument that the engine does not know.
pub proof fn law_building_fails_only_for_a_reason<E, N>(
    trace: BuildTrace<E, N>,
    k: int,
    error: NodeError,
)
    requires
        trace.holds(),
        trace.from_scratch(),
        0 < k < trace.actions.len(),
    ensures
        trace.events[k] matches BuildEvent::Failed(message) ==> trace.actions[k]
            == BuildAction::<N>::Finish(Err(NodeError::Outside { message })),
        trace.actions[k] == BuildAction::<N>::Finish(Err(error)) ==> match trace.events[k] {
            BuildEvent::Failed(message) => error == (NodeError::Outside { message }),
            BuildEvent::Balances(parsed) => exists|i: int|
                0 <= i < parsed@.len() && (#[trigger] parsed@[i]) is Err && error
                    == (NodeError::InvalidBalance { message: parsed@[i]->Err_0 }),
            BuildEvent::Instruments(list) => {
                &&& list@.len() == 0
                &&& trace.actions[k - 1] matches BuildAction::QueryInstruments(Some(names))
                &&& error matches NodeError::NoInstruments { listing }
                &&& listing@ == joined(names@.map_values(|name: String| name@), ", "@)
            },
            BuildEvent::Found(found) => {
                &&& !found
                &&& trace.actions[k - 1] matches BuildAction::FindInstrument(instrument) && error
                    == (NodeError::NoSettlementInstrument { instrument })
            },
            _ => false,
        },
        trace.events[k] == BuildEvent::<E, N>::Found(false) ==> trace.actions[k] is Finish,
        trace.events[k] matches BuildEvent::Instruments(list) && list@.len() == 0 && (
        trace.actions[k - 1] matches BuildAction::QueryInstruments(filter) && filter is Some)
            ==> trace.actions[k] is Finish,
{
    let configs = trace.nodes[0].config_list();
    law_node_has_one_consistent_config(trace.nodes[0]);
    lemma_engines_kept_while_building(trace, k);
    lemma_engines_kept_while_building(trace, k - 1);
    assert(trace.step_taken(k));
    assert(trace.step_taken(k - 1));
    reveal_with_fuel(config_phase, 2);
    if trace.actions[k - 1] is Finish {
        lemma_finish_finishes(
            configs,
            trace.nodes[k].engine_map().dom(),
            trace.states[k - 1],
            trace.events[k - 1],
            trace.states[k],
            trace.actions[k - 1],
        );
    } else {
        lemma_action_stands_at_its_place(trace, k - 1);
    }
    if let (BuildPhase::Querying { data, .. }, BuildEvent::Instruments(_)) = (
        trace.states[k].phase,
        trace.events[k],
    ) {
        let ids = configs[0].data@[data as int].instrument_ids->Ok_0@;
        if let BuildAction::QueryInstruments(Some(names)) = trace.actions[k - 1] {
            assert(names@.map_values(|name: String| name@) =~= ids.map_values(
                |id: InstrumentId| id.text(),
            ));
        }
    }
    if let (BuildPhase::Reading { config, venue }, BuildEvent::Balances(parsed)) = (
        trace.states[k].phase,
        trace.events[k],
    ) {
        law_added_venue_is_as_configured::<E, N>(
            configs,
            trace.nodes[k + 1].engine_map().dom(),
            trace.states[k],
            config,
            venue,
            parsed,
            trace.states[k + 1],
            trace.actions[k],
        );
    }
}

} // verus!
