//! Sets up an engine for a run: its venues, its instruments, its settlement prices.
//!
//! As with runs, nothing outside is done here. Building is a state that is advanced by
//! events; each advance yields one action, and the next event is the reply to it:
//!
//! | action | reply |
//! |---|---|
//! | `CreateEngine`, `AddVenue`, `OpenCatalog`, `AddInstruments`, `SetSettlementPrice` | `Done` or `Failed` |
//! | `ReadBalances` | `Balances`, one for each that was to be read |
//! | `QueryInstruments` | `Instruments` or `Failed` |
//! | `FindInstrument` | `Found` |
//! | `HandOver` | `Engine` |
//! | `Finish` | none: building is over |
use crate::catalog::{catalog_for, create_catalog, CatalogRequest};
use crate::config::{
    copy_strings, BacktestRunConfig, BacktestVenueConfig, Handle, InstrumentId, Money, RawPrice,
};
use crate::error::NodeError;
use crate::text::{join, joined};
use crate::venue::{
    collect_balances, first_unreadable, readable, simulated_venue, SimulatedVenueConfig,
};
use vstd::prelude::*;

verus! {

/// What building asks for next.
#[derive(Debug)]
pub enum BuildAction<N> {
    /// Create an engine.
    CreateEngine(Handle),
    /// Read balances that are given in writing.
    ReadBalances(Vec<String>),
    /// Add a venue to the engine.
    AddVenue(SimulatedVenueConfig),
    /// Open a catalog.
    OpenCatalog(CatalogRequest),
    /// Query the open catalog for instruments, restricted to these if any are given.
    QueryInstruments(Option<Vec<String>>),
    /// Add instruments to the engine, one after the other, up to the first that fails.
    AddInstruments(Vec<N>),
    /// Find out whether the engine knows an instrument.
    FindInstrument(InstrumentId),
    /// Make this the settlement price of an instrument that the engine knows.
    SetSettlementPrice { venue: String, instrument: InstrumentId, price: RawPrice },
    /// Hand the engine over to the node.
    HandOver,
    /// Building is over.
    Finish(Result<(), NodeError>),
}

/// What building is told.
#[derive(Debug)]
pub enum BuildEvent<E, N> {
    /// Building is to begin.
    Begin,
    /// The action was performed.
    Done,
    /// The action failed, for this reason.
    Failed(String),
    /// The balances in the order in which they were given, each as it was read or with the
    /// reason why it could not be.
    Balances(Vec<Result<Money, String>>),
    /// The instruments that the catalog holds.
    Instruments(Vec<N>),
    /// Whether the engine knows the instrument.
    Found(bool),
    /// The engine.
    Engine(E),
}

/// What building is waiting for.
#[derive(Debug, Clone, Copy, PartialEq, Eq, Structural)]
pub enum BuildPhase {
    Begin,
    Creating { config: usize },
    Reading { config: usize, venue: usize },
    AddingVenue { config: usize, venue: usize },
    Opening { config: usize, data: usize },
    Querying { config: usize, data: usize },
    AddingInstruments { config: usize, data: usize },
    Finding { config: usize, venue: usize, price: usize },
    Pricing { config: usize, venue: usize, price: usize },
    HandingOver { config: usize },
    Finished,
}

/// A settlement price that an engine is given.
pub struct SettlementPrice {
    pub venue: Seq<char>,
    pub instrument: InstrumentId,
    pub price: RawPrice,
}

/// How far building has come.
pub struct BuildState<N> {
    pub phase: BuildPhase,
    /// What was read of the starting balances of each venue.
    pub read: Ghost<Seq<Seq<Result<Money, String>>>>,
    /// The venues that the engine at hand was given.
    pub venues: Ghost<Seq<SimulatedVenueConfig>>,
    /// The instruments that it was given, data config by data config.
    pub instruments: Ghost<Seq<Seq<N>>>,
    /// The settlement prices that it was given.
    pub prices: Ghost<Seq<SettlementPrice>>,
}

/// One advance of building: its new state, and what is asked for next.
pub struct BuildStep<N> {
    pub state: BuildState<N>,
    pub action: BuildAction<N>,
}

/// Whether an event is a reply to what building is waiting for. Of balances, there must be
/// as many as are configured.
pub open spec fn build_accepts<E, N>(
    configs: Seq<BacktestRunConfig>,
    phase: BuildPhase,
    event: BuildEvent<E, N>,
) -> bool {
    match phase {
        BuildPhase::Begin => event is Begin,
        BuildPhase::Creating { .. }
        | BuildPhase::AddingVenue { .. }
        | BuildPhase::Opening { .. }
        | BuildPhase::AddingInstruments { .. }
        | BuildPhase::Pricing { .. } => event is Done || event is Failed,
        BuildPhase::Reading { config, venue } => event matches BuildEvent::Balances(parsed)
            && parsed@.len()
            == configs[config as int].venues@[venue as int].starting_balances@.len(),
        BuildPhase::Querying { .. } => event is Instruments || event is Failed,
        BuildPhase::Finding { .. } => event is Found,
        BuildPhase::HandingOver { .. } => event is Engine,
        BuildPhase::Finished => false,
    }
}

/// The settlement prices of a venue.
pub open spec fn venue_prices(venue: BacktestVenueConfig) -> Seq<SettlementPrice> {
    match venue.settlement_prices {
        Some(prices) => Seq::new(
            prices@.len(),
            |p: int|
                SettlementPrice {
                    venue: venue.name@,
                    instrument: prices@[p].0,
                    price: prices@[p].1,
                },
        ),
        None => Seq::empty(),
    }
}

/// The settlement prices of several venues, venue by venue.
pub open spec fn all_prices(venues: Seq<BacktestVenueConfig>) -> Seq<SettlementPrice>
    decreases venues.len(),
{
    if venues.len() == 0 {
        Seq::empty()
    } else {
        all_prices(venues.drop_last()) + venue_prices(venues.last())
    }
}

/// The settlement prices ahead of one of them.
pub open spec fn prices_ahead(
    venues: Seq<BacktestVenueConfig>,
    venue: int,
    price: int,
) -> Seq<SettlementPrice> {
    all_prices(venues.take(venue)) + venue_prices(venues[venue]).take(price)
}

/// What building waits for once the venues ahead of one are added.
pub open spec fn venue_phase(config: BacktestRunConfig, at: usize, venue: int) -> BuildPhase {
    if venue < config.venues@.len() {
        BuildPhase::Reading { config: at, venue: venue as usize }
    } else {
        data_phase(config, at, 0)
    }
}

/// What building waits for once the instruments of the data configs ahead of one are added.
pub open spec fn data_phase(config: BacktestRunConfig, at: usize, data: int) -> BuildPhase {
    if data < config.data@.len() {
        BuildPhase::Opening { config: at, data: data as usize }
    } else {
        price_phase(config, at, 0, 0)
    }
}

/// What building waits for once the settlement prices ahead of one are set: the next price,
/// of this venue or of one behind it, or the engine if there are no more.
pub open spec fn price_phase(
    config: BacktestRunConfig,
    at: usize,
    venue: int,
    price: int,
) -> BuildPhase
    decreases config.venues@.len() - venue,
{
    if venue >= config.venues@.len() {
        BuildPhase::HandingOver { config: at }
    } else if price < venue_prices(config.venues@[venue]).len() {
        BuildPhase::Finding { config: at, venue: venue as usize, price: price as usize }
    } else {
        price_phase(config, at, venue + 1, 0)
    }
}

/// What building waits for once the run configs ahead of one have engines: an engine for
/// the next that has none, or nothing.
pub open spec fn config_phase(
    configs: Seq<BacktestRunConfig>,
    built: Set<Seq<char>>,
    at: int,
) -> BuildPhase
    decreases configs.len() - at,
{
    if at >= configs.len() {
        BuildPhase::Finished
    } else if built.contains(configs[at].id@) {
        config_phase(configs, built, at + 1)
    } else {
        BuildPhase::Creating { config: at as usize }
    }
}

/// Whether a catalog query is restricted to the instruments that are named, if any are.
pub open spec fn is_filter(filter: Option<Vec<String>>, ids: Seq<InstrumentId>) -> bool {
    match filter {
        None => ids.len() == 0,
        Some(list) => {
            &&& ids.len() > 0
            &&& list@.len() == ids.len()
            &&& forall|i: int| 0 <= i < ids.len() ==> (#[trigger] list@[i])@ == ids[i].text()
        },
    }
}

/// Whether an action is what building asks for before it waits, where that depends on the
/// configuration alone.
pub open spec fn build_asks<N>(
    configs: Seq<BacktestRunConfig>,
    phase: BuildPhase,
    action: BuildAction<N>,
) -> bool {
    match phase {
        BuildPhase::Creating { config } => action == BuildAction::<N>::CreateEngine(
            configs[config as int].engine,
        ),
        BuildPhase::Reading { config, venue } => action matches BuildAction::ReadBalances(texts)
            && texts@ == configs[config as int].venues@[venue as int].starting_balances@,
        BuildPhase::Opening { config, data } => action matches BuildAction::OpenCatalog(request)
            && request@ == catalog_for(configs[config as int].data@[data as int]),
        BuildPhase::Querying { config, data } => action matches BuildAction::QueryInstruments(
            filter,
        ) && configs[config as int].data@[data as int].instrument_ids matches Ok(ids)
            && is_filter(filter, ids@),
        BuildPhase::Finding { config, venue, price } => action matches BuildAction::FindInstrument(
            instrument,
        ) && instrument == venue_prices(
            configs[config as int].venues@[venue as int],
        )[price as int].instrument,
        BuildPhase::Pricing { config, venue, price } => {
            action matches BuildAction::SetSettlementPrice { venue: name, instrument, price: raw }
                && (SettlementPrice { venue: name@, instrument, price: raw }) == venue_prices(
                configs[config as int].venues@[venue as int],
            )[price as int]
        },
        BuildPhase::HandingOver { .. } => action == BuildAction::<N>::HandOver,
        BuildPhase::Finished => action == BuildAction::<N>::Finish(Ok(())),
        _ => false,
    }
}

/// Whether building was given up for a reason.
pub open spec fn build_failed<N>(
    after: BuildState<N>,
    action: BuildAction<N>,
    error: NodeError,
) -> bool {
    &&& after.phase is Finished
    &&& action == BuildAction::<N>::Finish(Err(error))
}

/// Whether building goes on to a phase, and asks for what that phase waits for. Nothing
/// else was given to the engine at hand meanwhile.
pub open spec fn build_goes_on<N>(
    configs: Seq<BacktestRunConfig>,
    before: BuildState<N>,
    after: BuildState<N>,
    action: BuildAction<N>,
    phase: BuildPhase,
) -> bool {
    &&& after.phase == phase
    &&& build_asks(configs, phase, action)
    &&& after.read@ == before.read@
    &&& after.venues@ == before.venues@
    &&& after.instruments@ == before.instruments@
    &&& after.prices@ == before.prices@
}

/// Whether building turns to the next run config that has no engine, with nothing given to
/// an engine yet, or is over if there is none.
pub open spec fn build_turns_to<N>(
    configs: Seq<BacktestRunConfig>,
    after: BuildState<N>,
    action: BuildAction<N>,
    phase: BuildPhase,
) -> bool {
    &&& after.phase == phase
    &&& build_asks(configs, phase, action)
    &&& after.read@.len() == 0
    &&& after.venues@.len() == 0
    &&& after.instruments@.len() == 0
    &&& after.prices@.len() == 0
}

/// How building is advanced by an event. `built` holds the IDs that have engines by now.
pub open spec fn build_rule<E, N>(
    configs: Seq<BacktestRunConfig>,
    built: Set<Seq<char>>,
    before: BuildState<N>,
    event: BuildEvent<E, N>,
    after: BuildState<N>,
    action: BuildAction<N>,
) -> bool {
    match (before.phase, event) {
        (_, BuildEvent::Failed(message)) => build_failed(
            after,
            action,
            NodeError::Outside { message },
        ),
        (BuildPhase::Begin, _) => build_turns_to(
            configs,
            after,
            action,
            config_phase(configs, built, 0),
        ),
        (BuildPhase::Creating { config }, _) => build_goes_on(
            configs,
            before,
            after,
            action,
            venue_phase(configs[config as int], config, 0),
        ),
        (BuildPhase::Reading { config, venue }, BuildEvent::Balances(parsed)) => {
            match first_unreadable(parsed@) {
                Some(message) => build_failed(after, action, NodeError::InvalidBalance { message }),
                None => {
                    &&& after.phase == BuildPhase::AddingVenue { config, venue }
                    &&& action matches BuildAction::AddVenue(simulated) && simulated.simulates(
                        configs[config as int].venues@[venue as int],
                        readable(parsed@),
                    ) && after.venues@ == before.venues@.push(simulated)
                    &&& after.read@ == before.read@.push(parsed@)
                    &&& after.instruments@ == before.instruments@
                    &&& after.prices@ == before.prices@
                },
            }
        },
        (BuildPhase::AddingVenue { config, venue }, _) => build_goes_on(
            configs,
            before,
            after,
            action,
            venue_phase(configs[config as int], config, venue + 1),
        ),
        (BuildPhase::Opening { config, data }, _) => {
            match configs[config as int].data@[data as int].instrument_ids {
                Err(message) => build_failed(after, action, NodeError::Outside { message }),
                Ok(_) => build_goes_on(
                    configs,
                    before,
                    after,
                    action,
                    BuildPhase::Querying { config, data },
                ),
            }
        },
        (BuildPhase::Querying { config, data }, BuildEvent::Instruments(instruments)) => {
            match configs[config as int].data@[data as int].instrument_ids {
                Err(_) => true,
                Ok(ids) => if ids@.len() > 0 && instruments@.len() == 0 {
                    &&& after.phase is Finished
                    &&& action matches BuildAction::Finish(Err(NodeError::NoInstruments { listing }))
                        && listing@ == joined(
                        ids@.map_values(|id: InstrumentId| id.text()),
                        ", "@,
                    )
                } else {
                    &&& after.phase == BuildPhase::AddingInstruments { config, data }
                    &&& action == BuildAction::AddInstruments(instruments)
                    &&& after.instruments@ == before.instruments@.push(instruments@)
                    &&& after.read@ == before.read@
                    &&& after.venues@ == before.venues@
                    &&& after.prices@ == before.prices@
                },
            }
        },
        (BuildPhase::AddingInstruments { config, data }, _) => build_goes_on(
            configs,
            before,
            after,
            action,
            data_phase(configs[config as int], config, data + 1),
        ),
        (BuildPhase::Finding { config, venue, price }, BuildEvent::Found(found)) => {
            let entry = venue_prices(configs[config as int].venues@[venue as int])[price as int];
            if found {
                &&& after.phase == BuildPhase::Pricing { config, venue, price }
                &&& build_asks(configs, after.phase, action)
                &&& after.prices@ == before.prices@.push(entry)
                &&& after.read@ == before.read@
                &&& after.venues@ == before.venues@
                &&& after.instruments@ == before.instruments@
            } else {
                build_failed(
                    after,
                    action,
                    NodeError::NoSettlementInstrument { instrument: entry.instrument },
                )
            }
        },
        (BuildPhase::Pricing { config, venue, price }, _) => build_goes_on(
            configs,
            before,
            after,
            action,
            price_phase(configs[config as int], config, venue as int, price + 1),
        ),
        (BuildPhase::HandingOver { config }, _) => build_turns_to(
            configs,
            after,
            action,
            config_phase(configs, built, config + 1),
        ),
        _ => false,
    }
}

/// Whether a venue is simulated as it is configured, with the balances that were read of it.
pub open spec fn venue_matches(
    venue: SimulatedVenueConfig,
    config: BacktestVenueConfig,
    read: Seq<Result<Money, String>>,
) -> bool {
    &&& read.len() == config.starting_balances@.len()
    &&& first_unreadable(read) is None
    &&& venue.simulates(config, readable(read))
}

impl<N> BuildState<N> {
    /// Whether the venues that the engine was given are the first ones configured.
    pub open spec fn venues_match(self, config: BacktestRunConfig) -> bool {
        &&& self.venues@.len() <= config.venues@.len()
        &&& self.read@.len() == self.venues@.len()
        &&& forall|i: int|
            0 <= i < self.venues@.len() ==> venue_matches(
                #[trigger] self.venues@[i],
                config.venues@[i],
                self.read@[i],
            )
    }

    /// What holds of building until it is over: the engine at hand was given just the
    /// venues, instruments and settlement prices ahead of where building stands.
    pub open spec fn wf(self, configs: Seq<BacktestRunConfig>) -> bool {
        let given = (self.venues@.len(), self.instruments@.len());
        match self.phase {
            BuildPhase::Begin | BuildPhase::Finished => true,
            BuildPhase::Creating { config } => {
                &&& config < configs.len()
                &&& given == (0nat, 0nat)
                &&& self.read@.len() == 0
                &&& self.prices@.len() == 0
            },
            BuildPhase::Reading { config, venue } => {
                &&& config < configs.len()
                &&& venue < configs[config as int].venues@.len()
                &&& self.venues_match(configs[config as int])
                &&& given == (venue as nat, 0nat)
                &&& self.prices@.len() == 0
            },
            BuildPhase::AddingVenue { config, venue } => {
                &&& config < configs.len()
                &&& venue < configs[config as int].venues@.len()
                &&& self.venues_match(configs[config as int])
                &&& given == ((venue + 1) as nat, 0nat)
                &&& self.prices@.len() == 0
            },
            BuildPhase::Opening { config, data } => {
                &&& config < configs.len()
                &&& data < configs[config as int].data@.len()
                &&& self.venues_match(configs[config as int])
                &&& given == (configs[config as int].venues@.len(), data as nat)
                &&& self.prices@.len() == 0
            },
            BuildPhase::Querying { config, data } => {
                &&& config < configs.len()
                &&& data < configs[config as int].data@.len()
                &&& configs[config as int].data@[data as int].instrument_ids is Ok
                &&& self.venues_match(configs[config as int])
                &&& given == (configs[config as int].venues@.len(), data as nat)
                &&& self.prices@.len() == 0
            },
            BuildPhase::AddingInstruments { config, data } => {
                &&& config < configs.len()
                &&& data < configs[config as int].data@.len()
                &&& self.venues_match(configs[config as int])
                &&& given == (configs[config as int].venues@.len(), (data + 1) as nat)
                &&& self.prices@.len() == 0
            },
            BuildPhase::Finding { config, venue, price } => {
                &&& config < configs.len()
                &&& self.gave_instruments(configs[config as int])
                &&& venue < configs[config as int].venues@.len()
                &&& price < venue_prices(configs[config as int].venues@[venue as int]).len()
                &&& self.prices@ == prices_ahead(
                    configs[config as int].venues@,
                    venue as int,
                    price as int,
                )
            },
            BuildPhase::Pricing { config, venue, price } => {
                &&& config < configs.len()
                &&& self.gave_instruments(configs[config as int])
                &&& venue < configs[config as int].venues@.len()
                &&& price < venue_prices(configs[config as int].venues@[venue as int]).len()
                &&& self.prices@ == prices_ahead(
                    configs[config as int].venues@,
                    venue as int,
                    price + 1,
                )
            },
            BuildPhase::HandingOver { config } => {
                &&& config < configs.len()
                &&& self.gave_instruments(configs[config as int])
                &&& self.prices@ == all_prices(configs[config as int].venues@)
            },
        }
    }

    /// Whether the engine was given every venue, and the instruments of every data config.
    pub open spec fn gave_instruments(self, config: BacktestRunConfig) -> bool {
        &&& self.venues_match(config)
        &&& self.venues@.len() == config.venues@.len()
        &&& self.instruments@.len() == config.data@.len()
    }

    /// Returns the state of building that is yet to begin.
    pub fn new() -> (r: Self)
        ensures
            r.phase is Begin,
            r.read@.len() == 0,
            r.venues@.len() == 0,
            r.instruments@.len() == 0,
            r.prices@.len() == 0,
            forall|configs: Seq<BacktestRunConfig>| #[trigger] r.wf(configs),
    {
        BuildState {
            phase: BuildPhase::Begin,
            read: Ghost(Seq::empty()),
            venues: Ghost(Seq::empty()),
            instruments: Ghost(Seq::empty()),
            prices: Ghost(Seq::empty()),
        }
    }
}

/// The settlement prices ahead of a venue are those of the venues ahead of it.
proof fn lemma_next_venue_prices(venues: Seq<BacktestVenueConfig>, venue: int)
    requires
        0 <= venue < venues.len(),
    ensures
        prices_ahead(venues, venue, venue_prices(venues[venue]).len() as int) == all_prices(
            venues.take(venue + 1),
        ),
        venue + 1 < venues.len() ==> prices_ahead(venues, venue + 1, 0) == all_prices(
            venues.take(venue + 1),
        ),
{
    let prices = venue_prices(venues[venue]);
    assert(venues.take(venue + 1).drop_last() =~= venues.take(venue));
    assert(prices.take(prices.len() as int) =~= prices);
    if venue + 1 < venues.len() {
        assert(prices_ahead(venues, venue + 1, 0) =~= all_prices(venues.take(venue + 1)));
    }
}

/// Goes on to the next settlement price, or to handing the engine over.
fn go_to_price<N>(
    configs: &Vec<BacktestRunConfig>,
    at: usize,
    venue: usize,
    price: usize,
    state: BuildState<N>,
) -> (r: BuildStep<N>)
    requires
        at < configs@.len(),
        state.gave_instruments(configs@[at as int]),
        venue < configs@[at as int].venues@.len() ==> {
            &&& price <= venue_prices(configs@[at as int].venues@[venue as int]).len()
            &&& state.prices@ == prices_ahead(
                configs@[at as int].venues@,
                venue as int,
                price as int,
            )
        },
        venue >= configs@[at as int].venues@.len() ==> state.prices@ == all_prices(
            configs@[at as int].venues@,
        ),
    ensures
        r.state.wf(configs@),
        build_goes_on(
            configs@,
            state,
            r.state,
            r.action,
            price_phase(configs@[at as int], at, venue as int, price as int),
        ),
{
    let config = &configs[at];
    let mut next = state;
    let mut v: usize = venue;
    let mut p: usize = price;
    while v < config.venues.len()
        invariant
            at < configs@.len(),
            *config == configs@[at as int],
            next == state,
            state.gave_instruments(*config),
            price_phase(*config, at, venue as int, price as int) == price_phase(
                *config,
                at,
                v as int,
                p as int,
            ),
            v < config.venues@.len() ==> {
                &&& p <= venue_prices(config.venues@[v as int]).len()
                &&& state.prices@ == prices_ahead(config.venues@, v as int, p as int)
            },
            v >= config.venues@.len() ==> state.prices@ == all_prices(config.venues@),
        decreases config.venues.len() - v,
    {
        if let Some(prices) = &config.venues[v].settlement_prices {
            if p < prices.len() {
                next.phase = BuildPhase::Finding { config: at, venue: v, price: p };
                return BuildStep {
                    state: next,
                    action: BuildAction::FindInstrument(prices[p].0.duplicate()),
                };
            }
        }
        proof {
            lemma_next_venue_prices(config.venues@, v as int);
            if v + 1 == config.venues@.len() {
                assert(config.venues@.take(v + 1) =~= config.venues@);
            }
        }
        v += 1;
        p = 0;
    }
    next.phase = BuildPhase::HandingOver { config: at };
    BuildStep { state: next, action: BuildAction::HandOver }
}

/// Goes on to the instruments of the next data config, or to the settlement prices.
fn go_to_data<N>(
    configs: &Vec<BacktestRunConfig>,
    at: usize,
    data: usize,
    state: BuildState<N>,
) -> (r: BuildStep<N>)
    requires
        at < configs@.len(),
        data <= configs@[at as int].data@.len(),
        state.venues_match(configs@[at as int]),
        state.venues@.len() == configs@[at as int].venues@.len(),
        state.instruments@.len() == data,
        state.prices@.len() == 0,
    ensures
        r.state.wf(configs@),
        build_goes_on(
            configs@,
            state,
            r.state,
            r.action,
            data_phase(configs@[at as int], at, data as int),
        ),
{
    let config = &configs[at];
    if data < config.data.len() {
        let mut state = state;
        state.phase = BuildPhase::Opening { config: at, data };
        BuildStep { state, action: BuildAction::OpenCatalog(create_catalog(&config.data[data])) }
    } else {
        proof {
            let venues = config.venues@;
            assert(venues.take(0) =~= Seq::empty());
            if venues.len() > 0 {
                assert(prices_ahead(venues, 0, 0) =~= state.prices@);
            } else {
                assert(all_prices(venues) =~= state.prices@);
            }
        }
        go_to_price(configs, at, 0, 0, state)
    }
}

/// Goes on to the next venue, or to the instruments.
fn go_to_venue<N>(
    configs: &Vec<BacktestRunConfig>,
    at: usize,
    venue: usize,
    state: BuildState<N>,
) -> (r: BuildStep<N>)
    requires
        at < configs@.len(),
        venue <= configs@[at as int].venues@.len(),
        state.venues_match(configs@[at as int]),
        state.venues@.len() == venue,
        state.instruments@.len() == 0,
        state.prices@.len() == 0,
    ensures
        r.state.wf(configs@),
        build_goes_on(
            configs@,
            state,
            r.state,
            r.action,
            venue_phase(configs@[at as int], at, venue as int),
        ),
{
    let config = &configs[at];
    if venue < config.venues.len() {
        let mut state = state;
        state.phase = BuildPhase::Reading { config: at, venue };
        BuildStep {
            state,
            action: BuildAction::ReadBalances(
                copy_strings(&config.venues[venue].starting_balances),
            ),
        }
    } else {
        go_to_data(configs, at, 0, state)
    }
}

/// Gives building up.
fn give_up<N>(state: BuildState<N>, error: NodeError) -> (r: BuildStep<N>)
    ensures
        r.state.phase is Finished,
        r.action == BuildAction::<N>::Finish(Err(error)),
{
    let mut state = state;
    state.phase = BuildPhase::Finished;
    BuildStep { state, action: BuildAction::Finish(Err(error)) }
}

/// Returns the identifiers of instruments in writing.
fn id_texts(ids: &Vec<InstrumentId>) -> (r: Vec<String>)
    ensures
        r@.len() == ids@.len(),
        forall|i: int| 0 <= i < ids@.len() ==> (#[trigger] r@[i])@ == ids@[i].text(),
{
    let mut list: Vec<String> = Vec::new();
    let mut i: usize = 0;
    while i < ids.len()
        invariant
            i <= ids.len(),
            list@.len() == i,
            forall|j: int| 0 <= j < i ==> (#[trigger] list@[j])@ == ids@[j].text(),
        decreases ids.len() - i,
    {
        list.push(ids[i].to_text());
        i += 1;
    }
    list
}

/// Returns what a catalog query is restricted to: the instruments that are named, if any are.
pub fn instrument_filter(ids: &Vec<InstrumentId>) -> (r: Option<Vec<String>>)
    ensures
        is_filter(r, ids@),
{
    if ids.len() == 0 {
        None
    } else {
        Some(id_texts(ids))
    }
}

/// Returns the identifiers of instruments as a message lists them.
pub fn list_instruments(ids: &Vec<InstrumentId>) -> (r: String)
    ensures
        r@ == joined(ids@.map_values(|id: InstrumentId| id.text()), ", "@),
{
    let list = id_texts(ids);
    assert(crate::text::texts(list@) =~= ids@.map_values(|id: InstrumentId| id.text()));
    join(&list, ", ")
}

/// Advances the setup of an engine, from when it was created until it is to be handed over.
pub(crate) fn advance_setup<E, N>(
    configs: &Vec<BacktestRunConfig>,
    built: Ghost<Set<Seq<char>>>,
    state: BuildState<N>,
    event: BuildEvent<E, N>,
) -> (r: BuildStep<N>)
    requires
        state.wf(configs@),
        build_accepts(configs@, state.phase, event),
        !(event is Begin),
        !(event is Engine),
    ensures
        r.state.wf(configs@),
        build_rule(configs@, built@, state, event, r.state, r.action),
{
    let ghost before = state;
    match (state.phase, event) {
        (_, BuildEvent::Failed(message)) => give_up(state, NodeError::Outside { message }),
        (BuildPhase::Creating { config }, _) => go_to_venue(configs, config, 0, state),
        (BuildPhase::Reading { config, venue }, BuildEvent::Balances(parsed)) => {
            let ghost told = parsed@;
            match collect_balances(parsed) {
                Err(error) => give_up(state, error),
                Ok(balances) => {
                    let simulated = simulated_venue(&configs[config].venues[venue], balances);
                    let mut state = state;
                    state.phase = BuildPhase::AddingVenue { config, venue };
                    proof {
                        state.read@ = state.read@.push(told);
                        state.venues@ = state.venues@.push(simulated);
                        assert forall|i: int| 0 <= i < state.venues@.len() implies venue_matches(
                            #[trigger] state.venues@[i],
                            configs@[config as int].venues@[i],
                            state.read@[i],
                        ) by {
                            if i < before.venues@.len() {
                                assert(state.venues@[i] == before.venues@[i]);
                            }
                        }
                    }
                    BuildStep { state, action: BuildAction::AddVenue(simulated) }
                },
            }
        },
        (BuildPhase::AddingVenue { config, venue }, _) => {
            assert(venue < configs@[config as int].venues.len());
            go_to_venue(configs, config, venue + 1, state)
        },
        (BuildPhase::Opening { config, data }, _) => match &configs[config].data[data].instrument_ids {
            Err(message) => give_up(state, NodeError::Outside { message: message.clone() }),
            Ok(ids) => {
                let mut state = state;
                state.phase = BuildPhase::Querying { config, data };
                BuildStep { state, action: BuildAction::QueryInstruments(instrument_filter(ids)) }
            },
        },
        (BuildPhase::Querying { config, data }, BuildEvent::Instruments(instruments)) => {
            match &configs[config].data[data].instrument_ids {
                Err(_) => vstd::pervasive::unreached(),
                Ok(ids) => {
                    if ids.len() > 0 && instruments.len() == 0 {
                        return give_up(
                            state,
                            NodeError::NoInstruments { listing: list_instruments(ids) },
                        );
                    }
                    let mut state = state;
                    state.phase = BuildPhase::AddingInstruments { config, data };
                    proof {
                        state.instruments@ = state.instruments@.push(instruments@);
                    }
                    BuildStep { state, action: BuildAction::AddInstruments(instruments) }
                },
            }
        },
        (BuildPhase::AddingInstruments { config, data }, _) => {
            assert(data < configs@[config as int].data.len());
            go_to_data(configs, config, data + 1, state)
        },
        (BuildPhase::Finding { config, venue, price }, BuildEvent::Found(found)) => {
            let settled = &configs[config].venues[venue];
            match &settled.settlement_prices {
                None => vstd::pervasive::unreached(),
                Some(prices) => {
                    if !found {
                        return give_up(
                            state,
                            NodeError::NoSettlementInstrument {
                                instrument: prices[price].0.duplicate(),
                            },
                        );
                    }
                    let mut state = state;
                    state.phase = BuildPhase::Pricing { config, venue, price };
                    proof {
                        let all = venue_prices(*settled);
                        state.prices@ = state.prices@.push(all[price as int]);
                        assert(all.take(price + 1) =~= all.take(price as int).push(all[price as int]));
                        assert(state.prices@ =~= prices_ahead(
                            configs@[config as int].venues@,
                            venue as int,
                            price + 1,
                        ));
                    }
                    BuildStep {
                        state,
                        action: BuildAction::SetSettlementPrice {
                            venue: settled.name.clone(),
                            instrument: prices[price].0.duplicate(),
                            price: prices[price].1,
                        },
                    }
                },
            }
        },
        (BuildPhase::Pricing { config, venue, price }, _) => {
            assert(price < configs@[config as int].venues@[venue as int].settlement_prices->0.len());
            go_to_price(configs, config, venue, price + 1, state)
        },
        _ => vstd::pervasive::unreached(),
    }
}

/// An engine is handed over only once it was given every configured venue in order, each
/// with just the balances that were read of it, one for each configured, the instruments of every data config in
/// order, and every settlement price in order.
pub proof fn law_engine_handed_over_complete<N>(
    configs: Seq<BacktestRunConfig>,
    state: BuildState<N>,
)
    requires
        state.wf(configs),
        state.phase is HandingOver,
    ensures
        ({
            let config = configs[state.phase->HandingOver_config as int];
            &&& state.venues@.len() == config.venues@.len()
            &&& state.read@.len() == config.venues@.len()
            &&& forall|i: int|
                0 <= i < config.venues@.len() ==> {
                    &&& (#[trigger] state.read@[i]).len() == config.venues@[i].starting_balances@.len()
                    &&& first_unreadable(state.read@[i]) is None
                    &&& state.venues@[i].simulates(config.venues@[i], readable(state.read@[i]))
                    &&& state.venues@[i].starting_balances@ == readable(state.read@[i])
                }
            &&& state.instruments@.len() == config.data@.len()
            &&& state.prices@ == all_prices(config.venues@)
        }),
{
    let config = configs[state.phase->HandingOver_config as int];
    assert forall|i: int| 0 <= i < config.venues@.len() implies {
        &&& (#[trigger] state.read@[i]).len() == config.venues@[i].starting_balances@.len()
        &&& first_unreadable(state.read@[i]) is None
        &&& state.venues@[i].simulates(config.venues@[i], readable(state.read@[i]))
        &&& state.venues@[i].starting_balances@ == readable(state.read@[i])
    } by {
        assert(venue_matches(state.venues@[i], config.venues@[i], state.read@[i]));
    }
}

/// Whether an event is a reply to an action.
pub open spec fn build_reply<E, N>(action: BuildAction<N>, event: BuildEvent<E, N>) -> bool {
    match action {
        BuildAction::CreateEngine(_)
        | BuildAction::AddVenue(_)
        | BuildAction::OpenCatalog(_)
        | BuildAction::AddInstruments(_)
        | BuildAction::SetSettlementPrice { .. } => event is Done || event is Failed,
        BuildAction::ReadBalances(texts) => event matches BuildEvent::Balances(parsed)
            && parsed@.len() == texts@.len(),
        BuildAction::QueryInstruments(_) => event is Instruments || event is Failed,
        BuildAction::FindInstrument(_) => event is Found,
        BuildAction::HandOver => event is Engine,
        BuildAction::Finish(_) => false,
    }
}

/// Whatever building asks for, it takes every reply to that, and nothing else.
pub proof fn law_building_takes_every_reply<E, N>(
    configs: Seq<BacktestRunConfig>,
    built: Set<Seq<char>>,
    before: BuildState<N>,
    event: BuildEvent<E, N>,
    after: BuildState<N>,
    action: BuildAction<N>,
    reply: BuildEvent<E, N>,
)
    requires
        before.wf(configs),
        build_accepts(configs, before.phase, event),
        build_rule(configs, built, before, event, after, action),
    ensures
        build_accepts(configs, after.phase, reply) <==> build_reply(action, reply),
{
}

/// Where building stands, as a row of numbers that are compared from the front.
pub open spec fn build_position(phase: BuildPhase) -> (int, int, int, int, int) {
    match phase {
        BuildPhase::Begin => (-1, 0, 0, 0, 0),
        BuildPhase::Creating { config } => (config as int, 0, 0, 0, 0),
        BuildPhase::Reading { config, venue } => (config as int, 1, venue as int, 0, 0),
        BuildPhase::AddingVenue { config, venue } => (config as int, 1, venue as int, 0, 1),
        BuildPhase::Opening { config, data } => (config as int, 2, data as int, 0, 0),
        BuildPhase::Querying { config, data } => (config as int, 2, data as int, 0, 1),
        BuildPhase::AddingInstruments { config, data } => (config as int, 2, data as int, 0, 2),
        BuildPhase::Finding { config, venue, price } => {
            (config as int, 3, venue as int, price as int, 0)
        },
        BuildPhase::Pricing { config, venue, price } => {
            (config as int, 3, venue as int, price as int, 1)
        },
        BuildPhase::HandingOver { config } => (config as int, 4, 0, 0, 0),
        BuildPhase::Finished => (usize::MAX + 1, 0, 0, 0, 0),
    }
}

/// Whether one row of numbers comes before another, compared from the front.
pub open spec fn position_before(a: (int, int, int, int, int), b: (int, int, int, int, int)) -> bool {
    ||| a.0 < b.0
    ||| a.0 == b.0 && a.1 < b.1
    ||| a.0 == b.0 && a.1 == b.1 && a.2 < b.2
    ||| a.0 == b.0 && a.1 == b.1 && a.2 == b.2 && a.3 < b.3
    ||| a.0 == b.0 && a.1 == b.1 && a.2 == b.2 && a.3 == b.3 && a.4 < b.4
}

/// The next settlement price lies ahead.
proof fn lemma_price_phase_ahead(config: BacktestRunConfig, at: usize, venue: int, price: int)
    requires
        0 <= venue,
        0 <= price,
    ensures
        ({
            let phase = price_phase(config, at, venue, price);
            ||| phase == BuildPhase::HandingOver { config: at }
            ||| phase matches BuildPhase::Finding { config: c, venue: v, price: p } && c == at && (v
                > venue || v == venue && p >= price)
        }),
    decreases config.venues@.len() - venue,
{
    if venue < config.venues@.len() {
        assert(config.venues.len() == config.venues@.len());
        if price < venue_prices(config.venues@[venue]).len() {
            assert(config.venues@[venue].settlement_prices->0.len()
                == config.venues@[venue].settlement_prices->0@.len());
        } else {
            lemma_price_phase_ahead(config, at, venue + 1, 0);
        }
    }
}

/// The next run config without an engine lies ahead.
proof fn lemma_config_phase_ahead(
    configs: Seq<BacktestRunConfig>,
    built: Set<Seq<char>>,
    at: int,
)
    requires
        0 <= at,
        configs.len() <= usize::MAX,
    ensures
        ({
            let phase = config_phase(configs, built, at);
            ||| phase is Finished
            ||| phase matches BuildPhase::Creating { config } && at <= config < configs.len()
                && !built.contains(configs[config as int].id@)
        }),
    decreases configs.len() - at,
{
    if at < configs.len() && built.contains(configs[at].id@) {
        lemma_config_phase_ahead(configs, built, at + 1);
    }
}

/// Building always moves forward: through the run configs in order, and for each through
/// its venues, its data configs and its settlement prices in order. So it comes to an end.
pub proof fn law_building_moves_forward<E, N>(
    configs: Seq<BacktestRunConfig>,
    built: Set<Seq<char>>,
    before: BuildState<N>,
    event: BuildEvent<E, N>,
    after: BuildState<N>,
    action: BuildAction<N>,
)
    requires
        configs.len() <= usize::MAX,
        before.wf(configs),
        build_accepts(configs, before.phase, event),
        build_rule(configs, built, before, event, after, action),
    ensures
        position_before(build_position(before.phase), build_position(after.phase)),
{
    match before.phase {
        BuildPhase::Begin => {
            lemma_config_phase_ahead(configs, built, 0);
        },
        BuildPhase::Creating { config } => {
            lemma_venue_phase_ahead(configs[config as int], config, 0);
        },
        BuildPhase::AddingVenue { config, venue } => {
            lemma_venue_phase_ahead(configs[config as int], config, venue + 1);
        },
        BuildPhase::AddingInstruments { config, data } => {
            lemma_data_phase_ahead(configs[config as int], config, data + 1);
        },
        BuildPhase::Pricing { config, venue, price } => {
            lemma_price_phase_ahead(configs[config as int], config, venue as int, price + 1);
        },
        BuildPhase::HandingOver { config } => {
            lemma_config_phase_ahead(configs, built, config + 1);
        },
        _ => {},
    }
}

/// The instruments of the next data config lie ahead.
proof fn lemma_data_phase_ahead(config: BacktestRunConfig, at: usize, data: int)
    requires
        0 <= data,
    ensures
        position_before(
            (at as int, 2, data - 1, 0, 2),
            build_position(data_phase(config, at, data)),
        ),
{
    assert(config.data.len() == config.data@.len());
    if data >= config.data@.len() {
        lemma_price_phase_ahead(config, at, 0, 0);
    }
}

/// The next venue lies ahead.
proof fn lemma_venue_phase_ahead(config: BacktestRunConfig, at: usize, venue: int)
    requires
        0 <= venue,
    ensures
        position_before(
            (at as int, 1, venue - 1, 0, 1),
            build_position(venue_phase(config, at, venue)),
        ),
{
    assert(config.venues.len() == config.venues@.len());
    if venue >= config.venues@.len() {
        lemma_data_phase_ahead(config, at, 0);
    }
}

/// Building is over without a failure only when it was to begin, or has handed an engine
/// over, and no run config is left without one.
pub proof fn lemma_finished_between_configs<E, N>(
    configs: Seq<BacktestRunConfig>,
    built: Set<Seq<char>>,
    before: BuildState<N>,
    event: BuildEvent<E, N>,
    after: BuildState<N>,
    action: BuildAction<N>,
)
    requires
        before.wf(configs),
        build_accepts(configs, before.phase, event),
        build_rule(configs, built, before, event, after, action),
        action == BuildAction::<N>::Finish(Ok(())),
    ensures
        before.phase is Begin || before.phase is HandingOver,
{
    match before.phase {
        BuildPhase::Creating { config } => {
            lemma_price_phase_ahead(configs[config as int], config, 0, 0);
        },
        BuildPhase::AddingVenue { config, venue } => {
            lemma_price_phase_ahead(configs[config as int], config, 0, 0);
        },
        BuildPhase::AddingInstruments { config, data } => {
            lemma_price_phase_ahead(configs[config as int], config, 0, 0);
        },
        BuildPhase::Pricing { config, venue, price } => {
            lemma_price_phase_ahead(configs[config as int], config, venue as int, price + 1);
        },
        _ => {},
    }
}

} // verus!
