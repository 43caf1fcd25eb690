#![allow(dead_code)]
use ahash::AHashMap;
use backtest_node::config::{
    AccountType, BacktestDataConfig, BacktestRunConfig, BacktestVenueConfig, BookType, Decimal,
    Handle, InstrumentId, Money, NautilusDataType, OmsType, OtoTriggerMode, RawPrice,
};
use backtest_node::data::Data;
use backtest_node::error::NodeError;
use backtest_node::node::BacktestNode;
use backtest_node::report::Warning;
use backtest_node::run::{RunAction, RunEvent, RunState};
use backtest_node::setup::{
    instrument_filter, list_instruments, BuildAction, BuildEvent, BuildState,
};
use backtest_node::step::{EngineCall, StepAction, StepEvent, StreamSource};
use backtest_node::venue::{collect_balances, simulated_venue, ModelChoice};

fn id(symbol: &str, venue: &str) -> InstrumentId {
    InstrumentId {
        symbol: symbol.to_string(),
        venue: venue.to_string(),
    }
}

fn venue(name: &str, book_type: BookType) -> BacktestVenueConfig {
    BacktestVenueConfig {
        name: name.to_string(),
        oms_type: OmsType::Netting,
        account_type: AccountType::Margin,
        book_type,
        starting_balances: vec!["1000 USD".to_string()],
        base_currency: None,
        default_leverage: Decimal {
            mantissa: 10,
            scale: 0,
        },
        leverages: None,
        margin_model: None,
        modules: vec![],
        fill_model: None,
        fee_model: None,
        latency_model: None,
        routing: false,
        reject_stop_orders: true,
        support_gtd_orders: true,
        support_contingent_orders: true,
        use_position_ids: true,
        use_random_ids: false,
        use_reduce_only: true,
        use_market_order_acks: false,
        bar_execution: true,
        bar_adaptive_high_low_ordering: false,
        trade_execution: true,
        liquidity_consumption: false,
        allow_cash_borrowing: false,
        frozen_account: false,
        queue_position: false,
        oto_trigger_mode: OtoTriggerMode::Partial,
        price_protection_points: 3,
        liquidation_enabled: false,
        liquidation_trigger_ratio: Decimal {
            mantissa: 1,
            scale: 0,
        },
        liquidation_cancel_open_orders: false,
        settlement_prices: None,
    }
}

fn data(data_type: NautilusDataType, ids: Vec<InstrumentId>) -> BacktestDataConfig {
    BacktestDataConfig {
        data_type,
        catalog_path: "/data/catalog".to_string(),
        catalog_fs_protocol: None,
        catalog_fs_storage_options: None,
        catalog_fs_rust_storage_options: None,
        start_time: None,
        end_time: None,
        instrument_ids: Ok(ids),
        query_identifiers: None,
        filter_expr: None,
        client_id: None,
        optimize_file_loading: false,
    }
}

fn run_config(
    venues: Vec<BacktestVenueConfig>,
    data: Vec<BacktestDataConfig>,
) -> BacktestRunConfig {
    BacktestRunConfig {
        id: "run-1".to_string(),
        venues,
        data,
        engine: Handle(7),
        start: None,
        end: None,
        chunk_size: None,
        dispose_on_completion: true,
    }
}

/// An engine that writes down what is done to it.
#[derive(Debug, Default, PartialEq)]
struct Engine {
    log: Vec<String>,
}

/// What surrounds a node: the instruments that each query finds, the data that each load
/// or stream yields, and the word of the action that is to fail.
#[derive(Default)]
struct World {
    instruments: Vec<&'static str>,
    loads: Vec<Vec<u64>>,
    failing: &'static str,
    shutdown: bool,
    asked: Vec<String>,
    warnings: Vec<Warning>,
}

fn at(times: &[u64]) -> Vec<Data<u32>> {
    let mut list = vec![];
    for (number, time) in times.iter().enumerate() {
        list.push(Data {
            ts_init: *time,
            payload: number as u32,
        });
    }
    list
}

fn money(text: &str) -> Result<Money, String> {
    let mut words = text.split(' ');
    match (words.next().unwrap().parse::<i128>(), words.next()) {
        (Ok(raw), Some(currency)) => Ok(Money {
            raw,
            currency: currency.to_string(),
        }),
        _ => Err(format!("cannot read '{text}'")),
    }
}

impl World {
    fn done(&mut self, word: &str) -> BuildEvent<Engine, &'static str> {
        self.asked.push(word.to_string());
        if self.failing == word {
            BuildEvent::Failed(format!("{word} failed"))
        } else {
            BuildEvent::Done
        }
    }

    fn build(&mut self, node: &mut BacktestNode<Engine>) -> Result<(), NodeError> {
        let mut engine = Engine::default();
        let mut step = node.build(BuildState::new(), BuildEvent::Begin);
        loop {
            let event = match step.action {
                BuildAction::CreateEngine(Handle(handle)) => {
                    engine = Engine::default();
                    engine.log.push(format!("engine {handle}"));
                    self.done("create")
                }
                BuildAction::ReadBalances(texts) => {
                    BuildEvent::Balances(texts.iter().map(|t| money(t)).collect())
                }
                BuildAction::AddVenue(venue) => {
                    let raw: Vec<i128> = venue.starting_balances.iter().map(|m| m.raw).collect();
                    engine.log.push(format!("venue {} {raw:?}", venue.venue));
                    self.done("venue")
                }
                BuildAction::OpenCatalog(request) => {
                    engine.log.push(format!("catalog {}", request.uri));
                    self.done("catalog")
                }
                BuildAction::QueryInstruments(filter) => {
                    engine.log.push(format!("query {filter:?}"));
                    match self.done("query") {
                        BuildEvent::Failed(message) => BuildEvent::Failed(message),
                        _ => BuildEvent::Instruments(self.instruments.clone()),
                    }
                }
                BuildAction::AddInstruments(list) => {
                    engine.log.push(format!("instruments {list:?}"));
                    self.done("instruments")
                }
                BuildAction::FindInstrument(instrument) => BuildEvent::Found(
                    self.instruments.contains(&instrument.to_text().as_str()),
                ),
                BuildAction::SetSettlementPrice {
                    venue,
                    instrument,
                    price,
                } => {
                    engine.log.push(format!(
                        "price {venue} {} {}",
                        instrument.to_text(),
                        price.bits
                    ));
                    self.done("price")
                }
                BuildAction::HandOver => BuildEvent::Engine(std::mem::take(&mut engine)),
                BuildAction::Finish(result) => return result,
            };
            step = node.build(step.state, event);
        }
    }

    fn load(&mut self) -> Vec<u64> {
        self.loads.remove(0)
    }

    fn run(&mut self, node: &mut BacktestNode<Engine>) -> Result<Vec<String>, String> {
        let mut stream = vec![].into_iter();
        let mut step = node.run(RunState::new(), RunEvent::Begin);
        loop {
            self.warnings.append(&mut step.warnings);
            let event = match step.action {
                RunAction::Build => {
                    self.asked.push("build".to_string());
                    RunEvent::Built(self.build(node))
                }
                RunAction::Step { config, action } => {
                    let id = node.configs()[config].id.clone();
                    RunEvent::Step(match action {
                        StepAction::Load(request) => {
                            self.asked.push(format!(
                                "load {:?} {:?}..{:?}",
                                request.query.data_type, request.query.start, request.query.end
                            ));
                            if self.failing == "load" {
                                StepEvent::Loaded(Err("load failed".to_string()))
                            } else {
                                let times = self.load();
                                StepEvent::Loaded(Ok(at(&times)))
                            }
                        }
                        StepAction::Open(source) => {
                            match source {
                                StreamSource::Query(request) => {
                                    assert!(request.query.fresh_session);
                                    self.asked.push(format!("open {:?}", request.query.data_type));
                                    stream = at(&self.load()).into_iter();
                                }
                                StreamSource::Shared {
                                    catalog,
                                    fresh_session,
                                    queries,
                                } => {
                                    assert!(fresh_session);
                                    self.asked.push(format!(
                                        "share {} {:?}",
                                        catalog.uri,
                                        queries
                                            .iter()
                                            .map(|q| (q.data_type, q.optimize, q.fresh_session))
                                            .collect::<Vec<_>>()
                                    ));
                                    stream = at(&self.load()).into_iter();
                                }
                                StreamSource::Items(items) => {
                                    self.asked.push(format!("items {}", items.len()));
                                    stream = items.into_iter();
                                }
                            }
                            if self.failing == "open" {
                                StepEvent::Failed("open failed".to_string())
                            } else {
                                StepEvent::Opened
                            }
                        }
                        StepAction::Pull => StepEvent::Item(stream.next()),
                        StepAction::Engine(calls) => {
                            let engine = node.get_engine_mut(&id).unwrap();
                            let mut words = vec![];
                            for call in calls {
                                words.push(match call {
                                    EngineCall::AddData {
                                        data,
                                        client_id,
                                        validate,
                                        sort,
                                    } => {
                                        assert!(!validate);
                                        let times: Vec<u64> =
                                            data.iter().map(|d| d.ts_init).collect();
                                        format!("add {times:?} {client_id:?} {sort}")
                                    }
                                    EngineCall::SortData => "sort".to_string(),
                                    EngineCall::Run {
                                        start,
                                        end,
                                        run_id,
                                        streaming,
                                    } => format!(
                                        "run {start:?} {end:?} {} {streaming}",
                                        run_id.unwrap()
                                    ),
                                    EngineCall::ClearData => "clear".to_string(),
                                    EngineCall::End => "end".to_string(),
                                });
                            }
                            let fails = words.iter().any(|w| {
                                !self.failing.is_empty() && w.starts_with(self.failing)
                            });
                            engine.log.append(&mut words);
                            if fails {
                                StepEvent::Failed(format!("{} failed", self.failing))
                            } else {
                                StepEvent::Ran {
                                    shutdown: self.shutdown,
                                }
                            }
                        }
                        StepAction::Complete(_) => panic!("completion is not handed on"),
                    })
                }
                RunAction::Collect { config, dispose } => {
                    let id = node.configs()[config].id.clone();
                    let engine = node.get_engine_mut(&id).unwrap();
                    let lines = engine.log.len();
                    engine.log.push(if dispose { "dispose" } else { "clear" }.to_string());
                    RunEvent::Collected(format!("result of {id} after {lines} lines"))
                }
                RunAction::Finish(result) => return result.map_err(|e| e.message()),
            };
            step = node.run(step.state, event);
        }
    }
}

fn node_of(config: BacktestRunConfig) -> BacktestNode<Engine> {
    BacktestNode::new(vec![config]).unwrap()
}

/// A config with one venue, and as many data configs as kinds are given.
fn simple(kinds: &[NautilusDataType]) -> BacktestRunConfig {
    let mut list = vec![];
    for kind in kinds {
        list.push(data(*kind, vec![]));
    }
    run_config(vec![venue("SIM", BookType::L1_MBP)], list)
}

fn log_of(node: &BacktestNode<Engine>) -> Vec<&str> {
    node.get_engine("run-1")
        .unwrap()
        .log
        .iter()
        .map(String::as_str)
        .collect()
}

#[test]
fn an_engine_is_given_venues_then_instruments_then_prices() {
    let mut sim = venue("SIM", BookType::L1_MBP);
    sim.starting_balances = vec!["100 USD".to_string(), "5 EUR".to_string()];
    sim.settlement_prices = Some(vec![
        (id("A", "SIM"), RawPrice { bits: 11 }),
        (id("B", "SIM"), RawPrice { bits: 12 }),
    ]);
    let mut other = venue("OTHER", BookType::L1_MBP);
    other.starting_balances = vec![];
    other.settlement_prices = Some(vec![(id("B", "SIM"), RawPrice { bits: 13 })]);
    let config = run_config(
        vec![sim, venue("MID", BookType::L1_MBP), other],
        vec![
            data(NautilusDataType::QuoteTick, vec![id("A", "SIM"), id("B", "SIM")]),
            data(NautilusDataType::Bar, vec![]),
        ],
    );
    let mut node = node_of(config);
    let mut world = World {
        instruments: vec!["A.SIM", "B.SIM"],
        ..World::default()
    };
    assert!(world.build(&mut node).is_ok());
    assert_eq!(
        log_of(&node),
        vec![
            "engine 7",
            "venue SIM [100, 5]",
            "venue MID [1000]",
            "venue OTHER []",
            "catalog /data/catalog",
            "query Some([\"A.SIM\", \"B.SIM\"])",
            "instruments [\"A.SIM\", \"B.SIM\"]",
            "catalog /data/catalog",
            "query None",
            "instruments [\"A.SIM\", \"B.SIM\"]",
            "price SIM A.SIM 11",
            "price SIM B.SIM 12",
            "price OTHER B.SIM 13",
        ]
    );
    assert!(node.get_engine("run-2").is_none());
    assert_eq!(node.get_engines().len(), 1);
}

#[test]
fn building_again_does_nothing() {
    let mut node = node_of(simple(&[]));
    let mut world = World::default();
    assert!(world.build(&mut node).is_ok());
    node.get_engine_mut("run-1").unwrap().log.push("kept".to_string());
    world.asked.clear();
    assert!(world.build(&mut node).is_ok());
    assert!(world.asked.is_empty());
    assert_eq!(log_of(&node), vec!["engine 7", "venue SIM [1000]", "kept"]);
}

#[test]
fn engines_are_reached_by_id() {
    let mut node = node_of(simple(&[]));
    assert!(node.get_engine_mut("run-1").is_none());
    World::default().build(&mut node).unwrap();
    assert!(node.get_engine_mut("other").is_none());
    assert!(node.get_engine_mut("").is_none());
    node.get_engine_mut("run-1").unwrap().log = vec!["changed".to_string()];
    assert_eq!(log_of(&node), vec!["changed"]);
    assert_eq!(node.get_engines()[0].log, vec!["changed"]);
}

#[test]
fn disposing_hands_out_the_engines_and_lets_them_be_built_anew() {
    let mut node = node_of(simple(&[]));
    World::default().build(&mut node).unwrap();
    let engines = node.dispose();
    assert_eq!(engines.len(), 1);
    assert_eq!(engines[0].log, vec!["engine 7", "venue SIM [1000]"]);
    assert!(node.get_engine("run-1").is_none());
    assert!(node.get_engines().is_empty());
    assert!(node.dispose().is_empty());
    assert_eq!(node.configs().len(), 1);
    let mut world = World::default();
    world.build(&mut node).unwrap();
    assert_eq!(world.asked, vec!["create", "venue"]);
    assert_eq!(node.get_engines().len(), 1);
}

#[test]
fn a_step_of_building_that_fails_stops_it() {
    for word in ["create", "venue", "catalog", "query", "instruments", "price"] {
        let mut config = simple(&[NautilusDataType::QuoteTick]);
        config.venues[0].settlement_prices =
            Some(vec![(id("A", "SIM"), RawPrice { bits: 1 })]);
        let mut node = node_of(config);
        let mut world = World {
            instruments: vec!["A.SIM"],
            failing: word,
            ..World::default()
        };
        let error = world.build(&mut node).unwrap_err();
        assert_eq!(error.message(), format!("{word} failed"));
        assert_eq!(world.asked.last().unwrap(), word);
        assert!(node.get_engines().is_empty());
    }
}

#[test]
fn a_balance_that_cannot_be_read_stops_building() {
    let mut config = simple(&[]);
    config.venues[0].starting_balances =
        vec!["1 USD".to_string(), "x USD".to_string(), "y".to_string()];
    let mut node = node_of(config);
    let error = World::default().build(&mut node).unwrap_err();
    assert_eq!(
        error.message(),
        "Invalid starting balance: cannot read 'x USD'"
    );
    assert!(node.get_engine("run-1").is_none());
}

#[test]
fn instruments_that_no_catalog_knows_stop_building() {
    let mut config = simple(&[NautilusDataType::QuoteTick]);
    config.data[0].instrument_ids = Ok(vec![id("A", "SIM"), id("B", "SIM")]);
    let error = World::default().build(&mut node_of(config)).unwrap_err();
    assert_eq!(
        error.message(),
        "No instruments found in catalog for requested IDs: [A.SIM, B.SIM]"
    );
}

#[test]
fn an_empty_catalog_is_accepted_where_no_instrument_is_named() {
    let mut node = node_of(simple(&[NautilusDataType::QuoteTick]));
    assert!(World::default().build(&mut node).is_ok());
    assert_eq!(log_of(&node).last().unwrap(), &"instruments []");
}

#[test]
fn a_price_for_an_unknown_instrument_stops_building() {
    let mut config = simple(&[]);
    config.venues[0].settlement_prices = Some(vec![(id("A", "SIM"), RawPrice { bits: 1 })]);
    let error = World::default().build(&mut node_of(config)).unwrap_err();
    assert_eq!(
        error.message(),
        "No instrument found for settlement price configuration: A.SIM"
    );
}

#[test]
fn a_run_builds_first_and_loads_everything() {
    let mut config = simple(&[
        NautilusDataType::QuoteTick,
        NautilusDataType::TradeTick,
        NautilusDataType::Bar,
    ]);
    config.start = Some(1);
    config.end = Some(99);
    config.data[0].client_id = Some("C-1".to_string());
    config.data[2].start_time = Some(4);
    let mut node = node_of(config);
    let mut world = World {
        loads: vec![vec![5, 3], vec![], vec![9]],
        ..World::default()
    };
    let results = world.run(&mut node).unwrap();
    assert_eq!(results, vec!["result of run-1 after 15 lines"]);
    assert_eq!(
        log_of(&node)[11..],
        [
            "add [5, 3] Some(\"C-1\") false",
            "add [9] None false",
            "sort",
            "run Some(1) Some(99) run-1 false",
            "dispose",
        ]
    );
    assert_eq!(world.asked[0], "build");
    assert!(world.asked.contains(&"load QuoteTick Some(1)..Some(99)".to_string()));
    assert!(world.asked.contains(&"load TradeTick Some(1)..Some(99)".to_string()));
    assert!(world.asked.contains(&"load Bar Some(4)..Some(99)".to_string()));
    assert_eq!(
        world.warnings,
        vec![Warning::NoData {
            data_type: NautilusDataType::TradeTick
        }]
    );
}

#[test]
fn a_run_without_data_still_runs() {
    let mut config = simple(&[]);
    config.dispose_on_completion = false;
    let mut node = node_of(config);
    let results = World::default().run(&mut node).unwrap();
    assert_eq!(results.len(), 1);
    assert_eq!(
        log_of(&node)[2..],
        ["sort", "run None None run-1 false", "clear"]
    );
}

#[test]
fn a_run_does_not_build_where_engines_exist() {
    let mut node = node_of(simple(&[]));
    let mut world = World::default();
    world.build(&mut node).unwrap();
    world.asked.clear();
    world.run(&mut node).unwrap();
    assert!(world.asked.is_empty());
}

#[test]
fn a_run_whose_building_fails_fails_with_it() {
    let mut node = node_of(simple(&[]));
    let mut world = World {
        failing: "create",
        ..World::default()
    };
    assert_eq!(world.run(&mut node), Err("create failed".to_string()));
    assert_eq!(world.asked, vec!["build", "create"]);
    assert!(node.get_engines().is_empty());
    assert!(node.get_engine("run-1").is_none());
    world.failing = "";
    assert_eq!(world.run(&mut node).unwrap().len(), 1);
    assert!(node.get_engine("run-1").is_some());
    assert!(node.get_engine("run-2").is_none());
}

#[test]
fn a_run_without_its_engine_is_refused() {
    let node = node_of(simple(&[]));
    let begun = node.run::<u32, u32>(RunState::new(), RunEvent::Begin);
    assert!(matches!(begun.action, RunAction::Build));
    let step = node.run(begun.state, RunEvent::Built(Ok(())));
    match step.action {
        RunAction::Finish(Err(error)) => assert_eq!(
            error.message(),
            "Engine not found for config 'run-1'. Call build() first."
        ),
        _ => panic!("the run went on"),
    }
}

#[test]
fn chunks_of_no_items_are_refused() {
    let mut config = simple(&[]);
    config.chunk_size = Some(0);
    let mut node = node_of(config);
    assert_eq!(
        World::default().run(&mut node),
        Err("chunk_size must be > 0".to_string())
    );
}

#[test]
fn a_run_in_chunks_without_data_configs_is_refused() {
    let mut config = simple(&[]);
    config.chunk_size = Some(1);
    let mut node = node_of(config);
    let mut world = World::default();
    assert_eq!(
        world.run(&mut node),
        Err("No data config to stream from for config 'run-1'".to_string())
    );
    assert_eq!(world.asked, vec!["build", "create", "venue"]);
    assert_eq!(node.get_engines().len(), 1);
}

#[test]
fn a_load_or_an_engine_that_fails_ends_a_run() {
    for word in ["load", "add", "sort"] {
        let mut node = node_of(simple(&[NautilusDataType::Bar]));
        let mut world = World {
            failing: word,
            loads: vec![vec![1]],
            ..World::default()
        };
        assert_eq!(world.run(&mut node), Err(format!("{word} failed")));
    }
}

#[test]
fn one_data_config_is_streamed_as_it_is_queried() {
    let mut config = simple(&[NautilusDataType::Bar]);
    config.chunk_size = Some(2);
    config.end = Some(50);
    let mut node = node_of(config);
    let mut world = World {
        loads: vec![vec![1, 2, 2, 7]],
        ..World::default()
    };
    assert_eq!(world.run(&mut node).unwrap().len(), 1);
    assert_eq!(world.asked.last().unwrap(), "open Bar");
    assert_eq!(
        log_of(&node)[5..],
        [
            "add [1, 2, 2] None true",
            "run None Some(2) run-1 true",
            "clear",
            "add [7] None true",
            "run Some(2) Some(50) run-1 true",
            "clear",
            "end",
            "dispose",
        ]
    );
}

#[test]
fn configs_of_one_backend_are_merged_and_watched() {
    let mut config = simple(&[NautilusDataType::Bar, NautilusDataType::QuoteTick]);
    config.chunk_size = Some(2);
    let mut node = node_of(config);
    let mut world = World {
        loads: vec![vec![1, 5, 3, 9]],
        ..World::default()
    };
    assert_eq!(world.run(&mut node).unwrap().len(), 1);
    assert_eq!(
        world.asked.last().unwrap(),
        "share /data/catalog [(Bar, true, false), (QuoteTick, true, false)]"
    );
    assert_eq!(
        log_of(&node)[8..],
        [
            "add [1, 5] None true",
            "run None Some(5) run-1 true",
            "clear",
            "add [3, 9] None true",
            "run Some(5) Some(9) run-1 true",
            "clear",
            "end",
            "dispose",
        ]
    );
    assert_eq!(
        world.warnings,
        vec![
            Warning::BackwardItem {
                label: "multi-config-kmerge",
                count: 1,
                time: 3,
                prior: 5,
                gap: 2
            },
            Warning::BackwardChunk {
                chunk_index: 1,
                earliest: 3,
                boundary: 5
            },
        ]
    );
}

#[test]
fn configs_of_several_backends_are_loaded_and_merged() {
    let mut config = simple(&[
        NautilusDataType::Bar,
        NautilusDataType::QuoteTick,
        NautilusDataType::TradeTick,
    ]);
    let mut options: AHashMap<String, String> = AHashMap::new();
    options.insert("region".to_string(), "eu".to_string());
    config.data[1].catalog_fs_storage_options = Some(options);
    config.chunk_size = Some(10);
    let mut node = node_of(config);
    let mut world = World {
        loads: vec![vec![4, 8], vec![], vec![5, 1]],
        ..World::default()
    };
    assert_eq!(world.run(&mut node).unwrap().len(), 1);
    assert_eq!(world.asked.last().unwrap(), "items 4");
    assert_eq!(
        log_of(&node)[11..],
        [
            "add [1, 4, 5, 8] None true",
            "run None None run-1 true",
            "clear",
            "end",
            "dispose",
        ]
    );
    assert_eq!(
        world.warnings,
        vec![Warning::NoData {
            data_type: NautilusDataType::QuoteTick
        }]
    );
}

#[test]
fn a_stream_that_cannot_be_opened_ends_a_run() {
    let mut config = simple(&[NautilusDataType::Bar]);
    config.chunk_size = Some(2);
    let mut world = World {
        failing: "open",
        loads: vec![vec![1]],
        ..World::default()
    };
    assert_eq!(
        world.run(&mut node_of(config)),
        Err("open failed".to_string())
    );
}

#[test]
fn an_eager_load_that_fails_ends_a_run_in_chunks() {
    let mut config = simple(&[NautilusDataType::Bar, NautilusDataType::QuoteTick]);
    config.data[1].catalog_path = "/elsewhere".to_string();
    config.chunk_size = Some(2);
    let mut world = World {
        failing: "load",
        ..World::default()
    };
    assert_eq!(
        world.run(&mut node_of(config)),
        Err("load failed".to_string())
    );
}

#[test]
fn a_shutdown_leaves_a_result_all_the_same() {
    let mut config = simple(&[NautilusDataType::Bar]);
    config.chunk_size = Some(1);
    let mut node = node_of(config);
    let mut world = World {
        shutdown: true,
        loads: vec![vec![1, 2, 3]],
        ..World::default()
    };
    assert_eq!(world.run(&mut node).unwrap().len(), 1);
    assert_eq!(
        log_of(&node)[5..],
        [
            "add [1] None true",
            "run None Some(1) run-1 true",
            "clear",
            "dispose",
        ]
    );
}

#[test]
fn a_simulated_venue_follows_its_config() {
    let mut config = venue("SIM", BookType::L3_MBO);
    config.base_currency = Some("USD".to_string());
    config.leverages = Some(vec![(
        id("A", "SIM"),
        Decimal {
            mantissa: 25,
            scale: 1,
        },
    )]);
    config.modules = vec![Handle(1), Handle(2)];
    config.fill_model = Some(Handle(3));
    config.margin_model = Some(Handle(4));
    config.latency_model = Some(Handle(5));
    config.oto_trigger_mode = OtoTriggerMode::Full;
    config.queue_position = true;
    let simulated = simulated_venue(&config, vec![money("10 USD").unwrap()]);
    assert_eq!(simulated.venue, "SIM");
    assert_eq!(simulated.oms_type, OmsType::Netting);
    assert_eq!(simulated.account_type, AccountType::Margin);
    assert_eq!(simulated.book_type, BookType::L3_MBO);
    assert_eq!(simulated.starting_balances[0].raw, 10);
    assert_eq!(simulated.base_currency.as_deref(), Some("USD"));
    assert_eq!(simulated.leverages.len(), 1);
    assert_eq!(simulated.leverages[0].0.to_text(), "A.SIM");
    assert_eq!(simulated.leverages[0].1.mantissa, 25);
    assert_eq!(simulated.modules, vec![Handle(1), Handle(2)]);
    assert_eq!(simulated.fill_model, ModelChoice::Configured(Handle(3)));
    assert_eq!(simulated.fee_model, ModelChoice::Default);
    assert_eq!(simulated.margin_model, Some(Handle(4)));
    assert_eq!(simulated.latency_model, Some(Handle(5)));
    assert!(simulated.oto_full_trigger);
    assert!(simulated.queue_position);
    assert!(!simulated.routing);
    assert_eq!(simulated.price_protection_points, 3);
    let plain = simulated_venue(&venue("X", BookType::L1_MBP), vec![]);
    assert!(plain.leverages.is_empty());
    assert!(!plain.oto_full_trigger);
    assert_eq!(plain.fill_model, ModelChoice::Default);
}

#[test]
fn balances_are_read_up_to_the_first_that_fails() {
    let read = collect_balances(vec![money("1 USD"), money("2 EUR")]).unwrap();
    assert_eq!(read.len(), 2);
    assert_eq!((read[1].raw, read[1].currency.as_str()), (2, "EUR"));
    assert!(collect_balances(vec![]).unwrap().is_empty());
    let error = collect_balances(vec![money("1 USD"), money("a"), money("b")]).unwrap_err();
    assert_eq!(error.message(), "Invalid starting balance: cannot read 'a'");
}

#[test]
fn instruments_in_writing() {
    let ids = vec![id("AUD/USD", "SIM"), id("BTC", "X")];
    assert_eq!(
        instrument_filter(&ids),
        Some(vec!["AUD/USD.SIM".to_string(), "BTC.X".to_string()])
    );
    assert_eq!(instrument_filter(&vec![]), None);
    assert_eq!(list_instruments(&ids), "AUD/USD.SIM, BTC.X");
    assert_eq!(list_instruments(&vec![]), "");
}
