#![allow(dead_code)]
use backtest_node::config::{
    AccountType, BacktestDataConfig, BacktestRunConfig, BacktestVenueConfig, BookType, Decimal,
    Handle, InstrumentId, NautilusDataType, OmsType, OtoTriggerMode,
};
use backtest_node::error::NodeError;
use backtest_node::node::BacktestNode;
use backtest_node::validate::{
    validate_configs, validate_data_config, validate_run_config, validate_venue_config,
};

fn id(symbol: &str, venue: &str) -> InstrumentId {
    InstrumentId {
        symbol: symbol.to_string(),
        venue: venue.to_string(),
    }
}

fn venue(name: &str, book_type: BookType) -> BacktestVenueConfig {
    BacktestVenueConfig {
        name: name.to_string(),
        oms_type: OmsType::Netting,
        account_type: AccountType::Margin,
        book_type,
        starting_balances: vec!["1000 USD".to_string()],
        base_currency: None,
        default_leverage: Decimal {
            mantissa: 10,
            scale: 0,
        },
        leverages: None,
        margin_model: None,
        modules: vec![],
        fill_model: None,
        fee_model: None,
        latency_model: None,
        routing: false,
        reject_stop_orders: true,
        support_gtd_orders: true,
        support_contingent_orders: true,
        use_position_ids: true,
        use_random_ids: false,
        use_reduce_only: true,
        use_market_order_acks: false,
        bar_execution: true,
        bar_adaptive_high_low_ordering: false,
        trade_execution: true,
        liquidity_consumption: false,
        allow_cash_borrowing: false,
        frozen_account: false,
        queue_position: false,
        oto_trigger_mode: OtoTriggerMode::Partial,
        price_protection_points: 3,
        liquidation_enabled: false,
        liquidation_trigger_ratio: Decimal {
            mantissa: 1,
            scale: 0,
        },
        liquidation_cancel_open_orders: false,
        settlement_prices: None,
    }
}

fn data(data_type: NautilusDataType, ids: Vec<InstrumentId>) -> BacktestDataConfig {
    BacktestDataConfig {
        data_type,
        catalog_path: "/data/catalog".to_string(),
        catalog_fs_protocol: None,
        catalog_fs_storage_options: None,
        catalog_fs_rust_storage_options: None,
        start_time: None,
        end_time: None,
        instrument_ids: Ok(ids),
        query_identifiers: None,
        filter_expr: None,
        client_id: None,
        optimize_file_loading: false,
    }
}

fn run_config(
    venues: Vec<BacktestVenueConfig>,
    data: Vec<BacktestDataConfig>,
) -> BacktestRunConfig {
    BacktestRunConfig {
        id: "run-1".to_string(),
        venues,
        data,
        engine: Handle(7),
        start: None,
        end: None,
        chunk_size: None,
        dispose_on_completion: true,
    }
}

fn refusal(configs: Vec<BacktestRunConfig>) -> String {
    match BacktestNode::<u8>::new(configs) {
        Ok(_) => panic!("the configs were accepted"),
        Err(error) => error.message(),
    }
}

#[test]
fn a_consistent_config_is_accepted() {
    let config = run_config(
        vec![venue("SIM", BookType::L2_MBP)],
        vec![
            data(NautilusDataType::QuoteTick, vec![id("AUD/USD", "SIM")]),
            data(NautilusDataType::OrderBookDelta, vec![id("AUD/USD", "SIM")]),
        ],
    );
    let node = BacktestNode::<u8>::new(vec![config]).unwrap();
    assert_eq!(node.configs().len(), 1);
    assert_eq!(node.configs()[0].id, "run-1");
    assert!(node.get_engine("run-1").is_none());
    assert!(node.get_engines().is_empty());
}

#[test]
fn no_config_is_refused() {
    assert_eq!(refusal(vec![]), "At least one run config is required");
    assert!(validate_configs(&[]).is_ok());
}

#[test]
fn several_configs_are_refused_before_anything_else() {
    let mut second = run_config(vec![], vec![]);
    second.id = "run-2".to_string();
    let expected = "Only one run config per BacktestNode is supported \
                    (kernel MessageBus is a thread-local singleton)";
    assert_eq!(refusal(vec![run_config(vec![], vec![]), second]), expected);
    assert_eq!(
        refusal(vec![run_config(vec![], vec![]), run_config(vec![], vec![])]),
        expected
    );
}

#[test]
fn a_time_range_that_ends_before_it_starts_is_refused() {
    let mut quotes = data(NautilusDataType::QuoteTick, vec![]);
    quotes.start_time = Some(1_500);
    quotes.end_time = Some(90);
    assert_eq!(
        refusal(vec![run_config(vec![], vec![quotes])]),
        "Data config start_time (1500) must be <= end_time (90)"
    );
}

#[test]
fn time_ranges_with_an_open_or_equal_bound_are_accepted() {
    for (start, end) in [
        (None, None),
        (Some(5), None),
        (None, Some(5)),
        (Some(5), Some(5)),
        (Some(0), Some(u64::MAX)),
    ] {
        let mut quotes = data(NautilusDataType::QuoteTick, vec![]);
        quotes.start_time = start;
        quotes.end_time = end;
        assert!(validate_data_config(&vec![], &quotes).is_ok());
    }
}

#[test]
fn an_instrument_of_an_unknown_venue_is_refused() {
    let config = run_config(
        vec![venue("SIM", BookType::L1_MBP)],
        vec![data(
            NautilusDataType::QuoteTick,
            vec![id("AUD/USD", "SIM"), id("ESZ4", "XCME"), id("X", "OTHER")],
        )],
    );
    assert_eq!(
        refusal(vec![config]),
        "No venue config found for venue 'XCME' (required by instrument ESZ4.XCME)"
    );
}

#[test]
fn the_time_range_is_checked_before_the_instruments() {
    let mut quotes = data(NautilusDataType::QuoteTick, vec![id("ESZ4", "XCME")]);
    quotes.start_time = Some(2);
    quotes.end_time = Some(1);
    assert!(matches!(
        validate_data_config(&vec![], &quotes),
        Err(NodeError::InvalidTimeRange { start: 2, end: 1 })
    ));
}

#[test]
fn instruments_that_cannot_be_made_out_are_refused() {
    let mut quotes = data(NautilusDataType::QuoteTick, vec![]);
    quotes.instrument_ids = Err("bad identifier".to_string());
    assert_eq!(
        refusal(vec![run_config(vec![], vec![quotes])]),
        "bad identifier"
    );
}

#[test]
fn deep_books_without_book_data_are_refused() {
    for (book_type, name) in [(BookType::L2_MBP, "L2_MBP"), (BookType::L3_MBO, "L3_MBO")] {
        let config = run_config(
            vec![venue("SIM", book_type)],
            vec![data(NautilusDataType::QuoteTick, vec![id("A", "SIM")])],
        );
        assert_eq!(
            refusal(vec![config]),
            format!("Venue 'SIM' has book_type {name} but no order book data configured")
        );
    }
    let shallow = run_config(
        vec![venue("SIM", BookType::L1_MBP)],
        vec![data(NautilusDataType::QuoteTick, vec![id("A", "SIM")])],
    );
    assert!(validate_run_config(&shallow).is_ok());
}

#[test]
fn book_data_must_be_of_the_venue_or_of_all() {
    let deep = venue("SIM", BookType::L3_MBO);
    let elsewhere = data(NautilusDataType::OrderBookDelta, vec![id("A", "XCME")]);
    let here = data(
        NautilusDataType::OrderBookDepth10,
        vec![id("A", "XCME"), id("B", "SIM")],
    );
    let everywhere = data(NautilusDataType::OrderBookDelta, vec![]);
    let mut unclear = data(NautilusDataType::OrderBookDelta, vec![]);
    unclear.instrument_ids = Err("bad identifier".to_string());
    assert!(matches!(
        validate_venue_config(&vec![elsewhere], &deep),
        Err(NodeError::MissingBookData {
            book_type: BookType::L3_MBO,
            ..
        })
    ));
    assert!(validate_venue_config(&vec![here], &deep).is_ok());
    assert!(validate_venue_config(&vec![everywhere], &deep).is_ok());
    assert!(validate_venue_config(&vec![unclear], &deep).is_ok());
    assert!(validate_venue_config(&vec![], &deep).is_err());
}

#[test]
fn data_is_checked_before_venues() {
    let config = run_config(
        vec![venue("SIM", BookType::L2_MBP)],
        vec![data(NautilusDataType::QuoteTick, vec![id("ESZ4", "XCME")])],
    );
    assert!(matches!(
        validate_run_config(&config),
        Err(NodeError::MissingVenue { .. })
    ));
}

#[test]
fn errors_in_words() {
    let cases = vec![
        (
            NodeError::DuplicateId {
                id: "run-1".to_string(),
            },
            "Duplicate run config ID 'run-1'",
        ),
        (
            NodeError::InvalidBalance {
                message: "no amount".to_string(),
            },
            "Invalid starting balance: no amount",
        ),
        (
            NodeError::NoInstruments {
                listing: "A.SIM, B.SIM".to_string(),
            },
            "No instruments found in catalog for requested IDs: [A.SIM, B.SIM]",
        ),
        (
            NodeError::NoSettlementInstrument {
                instrument: id("A", "SIM"),
            },
            "No instrument found for settlement price configuration: A.SIM",
        ),
        (
            NodeError::EngineNotFound {
                id: "run-1".to_string(),
            },
            "Engine not found for config 'run-1'. Call build() first.",
        ),
        (NodeError::ZeroChunkSize, "chunk_size must be > 0"),
        (
            NodeError::NoDataConfigs {
                id: "run-1".to_string(),
            },
            "No data config to stream from for config 'run-1'",
        ),
        (
            NodeError::MissingBookData {
                venue: "SIM".to_string(),
                book_type: BookType::L1_MBP,
            },
            "Venue 'SIM' has book_type L1_MBP but no order book data configured",
        ),
        (
            NodeError::InvalidTimeRange {
                start: u64::MAX,
                end: 0,
            },
            "Data config start_time (18446744073709551615) must be <= end_time (0)",
        ),
        (
            NodeError::Outside {
                message: "disk".to_string(),
            },
            "disk",
        ),
    ];
    for (error, words) in cases {
        assert_eq!(error.message(), words);
    }
}
