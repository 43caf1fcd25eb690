#![allow(dead_code)]
use ahash::AHashMap;
use backtest_node::catalog::{
    can_share_catalog, create_catalog, dispatch_query, dispatch_register_query, load_data,
};
use backtest_node::config::{
    AccountType, BacktestDataConfig, BacktestRunConfig, BacktestVenueConfig, BookType, Decimal,
    Handle, InstrumentId, NautilusDataType, OmsType, OtoTriggerMode,
};
use backtest_node::node::BacktestNode;
use backtest_node::time::{max_opt, min_opt};

fn id(symbol: &str, venue: &str) -> InstrumentId {
    InstrumentId {
        symbol: symbol.to_string(),
        venue: venue.to_string(),
    }
}

fn venue(name: &str, book_type: BookType) -> BacktestVenueConfig {
    BacktestVenueConfig {
        name: name.to_string(),
        oms_type: OmsType::Netting,
        account_type: AccountType::Margin,
        book_type,
        starting_balances: vec!["1000 USD".to_string()],
        base_currency: None,
        default_leverage: Decimal {
            mantissa: 10,
            scale: 0,
        },
        leverages: None,
        margin_model: None,
        modules: vec![],
        fill_model: None,
        fee_model: None,
        latency_model: None,
        routing: false,
        reject_stop_orders: true,
        support_gtd_orders: true,
        support_contingent_orders: true,
        use_position_ids: true,
        use_random_ids: false,
        use_reduce_only: true,
        use_market_order_acks: false,
        bar_execution: true,
        bar_adaptive_high_low_ordering: false,
        trade_execution: true,
        liquidity_consumption: false,
        allow_cash_borrowing: false,
        frozen_account: false,
        queue_position: false,
        oto_trigger_mode: OtoTriggerMode::Partial,
        price_protection_points: 3,
        liquidation_enabled: false,
        liquidation_trigger_ratio: Decimal {
            mantissa: 1,
            scale: 0,
        },
        liquidation_cancel_open_orders: false,
        settlement_prices: None,
    }
}

fn data(data_type: NautilusDataType, ids: Vec<InstrumentId>) -> BacktestDataConfig {
    BacktestDataConfig {
        data_type,
        catalog_path: "/data/catalog".to_string(),
        catalog_fs_protocol: None,
        catalog_fs_storage_options: None,
        catalog_fs_rust_storage_options: None,
        start_time: None,
        end_time: None,
        instrument_ids: Ok(ids),
        query_identifiers: None,
        filter_expr: None,
        client_id: None,
        optimize_file_loading: false,
    }
}

fn run_config(
    venues: Vec<BacktestVenueConfig>,
    data: Vec<BacktestDataConfig>,
) -> BacktestRunConfig {
    BacktestRunConfig {
        id: "run-1".to_string(),
        venues,
        data,
        engine: Handle(7),
        start: None,
        end: None,
        chunk_size: None,
        dispose_on_completion: true,
    }
}

fn options(entries: &[(&str, &str)]) -> AHashMap<String, String> {
    let mut map = AHashMap::new();
    for (name, value) in entries {
        map.insert(name.to_string(), value.to_string());
    }
    map
}

fn quotes() -> BacktestDataConfig {
    data(NautilusDataType::QuoteTick, vec![])
}

#[test]
fn the_later_start_and_the_earlier_end_hold() {
    assert_eq!(max_opt(Some(3), Some(8)), Some(8));
    assert_eq!(max_opt(Some(8), Some(3)), Some(8));
    assert_eq!(max_opt(Some(3), None), Some(3));
    assert_eq!(max_opt(None, Some(8)), Some(8));
    assert_eq!(max_opt(None, None), None);
    assert_eq!(min_opt(Some(3), Some(8)), Some(3));
    assert_eq!(min_opt(Some(8), Some(3)), Some(3));
    assert_eq!(min_opt(Some(3), None), Some(3));
    assert_eq!(min_opt(None, Some(8)), Some(8));
    assert_eq!(min_opt(None, None), None);
}

#[test]
fn the_catalog_path_follows_its_protocol() {
    assert_eq!(create_catalog(&quotes()).uri, "/data/catalog");
    let mut remote = quotes();
    remote.catalog_path = "bucket/catalog".to_string();
    remote.catalog_fs_protocol = Some("s3".to_string());
    let request = BacktestNode::<u8>::load_catalog(&remote);
    assert_eq!(request.uri, "s3://bucket/catalog");
    assert!(request.storage_options.is_none());
}

#[test]
fn options_meant_for_rust_go_first() {
    let mut config = quotes();
    config.catalog_fs_storage_options = Some(options(&[("region", "eu"), ("key", "general")]));
    let general = create_catalog(&config).storage_options.unwrap();
    assert_eq!(general, options(&[("key", "general"), ("region", "eu")]));
    config.catalog_fs_rust_storage_options = Some(options(&[("key", "rust")]));
    let rust = create_catalog(&config).storage_options.unwrap();
    assert_eq!(rust, options(&[("key", "rust")]));
    config.catalog_fs_storage_options = None;
    let alone = create_catalog(&config).storage_options.unwrap();
    assert_eq!(alone, options(&[("key", "rust")]));
}

#[test]
fn options_are_copied_and_not_shared() {
    let mut config = quotes();
    config.catalog_fs_storage_options = Some(options(&[("region", "eu")]));
    let before = create_catalog(&config).storage_options.unwrap();
    config
        .catalog_fs_storage_options
        .as_mut()
        .unwrap()
        .insert("region".to_string(), "us".to_string());
    assert_eq!(before, options(&[("region", "eu")]));
}

#[test]
fn a_query_lies_within_config_and_run() {
    let mut config = data(NautilusDataType::TradeTick, vec![]);
    config.start_time = Some(10);
    config.end_time = Some(90);
    config.query_identifiers = Some(vec!["A.SIM".to_string(), "B.SIM".to_string()]);
    config.filter_expr = Some("size > 1".to_string());
    let query = dispatch_query(&config, Some(20), Some(100));
    assert_eq!(query.data_type, NautilusDataType::TradeTick);
    assert_eq!(query.start, Some(20));
    assert_eq!(query.end, Some(90));
    assert_eq!(
        query.identifiers,
        Some(vec!["A.SIM".to_string(), "B.SIM".to_string()])
    );
    assert_eq!(query.filter.as_deref(), Some("size > 1"));
    assert!(!query.optimize);
    assert!(query.fresh_session);
    let open = dispatch_query(&quotes(), None, None);
    assert_eq!((open.start, open.end), (None, None));
    assert_eq!((open.identifiers, open.filter), (None, None));
}

#[test]
fn a_registration_asks_for_the_same_data_by_directory() {
    let mut config = quotes();
    config.start_time = Some(10);
    let alone = dispatch_query(&config, Some(5), Some(50));
    let joined = dispatch_register_query(&config, Some(5), Some(50));
    assert_eq!(joined.data_type, alone.data_type);
    assert_eq!(joined.identifiers, alone.identifiers);
    assert_eq!((joined.start, joined.end), (Some(10), Some(50)));
    assert_eq!((alone.start, alone.end), (Some(10), Some(50)));
    assert!(!alone.optimize && alone.fresh_session);
    assert!(joined.optimize && !joined.fresh_session);
    config.optimize_file_loading = true;
    assert!(dispatch_query(&config, None, None).optimize);
}

#[test]
fn a_load_names_catalog_and_query() {
    let mut config = data(NautilusDataType::Bar, vec![]);
    config.catalog_fs_protocol = Some("file".to_string());
    config.end_time = Some(9);
    for request in [
        load_data(&config, Some(1), None),
        BacktestNode::<u8>::load_data_config(&config, Some(1), None),
    ] {
        assert_eq!(request.catalog.uri, "file:///data/catalog");
        assert_eq!(request.query.data_type, NautilusDataType::Bar);
        assert_eq!(request.query.start, Some(1));
        assert_eq!(request.query.end, Some(9));
    }
}

#[test]
fn configs_share_a_catalog_only_with_equal_backends() {
    let with = |change: fn(&mut BacktestDataConfig)| {
        let mut config = quotes();
        config.catalog_fs_storage_options = Some(options(&[("a", "1"), ("b", "2")]));
        change(&mut config);
        config
    };
    let share = |change: fn(&mut BacktestDataConfig)| {
        can_share_catalog(&[with(|_| {}), with(|_| {}), with(change)])
    };
    assert!(share(|_| {}));
    assert!(share(|c| c.data_type = NautilusDataType::Bar));
    assert!(share(|c| c.start_time = Some(4)));
    assert!(share(|c| {
        c.catalog_fs_storage_options = Some(options(&[("b", "2"), ("a", "1")]))
    }));
    assert!(!share(|c| c.catalog_path = "/other".to_string()));
    assert!(!share(|c| c.catalog_fs_protocol = Some("s3".to_string())));
    assert!(!share(|c| c.catalog_fs_storage_options = None));
    assert!(!share(|c| {
        c.catalog_fs_storage_options = Some(options(&[("a", "1")]))
    }));
    assert!(!share(|c| {
        c.catalog_fs_storage_options = Some(options(&[("a", "1"), ("b", "3")]))
    }));
    assert!(!share(|c| {
        c.catalog_fs_rust_storage_options = Some(options(&[]))
    }));
    assert!(can_share_catalog(&[quotes()]));
}
