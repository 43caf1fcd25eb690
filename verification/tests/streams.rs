#![allow(dead_code)]
use backtest_node::chunk::take_aligned_chunk;
use backtest_node::config::{
    AccountType, BacktestDataConfig, BacktestRunConfig, BacktestVenueConfig, BookType, Decimal,
    Handle, InstrumentId, NautilusDataType, OmsType, OtoTriggerMode,
};
use backtest_node::data::{load_and_merge_data, Data};
use backtest_node::error::NodeError;
use backtest_node::ordering::{OrderingVerifier, DETAILED_REPORTS};
use backtest_node::report::Warning;
use backtest_node::step::{EngineCall, StepAction, StepEvent};
use backtest_node::stream::{
    plan_chunk, stream_chunks, stream_chunks_resort, StreamOrder, StreamState,
};

fn id(symbol: &str, venue: &str) -> InstrumentId {
    InstrumentId {
        symbol: symbol.to_string(),
        venue: venue.to_string(),
    }
}

fn venue(name: &str, book_type: BookType) -> BacktestVenueConfig {
    BacktestVenueConfig {
        name: name.to_string(),
        oms_type: OmsType::Netting,
        account_type: AccountType::Margin,
        book_type,
        starting_balances: vec!["1000 USD".to_string()],
        base_currency: None,
        default_leverage: Decimal {
            mantissa: 10,
            scale: 0,
        },
        leverages: None,
        margin_model: None,
        modules: vec![],
        fill_model: None,
        fee_model: None,
        latency_model: None,
        routing: false,
        reject_stop_orders: true,
        support_gtd_orders: true,
        support_contingent_orders: true,
        use_position_ids: true,
        use_random_ids: false,
        use_reduce_only: true,
        use_market_order_acks: false,
        bar_execution: true,
        bar_adaptive_high_low_ordering: false,
        trade_execution: true,
        liquidity_consumption: false,
        allow_cash_borrowing: false,
        frozen_account: false,
        queue_position: false,
        oto_trigger_mode: OtoTriggerMode::Partial,
        price_protection_points: 3,
        liquidation_enabled: false,
        liquidation_trigger_ratio: Decimal {
            mantissa: 1,
            scale: 0,
        },
        liquidation_cancel_open_orders: false,
        settlement_prices: None,
    }
}

fn data(data_type: NautilusDataType, ids: Vec<InstrumentId>) -> BacktestDataConfig {
    BacktestDataConfig {
        data_type,
        catalog_path: "/data/catalog".to_string(),
        catalog_fs_protocol: None,
        catalog_fs_storage_options: None,
        catalog_fs_rust_storage_options: None,
        start_time: None,
        end_time: None,
        instrument_ids: Ok(ids),
        query_identifiers: None,
        filter_expr: None,
        client_id: None,
        optimize_file_loading: false,
    }
}

fn run_config(
    venues: Vec<BacktestVenueConfig>,
    data: Vec<BacktestDataConfig>,
) -> BacktestRunConfig {
    BacktestRunConfig {
        id: "run-1".to_string(),
        venues,
        data,
        engine: Handle(7),
        start: None,
        end: None,
        chunk_size: None,
        dispose_on_completion: true,
    }
}

type Items = Vec<(u64, u32)>;

/// Items at these times, numbered in the order in which they stand.
fn items(times: &[u64]) -> Vec<Data<u32>> {
    let mut list = vec![];
    for (number, time) in times.iter().enumerate() {
        list.push(Data {
            ts_init: *time,
            payload: number as u32,
        });
    }
    list
}

fn plain(items: &[Data<u32>]) -> Items {
    items.iter().map(|d| (d.ts_init, d.payload)).collect()
}

/// What an engine was asked to do.
#[derive(Debug, PartialEq)]
enum Call {
    Add(Items),
    Run(Option<u64>, Option<u64>),
    Clear,
    End,
}

#[derive(Debug, PartialEq)]
struct Log {
    calls: Vec<Call>,
    warnings: Vec<Warning>,
    outcome: Result<(), String>,
}

fn note(call: EngineCall<u32>) -> Call {
    match call {
        EngineCall::AddData {
            data,
            client_id,
            validate,
            sort,
        } => {
            assert_eq!(client_id, None);
            assert!(!validate && sort);
            Call::Add(plain(&data))
        }
        EngineCall::Run {
            start,
            end,
            run_id,
            streaming,
        } => {
            assert_eq!(run_id.as_deref(), Some("run-1"));
            assert!(streaming);
            Call::Run(start, end)
        }
        EngineCall::ClearData => Call::Clear,
        EngineCall::End => Call::End,
        EngineCall::SortData => panic!("a stream never asks for a sort of all data"),
    }
}

/// Feeds a stream; the engine fails or is asked to shut down with the chunk of that number.
fn feed(
    order: StreamOrder,
    config: &BacktestRunConfig,
    chunk_size: usize,
    times: &[u64],
    failing: Option<usize>,
    shutdown: Option<usize>,
) -> Log {
    let advance = |state, event| match order {
        StreamOrder::Kept => stream_chunks(config, chunk_size, state, event),
        StreamOrder::Restored => stream_chunks_resort(config, chunk_size, state, event),
    };
    let mut source = items(times).into_iter();
    let mut log = Log {
        calls: vec![],
        warnings: vec![],
        outcome: Ok(()),
    };
    let mut chunks = 0;
    let mut step = advance(StreamState::new(config), StepEvent::Begin);
    loop {
        log.warnings.append(&mut step.warnings);
        let event = match step.action {
            StepAction::Pull => StepEvent::Item(source.next()),
            StepAction::Engine(calls) => {
                log.calls.extend(calls.into_iter().map(note));
                chunks += 1;
                if failing == Some(chunks) {
                    StepEvent::Failed("engine failed".to_string())
                } else {
                    StepEvent::Ran {
                        shutdown: shutdown == Some(chunks),
                    }
                }
            }
            StepAction::Complete(result) => {
                log.outcome = result.map_err(|e| e.message());
                return log;
            }
            _ => panic!("a stream pulls and runs, nothing else"),
        };
        step = advance(step.state, event);
    }
}

fn windowed(start: Option<u64>, end: Option<u64>) -> BacktestRunConfig {
    let mut config = run_config(vec![], vec![]);
    config.start = start;
    config.end = end;
    config
}

#[test]
fn batches_are_merged_by_time_and_ties_keep_their_order() {
    let merged = load_and_merge_data(vec![
        vec![
            Data { ts_init: 5, payload: 'a' },
            Data { ts_init: 1, payload: 'b' },
        ],
        vec![],
        vec![
            Data { ts_init: 5, payload: 'c' },
            Data { ts_init: 1, payload: 'd' },
            Data { ts_init: 3, payload: 'e' },
        ],
    ]);
    let order: Vec<(u64, char)> = merged.iter().map(|d| (d.ts_init, d.payload)).collect();
    assert_eq!(
        order,
        vec![(1, 'b'), (1, 'd'), (3, 'e'), (5, 'a'), (5, 'c')]
    );
    assert!(load_and_merge_data::<u8>(vec![]).is_empty());
}

#[test]
fn a_chunk_takes_all_items_of_its_last_time() {
    let mut gathered: Vec<Data<u32>> = vec![];
    let mut chunks: Vec<(Items, bool)> = vec![];
    let mut stream = items(&[1, 2, 2, 2, 3, 3, 4]).into_iter();
    loop {
        let next = stream.next();
        let ended = next.is_none();
        if let Some(chunk) = take_aligned_chunk(&mut gathered, next, 2) {
            chunks.push((plain(&chunk.items), chunk.last));
        }
        if ended {
            break;
        }
    }
    assert_eq!(
        chunks,
        vec![
            (vec![(1, 0), (2, 1), (2, 2), (2, 3)], false),
            (vec![(3, 4), (3, 5)], false),
            (vec![(4, 6)], true),
        ]
    );
    assert!(gathered.is_empty());
}

#[test]
fn chunks_of_no_items_take_nothing() {
    let mut gathered: Vec<Data<u32>> = vec![];
    let chunk = take_aligned_chunk(&mut gathered, items(&[1]).pop(), 0).unwrap();
    assert!(chunk.items.is_empty());
    assert!(!chunk.last);
    let log = feed(StreamOrder::Kept, &windowed(None, None), 0, &[1, 2], None, None);
    assert_eq!(log.calls, vec![Call::End]);
}

#[test]
fn a_stream_without_items_only_ends_the_run() {
    for order in [StreamOrder::Kept, StreamOrder::Restored] {
        let log = feed(order, &windowed(Some(1), Some(9)), 3, &[], None, None);
        assert_eq!(log.calls, vec![Call::End]);
        assert_eq!(log.warnings, vec![]);
        assert_eq!(log.outcome, Ok(()));
    }
}

#[test]
fn kept_runs_follow_on_each_other() {
    let log = feed(
        StreamOrder::Kept,
        &windowed(Some(0), Some(10)),
        3,
        &[1, 2, 3, 3, 3, 4, 5, 6, 7],
        None,
        None,
    );
    assert_eq!(
        log.calls,
        vec![
            Call::Add(vec![(1, 0), (2, 1), (3, 2), (3, 3), (3, 4)]),
            Call::Run(Some(0), Some(3)),
            Call::Clear,
            Call::Add(vec![(4, 5), (5, 6), (6, 7)]),
            Call::Run(Some(3), Some(6)),
            Call::Clear,
            Call::Add(vec![(7, 8)]),
            Call::Run(Some(6), Some(10)),
            Call::Clear,
            Call::End,
        ]
    );
    assert_eq!(log.warnings, vec![]);
    assert_eq!(log.outcome, Ok(()));
}

#[test]
fn a_kept_stream_without_an_end_leaves_the_last_run_open() {
    let log = feed(StreamOrder::Kept, &windowed(None, None), 5, &[4, 8], None, None);
    assert_eq!(
        log.calls,
        vec![
            Call::Add(vec![(4, 0), (8, 1)]),
            Call::Run(None, None),
            Call::Clear,
            Call::End,
        ]
    );
}

#[test]
fn a_kept_stream_does_not_sort() {
    let log = feed(StreamOrder::Kept, &windowed(None, None), 2, &[5, 3, 9], None, None);
    assert_eq!(log.calls[0], Call::Add(vec![(5, 0), (3, 1)]));
    assert_eq!(log.calls[1], Call::Run(None, Some(3)));
    assert_eq!(log.warnings, vec![]);
}

#[test]
fn a_shuffled_stream_is_put_in_order_chunk_by_chunk() {
    let log = feed(
        StreamOrder::Restored,
        &windowed(None, None),
        2,
        &[1, 5, 3, 2, 9, 8],
        None,
        None,
    );
    assert_eq!(
        log.calls,
        vec![
            Call::Add(vec![(1, 0), (5, 1)]),
            Call::Run(None, Some(5)),
            Call::Clear,
            Call::Add(vec![(2, 3), (3, 2)]),
            Call::Run(Some(2), Some(3)),
            Call::Clear,
            Call::Add(vec![(8, 5), (9, 4)]),
            Call::Run(Some(5), Some(9)),
            Call::Clear,
            Call::End,
        ]
    );
    assert_eq!(
        log.warnings,
        vec![
            Warning::BackwardChunk {
                chunk_index: 1,
                earliest: 2,
                boundary: 5
            },
            Warning::ClampedStart {
                chunk_index: 1,
                latest: 3,
                boundary: 5,
                start: 2
            },
        ]
    );
}

#[test]
fn a_chunk_behind_the_boundary_starts_at_its_earliest_item() {
    let log = feed(
        StreamOrder::Restored,
        &windowed(Some(0), Some(30)),
        2,
        &[9, 10, 8, 5, 20],
        None,
        None,
    );
    assert_eq!(
        log.calls,
        vec![
            Call::Add(vec![(9, 0), (10, 1)]),
            Call::Run(Some(0), Some(10)),
            Call::Clear,
            Call::Add(vec![(5, 3), (8, 2)]),
            Call::Run(Some(5), Some(8)),
            Call::Clear,
            Call::Add(vec![(20, 4)]),
            Call::Run(Some(10), Some(30)),
            Call::Clear,
            Call::End,
        ]
    );
    assert_eq!(
        log.warnings[1].message(),
        "stream_chunks_resort: chunk 1 max ts 8 < previous chunk max ts 10; \
         clamping engine start to chunk min 5 to avoid start>end"
    );
}

#[test]
fn a_chunk_that_begins_behind_and_ends_ahead_is_not_clamped() {
    let log = feed(
        StreamOrder::Restored,
        &windowed(Some(1), Some(20)),
        2,
        &[1, 5, 3, 7],
        None,
        None,
    );
    assert_eq!(
        log.calls[3..5],
        [
            Call::Add(vec![(3, 2), (7, 3)]),
            Call::Run(Some(5), Some(20))
        ]
    );
    assert_eq!(
        log.warnings,
        vec![Warning::BackwardChunk {
            chunk_index: 1,
            earliest: 3,
            boundary: 5
        }]
    );
}

#[test]
fn a_chunk_is_reported_by_its_earliest_item() {
    let log = feed(
        StreamOrder::Restored,
        &windowed(None, None),
        2,
        &[9, 10, 11, 4, 20],
        None,
        None,
    );
    assert_eq!(
        log.warnings,
        vec![Warning::BackwardChunk {
            chunk_index: 1,
            earliest: 4,
            boundary: 10
        }]
    );
    assert_eq!(
        log.calls[3..5],
        [
            Call::Add(vec![(4, 3), (11, 2)]),
            Call::Run(Some(10), Some(11))
        ]
    );
}

#[test]
fn the_boundary_never_goes_back() {
    let log = feed(
        StreamOrder::Restored,
        &windowed(None, None),
        1,
        &[9, 2, 4, 10],
        None,
        None,
    );
    let runs: Vec<&Call> = log.calls.iter().filter(|c| matches!(c, Call::Run(..))).collect();
    assert_eq!(
        runs,
        vec![
            &Call::Run(None, Some(9)),
            &Call::Run(Some(2), Some(2)),
            &Call::Run(Some(4), Some(4)),
            &Call::Run(Some(9), Some(10)),
        ]
    );
    assert_eq!(log.warnings.len(), 4);
}

#[test]
fn every_item_of_a_stream_is_fed_once() {
    let times = [4, 4, 1, 7, 7, 7, 2, 9, 9, 3, 3, 8];
    for order in [StreamOrder::Kept, StreamOrder::Restored] {
        for chunk_size in 1..14 {
            let log = feed(order, &windowed(None, None), chunk_size, &times, None, None);
            let mut fed: Items = vec![];
            for call in log.calls {
                if let Call::Add(chunk) = call {
                    fed.extend(chunk);
                }
            }
            if order == StreamOrder::Kept {
                assert_eq!(fed, plain(&items(&times)));
            }
            fed.sort_by_key(|item| item.1);
            assert_eq!(fed, plain(&items(&times)));
        }
    }
}

#[test]
fn items_of_one_time_are_never_parted_in_a_stream_in_order() {
    let times = [1, 1, 1, 2, 3, 3, 4, 4, 4, 4, 5];
    for chunk_size in 1..12 {
        let config = windowed(Some(0), Some(6));
        let log = feed(StreamOrder::Kept, &config, chunk_size, &times, None, None);
        let mut latest = 0;
        for call in &log.calls {
            match call {
                Call::Add(chunk) => {
                    assert!(latest < chunk[0].0);
                    latest = chunk[chunk.len() - 1].0;
                }
                Call::Run(start, end) => assert!(start.unwrap() <= end.unwrap()),
                _ => {}
            }
        }
    }
}

#[test]
fn a_restored_stream_within_the_run_never_runs_backward() {
    let times = [9, 4, 1, 7, 2, 7, 2, 9, 3, 3, 8, 1];
    for chunk_size in 1..13 {
        let config = windowed(Some(1), Some(9));
        let log = feed(StreamOrder::Restored, &config, chunk_size, &times, None, None);
        for call in &log.calls {
            if let Call::Run(start, end) = call {
                assert!(start.unwrap() <= end.unwrap());
            }
        }
    }
}

#[test]
fn both_orders_feed_a_stream_in_order_alike() {
    let times = [1, 1, 2, 4, 4, 4, 6, 7, 9, 9];
    for chunk_size in 1..12 {
        let config = windowed(Some(0), Some(10));
        let kept = feed(StreamOrder::Kept, &config, chunk_size, &times, None, None);
        let restored = feed(StreamOrder::Restored, &config, chunk_size, &times, None, None);
        assert_eq!(kept, restored);
        assert_eq!(kept.warnings, vec![]);
        let open = windowed(Some(0), None);
        let mut kept = feed(StreamOrder::Kept, &open, chunk_size, &times, None, None);
        let restored = feed(StreamOrder::Restored, &open, chunk_size, &times, None, None);
        let last = kept.calls.len() - 3;
        match &mut kept.calls[last] {
            Call::Run(_, end) => {
                assert_eq!(*end, None);
                *end = Some(9);
            }
            _ => panic!("the last run stands third from the end"),
        }
        assert_eq!(kept, restored);
    }
}

#[test]
fn a_stream_has_no_more_chunks_than_full_ones_would_make() {
    let times = [5, 5, 1, 7, 7, 7, 2, 9, 9, 3, 3];
    for order in [StreamOrder::Kept, StreamOrder::Restored] {
        for chunk_size in 1..13 {
            let log = feed(order, &windowed(None, None), chunk_size, &times, None, None);
            let chunks = log.calls.iter().filter(|c| matches!(c, Call::Add(_))).count();
            assert!(chunks <= times.len().div_ceil(chunk_size));
        }
    }
}

#[test]
fn a_shutdown_stops_the_stream_without_ending_the_run() {
    for order in [StreamOrder::Kept, StreamOrder::Restored] {
        let log = feed(order, &windowed(None, None), 1, &[1, 2, 3], None, Some(2));
        assert_eq!(log.calls.len(), 6);
        assert!(!log.calls.contains(&Call::End));
        assert_eq!(log.outcome, Ok(()));
    }
}

#[test]
fn a_failing_engine_stops_the_stream() {
    for order in [StreamOrder::Kept, StreamOrder::Restored] {
        let log = feed(order, &windowed(None, None), 1, &[1, 2, 3], Some(1), None);
        assert_eq!(log.calls.len(), 3);
        assert_eq!(log.outcome, Err("engine failed".to_string()));
    }
}

#[test]
fn a_chunk_is_planned_for_its_place() {
    let first = plan_chunk(StreamOrder::Restored, None, Some(2), None, 0, items(&[6, 4]), true);
    assert_eq!(plain(&first.data), vec![(4, 1), (6, 0)]);
    assert_eq!((first.start, first.end), (Some(2), Some(6)));
    assert_eq!(first.warnings, vec![]);
    let last = plan_chunk(StreamOrder::Restored, Some(30), Some(8), Some(8), 4, items(&[8, 9]), true);
    assert_eq!((last.start, last.end), (Some(8), Some(30)));
    assert_eq!(last.warnings, vec![]);
    let kept = plan_chunk(StreamOrder::Kept, Some(30), Some(8), None, 4, items(&[5, 3]), false);
    assert_eq!(plain(&kept.data), vec![(5, 0), (3, 1)]);
    assert_eq!((kept.start, kept.end), (Some(8), Some(3)));
}

#[test]
fn backward_items_are_reported_with_the_item_ahead() {
    let mut verifier = OrderingVerifier::new("merged");
    assert_eq!(verifier.next(10), None);
    assert_eq!(verifier.next(10), None);
    assert_eq!(
        verifier.next(4),
        Some(Warning::BackwardItem {
            label: "merged",
            count: 1,
            time: 4,
            prior: 10,
            gap: 6
        })
    );
    assert_eq!(
        verifier.next(7),
        Some(Warning::BackwardItem {
            label: "merged",
            count: 2,
            time: 7,
            prior: 4,
            gap: 3
        })
    );
    assert_eq!(verifier.next(11), None);
    assert_eq!(verifier.violations(), 2);
}

#[test]
fn a_backward_item_behind_another_names_that_one() {
    let mut verifier = OrderingVerifier::new("x");
    verifier.next(10);
    verifier.next(5);
    let warning = verifier.next(3).unwrap();
    assert_eq!(
        warning,
        Warning::BackwardItem {
            label: "x",
            count: 2,
            time: 3,
            prior: 5,
            gap: 7
        }
    );
    assert_eq!(
        warning.message(),
        "OrderingVerifier[x] backward yield #2: ts=3 prev=5 gap=7ns"
    );
}

#[test]
fn many_backward_items_are_only_counted() {
    let mut verifier = OrderingVerifier::new("merged");
    assert_eq!(verifier.next(1_000), None);
    let mut counted = vec![];
    for count in 1..=300 {
        match verifier.next(1) {
            Some(Warning::BackwardItem { count: c, gap, .. }) => {
                assert_eq!((c, gap), (count, 999));
                assert!(count <= DETAILED_REPORTS);
            }
            Some(Warning::BackwardItemCount { label, count: c }) => {
                assert_eq!(label, "merged");
                assert_eq!(c, count);
                counted.push(c);
            }
            Some(_) => panic!("a verifier reports backward items only"),
            None => assert!(count > DETAILED_REPORTS),
        }
    }
    assert_eq!(counted, vec![64, 128, 256]);
    assert_eq!(verifier.violations(), 300);
}

#[test]
fn warnings_in_words() {
    let cases = vec![
        (
            Warning::NoData {
                data_type: NautilusDataType::OrderBookDepth10,
            },
            "No data found for config: OrderBookDepth10",
        ),
        (
            Warning::BackwardItem {
                label: "merged",
                count: 12,
                time: 4,
                prior: 10,
                gap: 6,
            },
            "OrderingVerifier[merged] backward yield #12: ts=4 prev=10 gap=6ns",
        ),
        (
            Warning::BackwardItemCount {
                label: "merged",
                count: 64,
            },
            "OrderingVerifier[merged] backward yield count now 64 \
             (further violations suppressed unless power-of-two)",
        ),
        (
            Warning::BackwardChunk {
                chunk_index: 1,
                earliest: 3,
                boundary: 5,
            },
            "stream_chunks_resort: chunk 1 first ts 3 < previous chunk last ts 5 \
             (upstream merge produced backwards-going items; sorting locally to repair)",
        ),
        (
            Warning::ClampedStart {
                chunk_index: 20,
                latest: 3,
                boundary: 5,
                start: 2,
            },
            "stream_chunks_resort: chunk 20 max ts 3 < previous chunk max ts 5; \
             clamping engine start to chunk min 2 to avoid start>end",
        ),
    ];
    for (warning, words) in cases {
        assert_eq!(warning.message(), words);
    }
    for data_type in [
        NautilusDataType::QuoteTick,
        NautilusDataType::TradeTick,
        NautilusDataType::Bar,
        NautilusDataType::OrderBookDelta,
        NautilusDataType::OrderBookDepth10,
        NautilusDataType::MarkPriceUpdate,
        NautilusDataType::IndexPriceUpdate,
        NautilusDataType::InstrumentStatus,
        NautilusDataType::InstrumentClose,
        NautilusDataType::OptionGreeks,
    ] {
        assert_eq!(
            Warning::NoData { data_type }.message(),
            format!("No data found for config: {data_type:?}")
        );
    }
}

#[test]
fn items_in_order_are_no_violation() {
    let mut verifier = OrderingVerifier::new("merged");
    for time in [0, 0, 1, 5, 5, u64::MAX] {
        assert_eq!(verifier.next(time), None);
    }
    assert_eq!(verifier.violations(), 0);
}

#[test]
fn a_failure_outside_keeps_its_words() {
    let error = NodeError::Outside {
        message: "engine failed".to_string(),
    };
    assert_eq!(error.message(), "engine failed");
}
