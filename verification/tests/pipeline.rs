use swap_monitor::block::BlockSummary;
use swap_monitor::digits::decimal_string;
use swap_monitor::errors::{DecodeFault, UniswapError};
use swap_monitor::event_subscriber::{on_block, on_header, BlockStep, HeaderNotice, HeaderStep};
use swap_monitor::reorg_watcher::ReorgWatcher;
use swap_monitor::swap_event::{LogRecord, SwapDetails, SwapDirection};
use swap_monitor::swap_processor::{LogQuery, SwapProcessor};

fn id(value: u64) -> [u8; 32] {
    let mut bytes = [0u8; 32];
    bytes[24..].copy_from_slice(&value.to_be_bytes());
    bytes
}

fn chained(height: u64, parent: u64) -> BlockSummary {
    BlockSummary { hash: Some(id(height)), parent_hash: id(parent), number: height }
}

fn amount(value: u128) -> [u8; 32] {
    let mut bytes = [0u8; 32];
    bytes[16..].copy_from_slice(&value.to_be_bytes());
    bytes
}

fn processor() -> SwapProcessor {
    SwapProcessor::new([0x5a; 20], [0xc4; 32]).unwrap()
}

#[test]
fn header_with_hash_and_number_is_followed_up() {
    let notice = HeaderNotice { hash: Some(id(9)), number: Some(9) };
    assert_eq!(on_header(&notice), HeaderStep::FetchBlock(9));
}

#[test]
fn incomplete_header_is_skipped() {
    assert_eq!(on_header(&HeaderNotice { hash: None, number: Some(9) }), HeaderStep::Skip);
    assert_eq!(on_header(&HeaderNotice { hash: Some(id(9)), number: None }), HeaderStep::Skip);
    assert_eq!(on_header(&HeaderNotice { hash: None, number: None }), HeaderStep::Skip);
}

#[test]
fn absent_block_is_skipped_and_leaves_the_window() {
    let mut watcher = ReorgWatcher::new(2);
    assert_eq!(on_block(&mut watcher, Some(chained(1, 0))), BlockStep::Waiting);
    assert_eq!(on_block(&mut watcher, None), BlockStep::Skipped);
    assert_eq!(on_block(&mut watcher, Some(chained(2, 1))), BlockStep::Process(chained(1, 0)));
}

#[test]
fn head_is_processed_once_the_window_is_full() {
    let mut watcher = ReorgWatcher::new(6);
    for height in 100..105u64 {
        assert_eq!(on_block(&mut watcher, Some(chained(height, height - 1))), BlockStep::Waiting);
    }
    assert_eq!(on_block(&mut watcher, Some(chained(105, 104))), BlockStep::Process(chained(100, 99)));
    assert_eq!(on_block(&mut watcher, Some(chained(106, 105))), BlockStep::Process(chained(101, 100)));
}

#[test]
fn shallow_reorg_is_repaired_and_the_cycle_skipped() {
    let mut watcher = ReorgWatcher::new(3);
    assert_eq!(on_block(&mut watcher, Some(chained(1, 0))), BlockStep::Waiting);
    assert_eq!(on_block(&mut watcher, Some(chained(2, 1))), BlockStep::Waiting);
    assert_eq!(on_block(&mut watcher, Some(chained(3, 77))), BlockStep::Repaired(1));
    // the offending block was dropped, so the window holds blocks 1 and 2 again
    assert!(!watcher.is_ready_to_process());
    assert_eq!(watcher.check_for_reorg(), Ok(()));
    assert_eq!(on_block(&mut watcher, Some(chained(3, 2))), BlockStep::Process(chained(1, 0)));
}

#[test]
fn reorg_depth_counts_from_the_tail() {
    let mut watcher = ReorgWatcher::new(4);
    let _ = watcher.add_block(chained(1, 0));
    let _ = watcher.add_block(chained(2, 55));
    let _ = watcher.add_block(chained(3, 2));
    assert_eq!(on_block(&mut watcher, Some(chained(4, 3))), BlockStep::Repaired(3));
    assert_eq!(watcher.get_block_to_process(), Ok(chained(1, 0)));
    assert_eq!(on_block(&mut watcher, Some(chained(2, 1))), BlockStep::Waiting);
}

#[test]
fn window_without_capacity_has_nothing_to_process() {
    let mut watcher = ReorgWatcher::new(0);
    assert_eq!(on_block(&mut watcher, Some(chained(1, 0))), BlockStep::Skipped);
    assert_eq!(on_block(&mut watcher, None), BlockStep::Skipped);
}

#[test]
fn confirmed_block_gives_the_log_query() {
    let processor = processor();
    assert_eq!(
        processor.process_block(&chained(100, 99)),
        Some(LogQuery {
            block_hash: id(100),
            contract_address: [0x5a; 20],
            event_signature: [0xc4; 32],
        })
    );
}

#[test]
fn block_without_hash_gives_no_query() {
    let nameless = BlockSummary { hash: None, parent_hash: id(1), number: 2 };
    assert_eq!(processor().process_block(&nameless), None);
}

#[test]
fn decoded_log_is_written_up_in_eight_lines() {
    let mut data = Vec::new();
    data.extend_from_slice(&amount(1_000_000_000_000_000_000));
    data.extend_from_slice(&amount(1_000_000));
    let mut sender = [0u8; 32];
    sender[31] = 0x01;
    let mut recipient = [0u8; 32];
    recipient[12] = 0xfe;
    let log = LogRecord { data, topics: vec![[0xc4; 32], sender, recipient] };
    let report = processor().process_swap_log(&log);
    assert_eq!(report.failure, None);
    assert_eq!(
        report.lines,
        vec![
            "-----------------------------",
            "Swap Event Details:",
            "  Direction       : DaiToUsdc",
            "  DAI Amount      : 1",
            "  USDC Amount     : 1",
            "  Sender          : 0x0000000000000000000000000000000000000001",
            "  Recipient       : 0xfe00000000000000000000000000000000000000",
            "-----------------------------",
        ]
    );
}

#[test]
fn swap_is_written_up_field_by_field() {
    let swap = SwapDetails {
        dai_amount: "12.5".to_string(),
        usdc_amount: "-0.25".to_string(),
        direction: SwapDirection::UsdcToDai,
        sender: "0xaa".to_string(),
        recipient: "0xbb".to_string(),
    };
    assert_eq!(
        swap.report(),
        vec![
            "Swap Event Details:",
            "  Direction       : UsdcToDai",
            "  DAI Amount      : 12.5",
            "  USDC Amount     : -0.25",
            "  Sender          : 0xaa",
            "  Recipient       : 0xbb",
            "-----------------------------",
        ]
    );
}

#[test]
fn malformed_log_is_reported_and_skipped() {
    let log = LogRecord { data: vec![1, 2, 3], topics: vec![[0u8; 32]; 3] };
    let report = processor().process_swap_log(&log);
    assert_eq!(report.lines, vec!["-----------------------------"]);
    assert_eq!(report.failure, Some(UniswapError::DecodeError(DecodeFault::ShortData)));

    let log = LogRecord { data: vec![0u8; 64], topics: vec![[0u8; 32]; 2] };
    let report = processor().process_swap_log(&log);
    assert_eq!(report.lines, vec!["-----------------------------"]);
    assert_eq!(report.failure, Some(UniswapError::DecodeError(DecodeFault::MissingTopics)));
}

#[test]
fn malformed_log_does_not_block_the_next_one() {
    let processor = processor();
    let bad = LogRecord { data: Vec::new(), topics: Vec::new() };
    let good = LogRecord { data: vec![0u8; 64], topics: vec![[0u8; 32]; 3] };
    assert!(processor.process_swap_log(&bad).failure.is_some());
    let report = processor.process_swap_log(&good);
    assert_eq!(report.failure, None);
    assert_eq!(report.lines.len(), 8);
    assert_eq!(report.lines[2], "  Direction       : UsdcToDai");
    assert_eq!(report.lines[3], "  DAI Amount      : 0");
}

#[test]
fn every_log_of_a_block_gets_its_report() {
    let processor = processor();
    let mut first = Vec::new();
    first.extend_from_slice(&amount(2_000_000_000_000_000_000));
    first.extend_from_slice(&amount(3_500_000));
    let logs = vec![
        LogRecord { data: first, topics: vec![[0u8; 32]; 3] },
        LogRecord { data: vec![0u8; 63], topics: vec![[0u8; 32]; 3] },
        LogRecord { data: vec![0u8; 64], topics: vec![[0u8; 32]; 1] },
        LogRecord { data: vec![0u8; 64], topics: vec![[0u8; 32]; 3] },
    ];
    let reports = processor.process_swap_logs(&logs);
    assert_eq!(reports.len(), 4);
    assert_eq!(reports[0].failure, None);
    assert_eq!(reports[0].lines[3], "  DAI Amount      : 2");
    assert_eq!(reports[0].lines[4], "  USDC Amount     : 3.5");
    assert_eq!(reports[1].failure, Some(UniswapError::DecodeError(DecodeFault::ShortData)));
    assert_eq!(reports[1].lines, vec!["-----------------------------"]);
    assert_eq!(reports[2].failure, Some(UniswapError::DecodeError(DecodeFault::MissingTopics)));
    assert_eq!(reports[3].failure, None);
    assert_eq!(reports[3].lines.len(), 8);
    assert!(processor.process_swap_logs(&Vec::new()).is_empty());
}

#[test]
fn directions_have_their_names() {
    assert_eq!(SwapDirection::DaiToUsdc.name(), "DaiToUsdc");
    assert_eq!(SwapDirection::UsdcToDai.name(), "UsdcToDai");
    assert_eq!(SwapDirection::DaiToUsdc.name(), format!("{:?}", SwapDirection::DaiToUsdc));
    assert_eq!(SwapDirection::UsdcToDai.name(), format!("{:?}", SwapDirection::UsdcToDai));
}

#[test]
fn errors_are_written_as_kind_and_detail() {
    assert_eq!(UniswapError::ReorgError(3).message(), "ReorgError: 3");
    assert_eq!(UniswapError::ReorgError(0).message(), "ReorgError: 0");
    assert_eq!(UniswapError::ReorgError(1205).message(), "ReorgError: 1205");
    assert_eq!(UniswapError::BlockError(String::new()).message(), "BlockError: ");
    assert_eq!(
        UniswapError::Web3Error("connection closed".to_string()).message(),
        "Web3Error: connection closed"
    );
    assert_eq!(
        UniswapError::ParseError("Invalid contract address: x".to_string()).message(),
        "ParseError: Invalid contract address: x"
    );
    assert_eq!(
        UniswapError::DecodeError(DecodeFault::ShortData).message(),
        "DecodeError: log data is shorter than 64 bytes"
    );
    assert_eq!(
        UniswapError::DecodeError(DecodeFault::MissingTopics).message(),
        "DecodeError: log has fewer than 3 topics"
    );
}

#[test]
fn numbers_are_written_in_decimal() {
    assert_eq!(decimal_string(0), "0");
    assert_eq!(decimal_string(9), "9");
    assert_eq!(decimal_string(10), "10");
    assert_eq!(decimal_string(4096), "4096");
    assert_eq!(decimal_string(usize::MAX), usize::MAX.to_string());
    assert_eq!(decimal_string(1234567890), "1234567890");
}
