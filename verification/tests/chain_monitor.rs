use observatory::chain_monitor::{ChainMonitor, MonitorError};
use observatory::chain_state::{Block, Commit, CommitSig};
use observatory::fanout::{BlockResponse, RpcError};
use observatory::ident::{BlockId, ChainId, ValidatorId};

fn cid(s: &str) -> ChainId {
    ChainId::new(s.as_bytes().to_vec())
}

fn response(chain: &str, height: u64, time: u64, id_byte: u8) -> BlockResponse {
    BlockResponse {
        block_id: BlockId::new(vec![id_byte; 32]),
        block: Block {
            chain_id: cid(chain),
            height,
            time,
            last_commit: Some(Commit {
                signatures: vec![CommitSig {
                    validator_address: Some(ValidatorId::new(vec![42; 20])),
                }],
            }),
        },
    }
}

#[test]
fn initialize_rejects_foreign_chain_id() {
    let mut monitor = ChainMonitor::new(cid("test-1"));
    let result = monitor.initialize(vec![
        response("test-1", 10, 1_000_000_000, 1),
        response("other-9", 10, 1_000_000_000, 2),
    ]);
    match result {
        Err(MonitorError::ChainIdMismatch { expected, found }) => {
            assert!(expected == cid("test-1"));
            assert!(found == cid("other-9"));
        },
        Ok(()) => panic!("a foreign chain id must be rejected"),
    }
    // A rejected initialization changes nothing.
    assert_eq!(monitor.block_height(), 0);
    assert_eq!(monitor.state().window_len(), 0);
}

#[test]
fn initialize_adopts_the_maximum_reported_height() {
    let mut monitor = ChainMonitor::new(cid("test-1"));
    let result = monitor.initialize(vec![
        response("test-1", 10, 1_000_000_000, 1),
        response("test-1", 12, 3_000_000_000, 2),
        response("test-1", 11, 2_000_000_000, 3),
    ]);
    assert!(result.is_ok());
    assert_eq!(monitor.block_height(), 12);
    // Only the response at the maximum height is imported.
    assert_eq!(monitor.state().window_len(), 1);
    let latest = monitor.state().latest_block().expect("seeded window");
    assert!(latest.id() == &BlockId::new(vec![2; 32]));
}

#[test]
fn poll_adopts_first_new_response_only_once() {
    let mut monitor = ChainMonitor::new(cid("test-1"));
    monitor
        .initialize(vec![response("test-1", 1, 0, 1)])
        .expect("seed");
    let added = monitor.apply_poll_responses(
        2,
        vec![
            Err(RpcError::NotYetProduced),
            Ok(response("test-1", 2, 1_000_000_000, 2)),
        ],
        10_000_000_000,
    );
    assert!(added);
    assert_eq!(monitor.block_height(), 2);
    assert_eq!(monitor.state().window_len(), 2);

    // The same block id against the new front is not adopted again.
    let added_again = monitor.apply_poll_responses(
        3,
        vec![Ok(response("test-1", 2, 1_000_000_000, 2))],
        11_000_000_000,
    );
    assert!(!added_again);
    assert_eq!(monitor.block_height(), 2);
    assert_eq!(monitor.state().window_len(), 2);
}

#[test]
fn resync_triggered_when_far_behind() {
    let mut monitor = ChainMonitor::new(cid("test-1"));
    monitor
        .initialize(vec![response("test-1", 100, 1_000_000_000, 1)])
        .expect("seed");
    assert_eq!(monitor.block_height(), 100);

    // Capacity is 100; a reported head of 250 is 150 blocks ahead.
    let resynced = monitor.apply_latest_blocks(vec![response("test-1", 250, 9_000_000_000, 7)]);
    assert!(resynced);
    assert_eq!(monitor.block_height(), 250);
    assert_eq!(monitor.state().window_len(), 1);
    let latest = monitor.state().latest_block().expect("reseeded window");
    assert!(latest.id() == &BlockId::new(vec![7; 32]));
    assert_eq!(latest.time(), 9_000_000_000);
}

#[test]
fn resync_not_triggered_within_capacity() {
    let mut monitor = ChainMonitor::new(cid("test-1"));
    monitor
        .initialize(vec![response("test-1", 100, 1_000_000_000, 1)])
        .expect("seed");
    let resynced = monitor.apply_latest_blocks(vec![response("test-1", 200, 5_000_000_000, 7)]);
    assert!(!resynced);
    assert_eq!(monitor.block_height(), 100);
    assert_eq!(monitor.state().window_len(), 1);
}

#[test]
fn adjusted_sleep_shortens_quadratically() {
    let mut monitor = ChainMonitor::new(cid("test-1"));
    monitor
        .initialize(vec![response("test-1", 1, 0, 1)])
        .expect("seed");
    // Adopting a block asserted at t=1s while the local clock reads t=10s
    // records a 9s offset; the two windowed blocks put the cadence at 1s.
    monitor.apply_poll_responses(
        2,
        vec![Ok(response("test-1", 2, 1_000_000_000, 2))],
        10_000_000_000,
    );
    // delta_ms = 9000, ct_ms = 1000: divisor = (4 * 9000^2) / (9 * 1000^2) = 36.
    assert_eq!(monitor.adjusted_sleep_duration(72_000), 2_000);
}

#[test]
fn adjusted_sleep_never_lengthens() {
    let monitor = ChainMonitor::new(cid("test-1"));
    // With no observed offset the divisor floors at one.
    assert_eq!(monitor.adjusted_sleep_duration(5_000_000_000), 5_000_000_000);
}

#[test]
fn poll_wait_floors_when_prediction_is_past() {
    let monitor = ChainMonitor::new(cid("test-1"));
    assert_eq!(monitor.poll_wait(5, 10), 1_000_000_000);
}

#[test]
fn predicted_time_shifts_by_observed_offset() {
    let mut monitor = ChainMonitor::new(cid("test-1"));
    monitor
        .initialize(vec![response("test-1", 1, 0, 1)])
        .expect("seed");
    monitor.apply_poll_responses(
        2,
        vec![Ok(response("test-1", 2, 1_000_000_000, 2))],
        10_000_000_000,
    );
    // Cadence 1s on top of the front block at 1s, shifted by the 9s offset.
    assert_eq!(monitor.predicted_next_block_time(77_000_000_000), 11_000_000_000);
}

#[test]
fn catchup_check_due_at_capacity_multiples() {
    let mut monitor = ChainMonitor::new(cid("test-1"));
    // Height 0 is a multiple of the capacity.
    assert!(monitor.needs_catchup_check());
    monitor
        .initialize(vec![response("test-1", 100, 1_000_000_000, 1)])
        .expect("seed");
    assert!(monitor.needs_catchup_check());
    monitor.apply_poll_responses(
        101,
        vec![Ok(response("test-1", 101, 2_000_000_000, 2))],
        2_000_000_000,
    );
    assert!(!monitor.needs_catchup_check());
}

#[test]
fn next_height_is_one_past_current() {
    let mut monitor = ChainMonitor::new(cid("test-1"));
    monitor
        .initialize(vec![response("test-1", 41, 1_000_000_000, 1)])
        .expect("seed");
    assert_eq!(monitor.next_height(), 42);
    assert!(monitor.chain_id() == &cid("test-1"));
}

#[test]
fn monitor_counts_delegate_to_tracker() {
    let v = ValidatorId::new(vec![42; 20]);
    let mut monitor = ChainMonitor::new(cid("test-1"));
    monitor
        .initialize(vec![response("test-1", 1, 0, 1)])
        .expect("seed");
    assert_eq!(monitor.recent_blocks(&v), 1);
    assert_eq!(monitor.missed_blocks(&v), 0);
    assert_eq!(monitor.missed_blocks(&ValidatorId::new(vec![9; 20])), 1);
}
