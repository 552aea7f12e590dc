use observatory::chain_state::{Block, ChainState, Commit, CommitSig};
use observatory::ident::{BlockId, ChainId, ValidatorId};

fn cid(s: &str) -> ChainId {
    ChainId::new(s.as_bytes().to_vec())
}

fn vid(b: u8) -> ValidatorId {
    ValidatorId::new(vec![b; 20])
}

fn bid(b: u8) -> BlockId {
    BlockId::new(vec![b; 32])
}

fn block_signed_by(chain: &str, height: u64, time: u64, signer: u8) -> Block {
    Block {
        chain_id: cid(chain),
        height,
        time,
        last_commit: Some(Commit {
            signatures: vec![CommitSig {
                validator_address: Some(vid(signer)),
            }],
        }),
    }
}

fn block_without_commit(chain: &str, height: u64, time: u64) -> Block {
    Block {
        chain_id: cid(chain),
        height,
        time,
        last_commit: None,
    }
}

#[test]
fn import_same_block_id_twice_is_rejected() {
    let mut state = ChainState::new(cid("test-1"));
    assert!(state.import_block(bid(1), block_signed_by("test-1", 1, 1_000_000_000, 7)));
    assert_eq!(state.window_len(), 1);
    assert!(!state.import_block(bid(1), block_signed_by("test-1", 1, 1_000_000_000, 7)));
    assert_eq!(state.window_len(), 1);
}

#[test]
fn window_never_exceeds_capacity_and_evicts_oldest() {
    let mut state = ChainState::with_history_size(cid("test-1"), 3);
    for h in 1..=5u64 {
        assert!(state.import_block(bid(h as u8), block_signed_by("test-1", h, h * 1_000_000_000, h as u8)));
        assert!(state.window_len() <= 3);
    }
    assert_eq!(state.window_len(), 3);
    // Only block 1's signer signed block 1; its eviction leaves no hit for it.
    assert_eq!(state.recent_blocks(&vid(1)), 0);
    assert_eq!(state.recent_blocks(&vid(5)), 1);
    let latest = state.latest_block().expect("window is non-empty");
    assert!(latest.id() == &bid(5));
}

#[test]
fn miss_hit_complement_on_full_commits() {
    let mut state = ChainState::new(cid("test-1"));
    let v = vid(9);
    // Blocks 1 and 3 signed by v; blocks 2 and 4 signed by someone else.
    state.import_block(bid(1), block_signed_by("test-1", 1, 1_000_000_000, 9));
    state.import_block(bid(2), block_signed_by("test-1", 2, 2_000_000_000, 8));
    state.import_block(bid(3), block_signed_by("test-1", 3, 3_000_000_000, 9));
    state.import_block(bid(4), block_signed_by("test-1", 4, 4_000_000_000, 8));
    assert_eq!(state.missed_blocks(&v), 2);
    assert_eq!(state.recent_blocks(&v), 2);
    assert_eq!(state.missed_blocks(&v) + state.recent_blocks(&v), state.window_len());
}

#[test]
fn blocks_without_commit_count_neither() {
    let mut state = ChainState::new(cid("test-1"));
    state.import_block(bid(1), block_without_commit("test-1", 1, 1_000_000_000));
    assert_eq!(state.window_len(), 1);
    assert_eq!(state.missed_blocks(&vid(9)), 0);
    assert_eq!(state.recent_blocks(&vid(9)), 0);
}

#[test]
fn consensus_time_floor_with_few_blocks() {
    let mut state = ChainState::new(cid("test-1"));
    assert_eq!(state.consensus_time(), 1_000_000_000);
    state.import_block(bid(1), block_signed_by("test-1", 1, 5_000_000_000, 7));
    assert_eq!(state.consensus_time(), 1_000_000_000);
}

#[test]
fn consensus_time_floor_with_equal_timestamps() {
    let mut state = ChainState::new(cid("test-1"));
    state.import_block(bid(1), block_signed_by("test-1", 1, 5_000_000_000, 7));
    state.import_block(bid(2), block_signed_by("test-1", 2, 5_000_000_000, 7));
    assert_eq!(state.consensus_time(), 1_000_000_000);
    state.import_block(bid(3), block_signed_by("test-1", 3, 5_000_000_000, 7));
    assert_eq!(state.consensus_time(), 1_000_000_000);
}

#[test]
fn consensus_time_averages_positive_deltas() {
    let mut state = ChainState::new(cid("test-1"));
    state.import_block(bid(1), block_signed_by("test-1", 1, 1_000_000_000, 7));
    state.import_block(bid(2), block_signed_by("test-1", 2, 3_000_000_000, 7));
    state.import_block(bid(3), block_signed_by("test-1", 3, 6_000_000_000, 7));
    // Deltas newest-first: 3s and 2s; their average is 2.5s.
    assert_eq!(state.consensus_time(), 2_500_000_000);
}

#[test]
fn next_block_time_falls_back_to_now_when_empty() {
    let state = ChainState::new(cid("test-1"));
    assert_eq!(state.next_block_time(5_000_000_000), 6_000_000_000);
}

#[test]
fn next_block_time_extends_latest_block() {
    let mut state = ChainState::new(cid("test-1"));
    state.import_block(bid(1), block_signed_by("test-1", 1, 10_000_000_000, 7));
    assert_eq!(state.next_block_time(99_000_000_000), 11_000_000_000);
}

#[test]
fn clear_empties_window() {
    let mut state = ChainState::new(cid("test-1"));
    state.import_block(bid(1), block_signed_by("test-1", 1, 1_000_000_000, 7));
    state.import_block(bid(2), block_signed_by("test-1", 2, 2_000_000_000, 7));
    state.clear();
    assert_eq!(state.window_len(), 0);
    assert!(state.latest_block().is_none());
}

#[test]
fn end_to_end_capacity_five_six_imports() {
    let v = vid(42);
    let mut state = ChainState::with_history_size(cid("test-1"), 5);
    for h in 1..=6u64 {
        // Block 3 presents a commit, but not signed by the watched validator.
        let signer = if h == 3 { 13 } else { 42 };
        let new = state.import_block(
            bid(h as u8),
            block_signed_by("test-1", h, h * 1_000_000_000, signer),
        );
        assert!(new);
    }
    assert_eq!(state.window_len(), 5);
    assert_eq!(state.missed_blocks(&v), 1);
    assert_eq!(state.recent_blocks(&v), 4);
    assert_eq!(state.history_size(), 5);
    assert!(state.chain_id() == &cid("test-1"));
}
