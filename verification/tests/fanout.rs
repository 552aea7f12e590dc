use observatory::chain_state::Block;
use observatory::fanout::{collect_outcomes, successes, BlockResponse, RpcError};
use observatory::ident::{BlockId, ChainId};

fn response(height: u64, id_byte: u8) -> BlockResponse {
    BlockResponse {
        block_id: BlockId::new(vec![id_byte; 32]),
        block: Block {
            chain_id: ChainId::new(b"test-1".to_vec()),
            height,
            time: height * 1_000_000_000,
            last_commit: None,
        },
    }
}

#[test]
fn fanout_partial_failure_keeps_completed_outcomes() {
    // Three endpoints: one times out, one answers "not yet produced",
    // one succeeds.
    let raw = vec![
        None,
        Some(Err(RpcError::NotYetProduced)),
        Some(Ok(response(7, 1))),
    ];
    let outcomes = collect_outcomes(raw);
    assert_eq!(outcomes.len(), 2);
    let ok_count = outcomes.iter().filter(|r| r.is_ok()).count();
    assert_eq!(ok_count, 1);
    let responses = successes(outcomes);
    assert_eq!(responses.len(), 1);
    assert!(responses[0].block_id == BlockId::new(vec![1; 32]));
    assert_eq!(responses[0].block.height, 7);
}

#[test]
fn fanout_tolerates_all_endpoints_timing_out() {
    let raw: Vec<Option<Result<BlockResponse, RpcError>>> = vec![None, None, None];
    let outcomes = collect_outcomes(raw);
    assert!(outcomes.is_empty());
    let responses = successes(outcomes);
    assert!(responses.is_empty());
}

#[test]
fn successes_drop_typed_failures_in_order() {
    let outcomes = vec![
        Err(RpcError::Other),
        Ok(response(3, 3)),
        Err(RpcError::NotYetProduced),
        Ok(response(4, 4)),
    ];
    let responses = successes(outcomes);
    assert_eq!(responses.len(), 2);
    assert_eq!(responses[0].block.height, 3);
    assert_eq!(responses[1].block.height, 4);
}
