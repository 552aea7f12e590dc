//! Outcome shaping for the per-endpoint request fan-out.
//!
//! The same logical request goes to every endpoint of a chain in parallel,
//! each bounded by a per-request timeout. The caller of this module gathers
//! one raw outcome per endpoint — a response, a typed failure, or `None` for
//! a timeout — and the functions here shape them into the result set the
//! monitoring logic consumes: timed-out endpoints contribute nothing, and
//! failures are kept distinct from responses.

use vstd::prelude::*;

use crate::chain_state::Block;
use crate::ident::BlockId;

verus! {

/// A successful block response from one endpoint.
pub struct BlockResponse {
    /// The identifier (hash) of the returned block.
    pub block_id: BlockId,
    /// The returned block.
    pub block: Block,
}

/// A typed failure from one endpoint's request.
pub enum RpcError {
    /// The requested height has not been produced yet; expected and benign.
    NotYetProduced,
    /// Any other failure: network, decode, or server error.
    Other,
}

/// The outcomes that completed within the deadline, in endpoint order:
/// timed-out endpoints (`None`) are omitted entirely.
pub open spec fn completed_outcomes(
    s: Seq<Option<Result<BlockResponse, RpcError>>>,
) -> Seq<Result<BlockResponse, RpcError>>
    decreases s.len(),
{
    if s.len() == 0 {
        Seq::empty()
    } else {
        let rest = completed_outcomes(s.drop_first());
        match s[0] {
            Some(r) => seq![r] + rest,
            None => rest,
        }
    }
}

/// The successful responses among a set of completed outcomes, in order.
pub open spec fn ok_responses(s: Seq<Result<BlockResponse, RpcError>>) -> Seq<BlockResponse>
    decreases s.len(),
{
    if s.len() == 0 {
        Seq::empty()
    } else {
        let rest = ok_responses(s.drop_first());
        match s[0] {
            Ok(r) => seq![r] + rest,
            Err(_) => rest,
        }
    }
}

/// Shape one fan-out round's raw per-endpoint outcomes into its result set:
/// a timed-out endpoint (`None`) contributes nothing, every completed outcome
/// — success or typed failure — is kept, in endpoint order. The result set
/// may be empty; callers tolerate that and retry on their own schedule.
pub fn collect_outcomes(results: Vec<Option<Result<BlockResponse, RpcError>>>) -> (outcomes: Vec<
    Result<BlockResponse, RpcError>,
>)
    ensures
        outcomes@ == completed_outcomes(results@),
{
    let ghost orig = results@;
    let mut results = results;
    let mut outcomes: Vec<Result<BlockResponse, RpcError>> = Vec::new();
    while results.len() > 0
        invariant
            results@ == orig.skip(orig.len() - results@.len()),
            results@.len() <= orig.len(),
            outcomes@ + completed_outcomes(results@) == completed_outcomes(orig),
        decreases results@.len(),
    {
        let ghost before = results@;
        let front = results.remove(0);
        proof {
            assert(before.drop_first() =~= orig.skip(orig.len() - before.len() + 1));
        }
        match front {
            Some(outcome) => {
                outcomes.push(outcome);
                proof {
                    assert(outcomes@ + completed_outcomes(results@) =~= completed_outcomes(
                        orig,
                    ));
                }
            },
            None => {},
        }
    }
    proof {
        assert(outcomes@ + completed_outcomes(results@) =~= outcomes@);
    }
    outcomes
}

/// Keep only the successful responses of a result set, in order, dropping
/// the typed failures.
pub fn successes(outcomes: Vec<Result<BlockResponse, RpcError>>) -> (responses: Vec<BlockResponse>)
    ensures
        responses@ == ok_responses(outcomes@),
{
    let ghost orig = outcomes@;
    let mut outcomes = outcomes;
    let mut responses: Vec<BlockResponse> = Vec::new();
    while outcomes.len() > 0
        invariant
            outcomes@ == orig.skip(orig.len() - outcomes@.len()),
            outcomes@.len() <= orig.len(),
            responses@ + ok_responses(outcomes@) == ok_responses(orig),
        decreases outcomes@.len(),
    {
        let ghost before = outcomes@;
        let front = outcomes.remove(0);
        proof {
            assert(before.drop_first() =~= orig.skip(orig.len() - before.len() + 1));
        }
        match front {
            Ok(response) => {
                responses.push(response);
                proof {
                    assert(responses@ + ok_responses(outcomes@) =~= ok_responses(orig));
                }
            },
            Err(_) => {},
        }
    }
    proof {
        assert(responses@ + ok_responses(outcomes@) =~= responses@);
    }
    responses
}

} // verus!
