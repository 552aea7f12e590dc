//! Per-chain polling scheduler and state machine.
//!
//! One monitor owns one chain's state tracker and drives its polling loop.
//! The monitor decides everything — which height to poll, how long to wait,
//! which responses to adopt, and when to resync — while its caller performs
//! the outside work: sleeping, fanning requests out to the endpoints, and
//! reading the wall clock. Each decision function takes the gathered
//! responses and the caller's clock reading as arguments.
//!
//! All timestamps and durations are wall-clock nanoseconds.

use vstd::arithmetic::div_mod::{lemma_div_basics_5, lemma_div_by_self, lemma_div_is_ordered};
use vstd::prelude::*;

use crate::chain_state::{
    accepts, consensus_time_of, import_window, next_block_time_of, BlockData, ChainState,
    MIN_CONSENSUS_TIME,
};
use crate::fanout::{BlockResponse, RpcError};
use crate::ident::{bytes_equal, ChainId, ValidatorId};

verus! {

/// A fatal monitoring error: unrecoverable misconfiguration rather than a
/// transient network condition.
#[derive(Debug)]
pub enum MonitorError {
    /// A responding endpoint reported a chain identifier other than the
    /// configured one.
    ChainIdMismatch {
        /// The configured chain identifier.
        expected: ChainId,
        /// The chain identifier the endpoint reported.
        found: ChainId,
    },
}

/// The block data carried by a response.
pub open spec fn block_data_of(r: BlockResponse) -> BlockData {
    BlockData { id: r.block_id, block: r.block }
}

/// The maximum of `h0` and the heights reported by `rs`.
pub open spec fn max_response_height(h0: int, rs: Seq<BlockResponse>) -> int
    decreases rs.len(),
{
    if rs.len() == 0 {
        h0
    } else {
        let rest = max_response_height(h0, rs.drop_last());
        if rs.last().block.height > rest {
            rs.last().block.height as int
        } else {
            rest
        }
    }
}

/// Whether any response reports a chain identifier other than `expected`.
pub open spec fn any_chain_mismatch(rs: Seq<BlockResponse>, expected: Seq<u8>) -> bool {
    exists|i: int| 0 <= i < rs.len() && rs[i].block.chain_id@ != expected
}

/// The window after importing, in order, every response whose height is `h`.
pub open spec fn import_at_height(
    w: Seq<BlockData>,
    rs: Seq<BlockResponse>,
    h: int,
    cap: int,
) -> Seq<BlockData>
    decreases rs.len(),
{
    if rs.len() == 0 {
        w
    } else {
        let prev = import_at_height(w, rs.drop_last(), h, cap);
        if rs.last().block.height == h {
            import_window(prev, block_data_of(rs.last()), cap)
        } else {
            prev
        }
    }
}

/// Whether a poll outcome is a response the window would adopt.
pub open spec fn outcome_accepted(
    w: Seq<BlockData>,
    r: Result<BlockResponse, RpcError>,
) -> bool {
    r matches Ok(resp) && accepts(w, resp.block_id@)
}

/// The clock offset observed at an import: the local reading minus the
/// block's asserted time, floored at zero.
pub open spec fn offset_from(now: int, block_time: int) -> int {
    if now >= block_time {
        now - block_time
    } else {
        0
    }
}

/// The base wait before the next poll attempt: the time remaining until the
/// predicted arrival, or the minimum consensus time when the prediction is
/// already past.
pub open spec fn poll_base(predicted: int, started_at: int) -> int {
    if predicted >= started_at {
        predicted - started_at
    } else {
        MIN_CONSENSUS_TIME as int
    }
}

/// The adaptive sleep: `duration` divided by `max(1, ratio^2)` where
/// `ratio = delta_ms / (1.5 * ct_ms)`, in integer arithmetic
/// (`ratio^2 = 4 * delta_ms^2 / (9 * ct_ms^2)`). The more the observed clock
/// offset exceeds one and a half times the expected cadence, the more
/// aggressively the wait shortens — quadratically — while a small offset
/// never lengthens the wait.
pub open spec fn adjusted_sleep_of(duration: int, delta_ms: int, ct_ms: int) -> int {
    let num = 4 * delta_ms * delta_ms;
    let den = 9 * ct_ms * ct_ms;
    if num <= den {
        duration
    } else if ct_ms == 0 {
        0
    } else {
        duration / (num / den)
    }
}

/// The predicted arrival time of the next block: the tracker's estimate
/// shifted by the observed clock offset, falling back to the unshifted
/// estimate when the sum does not fit in 64 bits.
pub open spec fn predicted_time_of(w: Seq<BlockData>, delta: int, now: int) -> int {
    let nbt = next_block_time_of(w, now);
    if nbt + delta <= u64::MAX {
        nbt + delta
    } else {
        nbt
    }
}

/// One accepted adoption during steady-poll reconciliation: among the
/// outcomes `rs` walked in order, position `i` held the first response the
/// window of `m0` would adopt, and `m1` is `m0` after adopting it — the
/// response imported, the height set to `target`, and the clock offset
/// re-observed against `now`.
pub open spec fn poll_adoption(
    m0: ChainMonitor,
    m1: ChainMonitor,
    target: int,
    rs: Seq<Result<BlockResponse, RpcError>>,
    now: int,
    i: int,
) -> bool {
    &&& 0 <= i < rs.len()
    &&& outcome_accepted(m0.window(), rs[i])
    &&& forall|j: int| 0 <= j < i ==> !outcome_accepted(m0.window(), rs[j])
    &&& rs[i] matches Ok(resp) && {
        &&& m1.window() == import_window(m0.window(), block_data_of(resp), m0.capacity())
        &&& m1.height() == target
        &&& m1.time_delta() == offset_from(now, resp.block.time as int)
    }
}

/// Chain monitor: one chain's state tracker together with its last known
/// height and the clock offset observed at the last import.
pub struct ChainMonitor {
    chain_state: ChainState,
    block_height: u64,
    bft_time_delta: u64,
}

impl ChainMonitor {
    /// The tracker's window, newest-first.
    pub closed spec fn window(&self) -> Seq<BlockData> {
        self.chain_state.window()
    }

    /// The tracker's capacity.
    pub closed spec fn capacity(&self) -> int {
        self.chain_state.capacity()
    }

    /// The identifier of the monitored chain.
    pub closed spec fn chain_id_view(&self) -> Seq<u8> {
        self.chain_state.chain_id_view()
    }

    /// The latest known block height.
    pub closed spec fn height(&self) -> int {
        self.block_height as int
    }

    /// The clock offset observed at the last import, in nanoseconds.
    pub closed spec fn time_delta(&self) -> int {
        self.bft_time_delta as int
    }

    /// Well-formedness: the tracker is well-formed.
    pub closed spec fn wf(&self) -> bool {
        self.chain_state.wf()
    }

    /// Create a new monitor for `chain_id` with an empty window, height zero
    /// and no observed clock offset. Seed it with `initialize` before steady
    /// polling.
    pub fn new(chain_id: ChainId) -> (m: Self)
        ensures
            m.wf(),
            m.chain_id_view() == chain_id@,
            m.window() == Seq::<BlockData>::empty(),
            m.capacity() == crate::chain_state::DEFAULT_HISTORY_SIZE as int,
            m.height() == 0,
            m.time_delta() == 0,
    {
        ChainMonitor {
            chain_state: ChainState::new(chain_id),
            block_height: 0,
            bft_time_delta: 0,
        }
    }

    /// Get the chain ID being monitored.
    pub fn chain_id(&self) -> (id: &ChainId)
        ensures
            id@ == self.chain_id_view(),
    {
        self.chain_state.chain_id()
    }

    /// Get the latest known block height.
    pub fn block_height(&self) -> (h: u64)
        ensures
            h as int == self.height(),
    {
        self.block_height
    }

    /// Borrow the underlying chain state tracker.
    pub fn state(&self) -> (s: &ChainState)
        ensures
            s.window() == self.window(),
            s.capacity() == self.capacity(),
            s.chain_id_view() == self.chain_id_view(),
            s.wf() == self.wf(),
    {
        &self.chain_state
    }

    /// Get the count of missed blocks for the given validator.
    pub fn missed_blocks(&self, validator_address: &ValidatorId) -> (count: usize)
        ensures
            count as int == crate::chain_state::missed_count(
                self.window(),
                validator_address@,
            ),
    {
        self.chain_state.missed_blocks(validator_address)
    }

    /// Get the count of recently signed blocks for the given validator.
    pub fn recent_blocks(&self, validator_address: &ValidatorId) -> (count: usize)
        ensures
            count as int == crate::chain_state::recent_count(
                self.window(),
                validator_address@,
            ),
    {
        self.chain_state.recent_blocks(validator_address)
    }

    /// Seed the monitor from the responses of a "latest block" fan-out:
    /// reject — fatally, with no state change — any response reporting a
    /// foreign chain identifier, else adopt the maximum reported height and
    /// import every response at that height.
    pub fn initialize(&mut self, responses: Vec<BlockResponse>) -> (r: Result<
        (),
        MonitorError,
    >)
        requires
            old(self).wf(),
        ensures
            final(self).wf(),
            final(self).chain_id_view() == old(self).chain_id_view(),
            final(self).capacity() == old(self).capacity(),
            r is Err <==> any_chain_mismatch(responses@, old(self).chain_id_view()),
            r matches Err(MonitorError::ChainIdMismatch { expected, found }) ==> {
                &&& *final(self) == *old(self)
                &&& expected@ == old(self).chain_id_view()
                &&& exists|i: int|
                    {
                        &&& 0 <= i < responses@.len()
                        &&& found@ == responses@[i].block.chain_id@
                        &&& found@ != old(self).chain_id_view()
                        &&& forall|j: int|
                            0 <= j < i ==> responses@[j].block.chain_id@ == old(
                                self,
                            ).chain_id_view()
                    }
            },
            r is Ok ==> {
                &&& final(self).height() == max_response_height(
                    old(self).height(),
                    responses@,
                )
                &&& final(self).window() == import_at_height(
                    old(self).window(),
                    responses@,
                    final(self).height(),
                    old(self).capacity(),
                )
                &&& final(self).time_delta() == old(self).time_delta()
            },
    {
        let n = responses.len();

        // Reject any response that reports a foreign chain identifier.
        let mut i: usize = 0;
        while i < n
            invariant
                n == responses@.len(),
                i <= n,
                old(self).wf(),
                *self == *old(self),
                forall|j: int|
                    0 <= j < i ==> responses@[j].block.chain_id@ == old(
                        self,
                    ).chain_id_view(),
            decreases n - i,
        {
            let expected = self.chain_state.chain_id();
            if !bytes_equal(&responses[i].block.chain_id.bytes, &expected.bytes) {
                let found = responses[i].block.chain_id.clone();
                let expected = expected.clone();
                proof {
                    assert(responses@[i as int].block.chain_id@ != old(
                        self,
                    ).chain_id_view());
                }
                return Err(MonitorError::ChainIdMismatch { expected, found });
            }
            i += 1;
        }

        // Adopt the maximum reported height.
        let mut max_h = self.block_height;
        let mut i: usize = 0;
        while i < n
            invariant
                n == responses@.len(),
                i <= n,
                max_h as int == max_response_height(
                    old(self).block_height as int,
                    responses@.take(i as int),
                ),
            decreases n - i,
        {
            let h = responses[i].block.height;
            if h > max_h {
                max_h = h;
            }
            proof {
                assert(responses@.take(i as int + 1).drop_last() =~= responses@.take(
                    i as int,
                ));
                assert(responses@.take(i as int + 1).last() == responses@[i as int]);
            }
            i += 1;
        }
        proof {
            assert(responses@.take(n as int) =~= responses@);
        }
        self.block_height = max_h;

        // Import every response at that height.
        self.import_matching(responses, max_h);
        Ok(())
    }

    /// Steady-poll reconciliation: walk one round's poll outcomes in order
    /// and adopt the first response the tracker accepts as new, recording the
    /// target height and the clock offset observed against `now`; ignore
    /// failures (benign or otherwise) and stop after one accepted import.
    pub fn apply_poll_responses(
        &mut self,
        target_height: u64,
        responses: Vec<Result<BlockResponse, RpcError>>,
        now: u64,
    ) -> (added: bool)
        requires
            old(self).wf(),
        ensures
            final(self).wf(),
            final(self).chain_id_view() == old(self).chain_id_view(),
            final(self).capacity() == old(self).capacity(),
            added == exists|i: int|
                0 <= i < responses@.len() && outcome_accepted(old(self).window(), responses@[i]),
            !added ==> *final(self) == *old(self),
            added ==> exists|i: int|
                poll_adoption(
                    *old(self),
                    *final(self),
                    target_height as int,
                    responses@,
                    now as int,
                    i,
                ),
    {
        let n = responses.len();
        let ghost orig = responses@;
        let ghost w0 = self.chain_state.window();
        let mut remaining = responses;
        let mut k: usize = 0;
        while remaining.len() > 0
            invariant
                old(self).wf(),
                orig == responses@,
                n as int == orig.len(),
                k == orig.len() - remaining@.len(),
                k <= orig.len(),
                remaining@ == orig.skip(k as int),
                forall|j: int| 0 <= j < k ==> !outcome_accepted(w0, orig[j]),
                w0 == old(self).window(),
                *self == *old(self),
            decreases remaining@.len(),
        {
            let ghost before = remaining@;
            let outcome = remaining.remove(0);
            let ghost outcome_g = outcome;
            proof {
                assert(before.drop_first() =~= orig.skip(k as int + 1));
                assert(outcome_g == orig[k as int]);
            }
            match outcome {
                Ok(resp) => {
                    let ghost resp_g = resp;
                    let offset = if now >= resp.block.time {
                        now - resp.block.time
                    } else {
                        0
                    };
                    let BlockResponse { block_id, block } = resp;
                    let accepted = self.chain_state.import_block(block_id, block);
                    if accepted {
                        self.block_height = target_height;
                        self.bft_time_delta = offset;
                        proof {
                            assert(orig[k as int] matches Ok(r2) && r2 == resp_g);
                            assert(outcome_accepted(w0, orig[k as int]));
                            assert(poll_adoption(
                                *old(self),
                                *self,
                                target_height as int,
                                orig,
                                now as int,
                                k as int,
                            ));
                            assert(exists|i: int|
                                0 <= i < orig.len() && outcome_accepted(
                                    old(self).window(),
                                    orig[i],
                                ));
                            assert(exists|i: int|
                                poll_adoption(
                                    *old(self),
                                    *self,
                                    target_height as int,
                                    orig,
                                    now as int,
                                    i,
                                ));
                        }
                        return true;
                    }
                },
                Err(_) => {},
            }
            k += 1;
        }
        false
    }

    /// The next height to poll for: one past the latest known height.
    pub fn next_height(&self) -> (h: u64)
        requires
            self.height() < u64::MAX,
        ensures
            h as int == self.height() + 1,
    {
        self.block_height + 1
    }

    /// Whether a catch-up check is due before the next poll: the latest known
    /// height is an exact multiple of the window capacity.
    pub fn needs_catchup_check(&self) -> (r: bool)
        requires
            self.wf(),
        ensures
            r == (self.height() % self.capacity() == 0),
    {
        proof {
            self.chain_state.lemma_wf_implications();
        }
        let cap = self.chain_state.history_size() as u64;
        self.block_height % cap == 0
    }

    /// The predicted arrival time of the next block, in nanoseconds: the
    /// tracker's estimate shifted by the observed clock offset. `now` is the
    /// caller's current wall-clock reading.
    pub fn predicted_next_block_time(&self, now: u64) -> (t: u64)
        ensures
            t as int == predicted_time_of(self.window(), self.time_delta(), now as int),
    {
        let nbt = self.chain_state.next_block_time(now);
        match nbt.checked_add(self.bft_time_delta) {
            Some(t) => t,
            None => nbt,
        }
    }

    /// The sleep before the next poll attempt, in nanoseconds: the time
    /// remaining until `predicted` as seen from `started_at` (or the minimum
    /// consensus time when the prediction is already past), shortened by the
    /// adaptive divisor.
    pub fn poll_wait(&self, predicted: u64, started_at: u64) -> (r: u64)
        ensures
            r as int == adjusted_sleep_of(
                poll_base(predicted as int, started_at as int),
                self.time_delta() / 1_000_000,
                consensus_time_of(self.window()) / 1_000_000,
            ),
    {
        let base = if predicted >= started_at {
            predicted - started_at
        } else {
            MIN_CONSENSUS_TIME
        };
        self.adjusted_sleep_duration(base)
    }

    /// Shorten a computed sleep by the adaptive divisor derived from the
    /// observed clock offset and the chain's consensus time (both compared
    /// in milliseconds).
    pub fn adjusted_sleep_duration(&self, duration: u64) -> (r: u64)
        ensures
            r as int == adjusted_sleep_of(
                duration as int,
                self.time_delta() / 1_000_000,
                consensus_time_of(self.window()) / 1_000_000,
            ),
    {
        let delta_ms = self.bft_time_delta / 1_000_000;
        let ct = self.chain_state.consensus_time();
        let ct_ms = ct / 1_000_000;
        proof {
            lemma_div_is_ordered(self.bft_time_delta as int, u64::MAX as int, 1_000_000);
            lemma_div_is_ordered(ct as int, u64::MAX as int, 1_000_000);
            assert(4 * (delta_ms as int) * (delta_ms as int) <= u128::MAX as int)
                by (nonlinear_arith)
                requires
                    0 <= delta_ms as int <= 18_446_744_073_710int,
            ;
            assert(9 * (ct_ms as int) * (ct_ms as int) <= u128::MAX as int)
                by (nonlinear_arith)
                requires
                    0 <= ct_ms as int <= 18_446_744_073_710int,
            ;
        }
        let num: u128 = 4 * (delta_ms as u128) * (delta_ms as u128);
        let den: u128 = 9 * (ct_ms as u128) * (ct_ms as u128);
        if num <= den {
            duration
        } else if ct_ms == 0 {
            0
        } else {
            proof {
                assert(9 * (ct_ms as int) * (ct_ms as int) > 0) by (nonlinear_arith)
                    requires
                        ct_ms as int > 0,
                ;
                lemma_div_is_ordered(den as int, num as int, den as int);
                lemma_div_by_self(den as int);
            }
            let divisor = num / den;
            proof {
                lemma_div_basics_5(duration as int, divisor as int);
            }
            ((duration as u128) / divisor) as u64
        }
    }

    /// Catch-up check against a "latest block" fan-out: when the maximum
    /// reported height exceeds the latest known height by more than the
    /// window capacity, the tracker has fallen irrecoverably behind — clear
    /// the window, adopt the new maximum height, and import the responses at
    /// that height. Otherwise change nothing.
    pub fn apply_latest_blocks(&mut self, responses: Vec<BlockResponse>) -> (resynced: bool)
        requires
            old(self).wf(),
        ensures
            final(self).wf(),
            final(self).chain_id_view() == old(self).chain_id_view(),
            final(self).capacity() == old(self).capacity(),
            resynced == (max_response_height(old(self).height(), responses@) - old(
                self,
            ).height() > old(self).capacity()),
            !resynced ==> *final(self) == *old(self),
            resynced ==> {
                &&& final(self).height() == max_response_height(
                    old(self).height(),
                    responses@,
                )
                &&& final(self).window() == import_at_height(
                    Seq::<BlockData>::empty(),
                    responses@,
                    final(self).height(),
                    old(self).capacity(),
                )
                &&& final(self).time_delta() == old(self).time_delta()
            },
    {
        let n = responses.len();
        let mut max_h = self.block_height;
        let mut i: usize = 0;
        while i < n
            invariant
                n == responses@.len(),
                i <= n,
                max_h >= self.block_height,
                max_h as int == max_response_height(
                    self.block_height as int,
                    responses@.take(i as int),
                ),
                *self == *old(self),
            decreases n - i,
        {
            let h = responses[i].block.height;
            if h > max_h {
                max_h = h;
            }
            proof {
                assert(responses@.take(i as int + 1).drop_last() =~= responses@.take(
                    i as int,
                ));
                assert(responses@.take(i as int + 1).last() == responses@[i as int]);
            }
            i += 1;
        }
        proof {
            assert(responses@.take(n as int) =~= responses@);
        }

        let lag = max_h - self.block_height;
        let cap = self.chain_state.history_size() as u64;
        if lag > cap {
            self.chain_state.clear();
            self.block_height = max_h;
            self.import_matching(responses, max_h);
            true
        } else {
            false
        }
    }

    /// Import, in order, every response whose height is `height`.
    fn import_matching(&mut self, responses: Vec<BlockResponse>, height: u64)
        requires
            old(self).wf(),
        ensures
            final(self).wf(),
            final(self).chain_id_view() == old(self).chain_id_view(),
            final(self).capacity() == old(self).capacity(),
            final(self).height() == old(self).height(),
            final(self).time_delta() == old(self).time_delta(),
            final(self).window() == import_at_height(
                old(self).window(),
                responses@,
                height as int,
                old(self).capacity(),
            ),
    {
        let n = responses.len();
        let ghost orig = responses@;
        let ghost w0 = self.chain_state.window();
        let mut responses = responses;
        let mut k: usize = 0;
        while responses.len() > 0
            invariant
                old(self).wf(),
                self.chain_state.wf(),
                n as int == orig.len(),
                k == orig.len() - responses@.len(),
                k <= orig.len(),
                responses@ == orig.skip(k as int),
                self.chain_state.chain_id_view() == old(self).chain_id_view(),
                self.chain_state.capacity() == old(self).capacity(),
                self.block_height == old(self).block_height,
                self.bft_time_delta == old(self).bft_time_delta,
                self.chain_state.window() == import_at_height(
                    w0,
                    orig.take(k as int),
                    height as int,
                    old(self).capacity(),
                ),
                w0 == old(self).window(),
            decreases responses@.len(),
        {
            let ghost before = responses@;
            let response = responses.remove(0);
            proof {
                assert(before.drop_first() =~= orig.skip(k as int + 1));
                assert(response == orig[k as int]);
                assert(orig.take(k as int + 1).drop_last() =~= orig.take(k as int));
                assert(orig.take(k as int + 1).last() == orig[k as int]);
            }
            if response.block.height == height {
                let BlockResponse { block_id, block } = response;
                self.chain_state.import_block(block_id, block);
            }
            k += 1;
        }
        proof {
            assert(orig.take(orig.len() as int) =~= orig);
        }
    }
}

} // verus!
