//! Hysteresis-based alerting aggregator.
//!
//! A single pager service holds the alarm ledger: the chains currently in
//! the armed (alerting) state, each with its missed-block count. An event
//! first checks for recovery — enough recently signed blocks clears the
//! chain — and only otherwise re-arms it when the missed count crosses the
//! threshold. Draining the alarms reads and clears the whole ledger
//! atomically, so an armed chain not re-reported before the next drain will
//! not reappear.
//!
//! Serialization of requests (the service runs one request at a time) is the
//! caller's concern; every state transition itself is decided here.

use vstd::prelude::*;

use crate::ident::ChainId;

verus! {

/// Default number of missed blocks after which an alert is created.
pub const DEFAULT_MISSED_BLOCKS_THRESHOLD: usize = 50;

/// Default number of recently signed blocks after which signing is
/// considered recovered.
pub const DEFAULT_RECOVERED_AFTER_THRESHOLD: usize = 5;

/// A pager alarm: a chain currently armed, with its missed-block count.
pub struct PagerAlarm {
    /// Chain ID the alarm is for.
    pub chain_id: ChainId,
    /// Number of missed blocks.
    pub missed_blocks: usize,
}

/// Requests sent to the pager service.
pub enum PagerRequest {
    /// Report one chain's current liveness counts to the pager.
    Event {
        /// Chain ID where the event occurred.
        chain_id: ChainId,
        /// Number of blocks missed within the window.
        missed_blocks: usize,
        /// Number of windowed blocks signed by the validator.
        recent_blocks: usize,
    },
    /// Read and clear the armed set.
    GetAlarms,
}

/// Responses sent from the pager service.
pub enum PagerResponse {
    /// Event responses contain no data.
    Event,
    /// The drained alarms, one per armed chain.
    GetAlarms(Vec<PagerAlarm>),
}

/// Error type for the pager service.
pub struct PagerError;

/// Well-formedness of the alarm ledger: no two entries share a chain id.
pub open spec fn ledger_wf(s: Seq<PagerAlarm>) -> bool {
    forall|i: int, j: int|
        0 <= i < j < s.len() ==> s[i].chain_id@ != s[j].chain_id@
}

/// Whether the ledger holds an entry for the chain identified by `id`.
pub open spec fn ledger_has(s: Seq<PagerAlarm>, id: Seq<u8>) -> bool {
    exists|i: int| 0 <= i < s.len() && s[i].chain_id@ == id
}

/// The index of the first ledger entry for the chain identified by `id`.
pub open spec fn ledger_index(s: Seq<PagerAlarm>, id: Seq<u8>) -> int
    decreases s.len(),
{
    if s.len() == 0 {
        0
    } else if s[0].chain_id@ == id {
        0
    } else {
        1 + ledger_index(s.drop_first(), id)
    }
}

/// The ledger after one event: recovery wins and is evaluated first — enough
/// recent signed blocks removes the chain's entry; otherwise a missed count
/// at or above the threshold (re)arms the chain with the current count; any
/// other event leaves the ledger unchanged.
pub open spec fn event_ledger(
    s: Seq<PagerAlarm>,
    chain_id: ChainId,
    missed_blocks: usize,
    recent_blocks: usize,
    missed_t: int,
    recovered_t: int,
) -> Seq<PagerAlarm> {
    if recent_blocks >= recovered_t {
        if ledger_has(s, chain_id@) {
            s.remove(ledger_index(s, chain_id@))
        } else {
            s
        }
    } else if missed_blocks >= missed_t {
        if ledger_has(s, chain_id@) {
            s.update(ledger_index(s, chain_id@), PagerAlarm { chain_id, missed_blocks })
        } else {
            s.push(PagerAlarm { chain_id, missed_blocks })
        }
    } else {
        s
    }
}

/// A first match at position `i` pins down `ledger_index`.
proof fn lemma_ledger_index_first(s: Seq<PagerAlarm>, id: Seq<u8>, i: int)
    requires
        0 <= i < s.len(),
        s[i].chain_id@ == id,
        forall|j: int| 0 <= j < i ==> s[j].chain_id@ != id,
    ensures
        ledger_index(s, id) == i,
    decreases i,
{
    if i > 0 {
        assert(forall|j: int|
            0 <= j < i - 1 ==> s.drop_first()[j].chain_id@ != id);
        lemma_ledger_index_first(s.drop_first(), id, i - 1);
    }
}

/// Pager service: the alarm ledger together with its two thresholds.
pub struct PagerService {
    chains: Vec<PagerAlarm>,
    missed_blocks_threshold: usize,
    recovered_after_threshold: usize,
}

impl PagerService {
    /// The alarm ledger: the armed chains, in arming order.
    pub closed spec fn entries(&self) -> Seq<PagerAlarm> {
        self.chains@
    }

    /// The missed-block count at which a chain is armed.
    pub closed spec fn missed_threshold(&self) -> int {
        self.missed_blocks_threshold as int
    }

    /// The recently-signed count at which a chain is cleared.
    pub closed spec fn recovered_threshold(&self) -> int {
        self.recovered_after_threshold as int
    }

    /// Well-formedness: the ledger holds at most one entry per chain.
    pub closed spec fn wf(&self) -> bool {
        ledger_wf(self.chains@)
    }

    /// Create a pager service with an empty ledger and the given thresholds.
    pub fn new(missed_blocks_threshold: usize, recovered_after_threshold: usize) -> (s: Self)
        ensures
            s.wf(),
            s.entries() == Seq::<PagerAlarm>::empty(),
            s.missed_threshold() == missed_blocks_threshold as int,
            s.recovered_threshold() == recovered_after_threshold as int,
    {
        PagerService {
            chains: Vec::new(),
            missed_blocks_threshold,
            recovered_after_threshold,
        }
    }

    /// Find the ledger entry for `chain_id`, if any.
    fn find_entry(&self, chain_id: &ChainId) -> (r: Option<usize>)
        ensures
            match r {
                Some(i) => {
                    &&& i < self.entries().len()
                    &&& self.entries()[i as int].chain_id@ == chain_id@
                    &&& i as int == ledger_index(self.entries(), chain_id@)
                    &&& ledger_has(self.entries(), chain_id@)
                },
                None => !ledger_has(self.entries(), chain_id@),
            },
    {
        let n = self.chains.len();
        let mut i: usize = 0;
        while i < n
            invariant
                n == self.entries().len(),
                i <= n,
                forall|j: int| 0 <= j < i ==> self.entries()[j].chain_id@ != chain_id@,
            decreases n - i,
        {
            if crate::ident::bytes_equal(&self.chains[i].chain_id.bytes, &chain_id.bytes) {
                proof {
                    lemma_ledger_index_first(self.entries(), chain_id@, i as int);
                }
                return Some(i);
            }
            i += 1;
        }
        None
    }

    /// Apply one liveness event to the ledger: recovery first, then arming.
    pub fn handle_event(&mut self, chain_id: ChainId, missed_blocks: usize, recent_blocks: usize)
        requires
            old(self).wf(),
        ensures
            final(self).wf(),
            final(self).missed_threshold() == old(self).missed_threshold(),
            final(self).recovered_threshold() == old(self).recovered_threshold(),
            final(self).entries() == event_ledger(
                old(self).entries(),
                chain_id,
                missed_blocks,
                recent_blocks,
                old(self).missed_threshold(),
                old(self).recovered_threshold(),
            ),
    {
        let ghost s0 = self.chains@;
        if recent_blocks >= self.recovered_after_threshold {
            match self.find_entry(&chain_id) {
                Some(i) => {
                    self.chains.remove(i);
                    proof {
                        s0.remove_ensures(i as int);
                        assert forall|a: int, b: int|
                            0 <= a < b < self.chains@.len() implies self.chains@[a].chain_id@
                            != self.chains@[b].chain_id@ by {
                            assert(self.chains@[a] == if a < i as int {
                                s0[a]
                            } else {
                                s0[a + 1]
                            });
                            assert(self.chains@[b] == if b < i as int {
                                s0[b]
                            } else {
                                s0[b + 1]
                            });
                        }
                    }
                },
                None => {},
            }
        } else if missed_blocks >= self.missed_blocks_threshold {
            match self.find_entry(&chain_id) {
                Some(i) => {
                    proof {
                        assert(s0[i as int].chain_id@ == chain_id@);
                    }
                    self.chains[i] = PagerAlarm { chain_id, missed_blocks };
                    proof {
                        assert forall|a: int, b: int|
                            0 <= a < b < self.chains@.len() implies self.chains@[a].chain_id@
                            != self.chains@[b].chain_id@ by {
                            assert(s0[a].chain_id@ != s0[b].chain_id@);
                        }
                    }
                },
                None => {
                    self.chains.push(PagerAlarm { chain_id, missed_blocks });
                    proof {
                        assert forall|a: int, b: int|
                            0 <= a < b < self.chains@.len() implies self.chains@[a].chain_id@
                            != self.chains@[b].chain_id@ by {
                            if b < s0.len() {
                                assert(s0[a].chain_id@ != s0[b].chain_id@);
                            } else {
                                assert(!ledger_has(s0, chain_id@));
                                assert(self.chains@[b].chain_id@ == chain_id@);
                            }
                        }
                    }
                },
            }
        }
    }

    /// Atomically read and clear the armed set, returning one alarm per
    /// currently armed chain, in arming order.
    pub fn get_alarms(&mut self) -> (alarms: Vec<PagerAlarm>)
        ensures
            old(self).wf() ==> final(self).wf(),
            final(self).missed_threshold() == old(self).missed_threshold(),
            final(self).recovered_threshold() == old(self).recovered_threshold(),
            alarms@ == old(self).entries(),
            final(self).entries() == Seq::<PagerAlarm>::empty(),
    {
        let mut alarms: Vec<PagerAlarm> = Vec::new();
        core::mem::swap(&mut alarms, &mut self.chains);
        alarms
    }

    /// Serve one request: an event mutates the ledger and returns an empty
    /// acknowledgement, a drain returns the alarms and clears the ledger.
    pub fn call(&mut self, request: PagerRequest) -> (response: PagerResponse)
        requires
            old(self).wf(),
        ensures
            final(self).wf(),
            final(self).missed_threshold() == old(self).missed_threshold(),
            final(self).recovered_threshold() == old(self).recovered_threshold(),
            request matches PagerRequest::Event { chain_id, missed_blocks, recent_blocks } ==> {
                &&& response is Event
                &&& final(self).entries() == event_ledger(
                    old(self).entries(),
                    chain_id,
                    missed_blocks,
                    recent_blocks,
                    old(self).missed_threshold(),
                    old(self).recovered_threshold(),
                )
            },
            request is GetAlarms ==> {
                &&& response matches PagerResponse::GetAlarms(alarms)
                &&& alarms@ == old(self).entries()
                &&& final(self).entries() == Seq::<PagerAlarm>::empty()
            },
    {
        match request {
            PagerRequest::Event { chain_id, missed_blocks, recent_blocks } => {
                self.handle_event(chain_id, missed_blocks, recent_blocks);
                PagerResponse::Event
            },
            PagerRequest::GetAlarms => PagerResponse::GetAlarms(self.get_alarms()),
        }
    }
}

} // verus!
