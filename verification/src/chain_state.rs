//! Bounded, time-ordered window of recently observed blocks for one chain.
//!
//! The window holds the most recent blocks newest-first, capped at a
//! configurable capacity. Blocks are ingested idempotently against the current
//! front entry, and the window derives the chain's block-production cadence
//! and the monitored validator's miss/hit counts.
//!
//! All timestamps and durations are wall-clock nanoseconds.

use std::collections::VecDeque;
use vstd::arithmetic::div_mod::{lemma_div_is_ordered, lemma_div_multiples_vanish};
use vstd::prelude::*;

use crate::ident::{bytes_equal, BlockId, ChainId, ValidatorId};

verus! {

/// Number of blocks the window retains by default.
pub const DEFAULT_HISTORY_SIZE: usize = 100;

/// Minimum expected consensus time, in nanoseconds (one second).
pub const MIN_CONSENSUS_TIME: u64 = 1_000_000_000;

/// One signature slot of a block's commit: either attributed to a validator
/// or absent.
pub struct CommitSig {
    /// The validator the signature is attributed to, if any.
    pub validator_address: Option<ValidatorId>,
}

/// The set of validator signatures attesting to a block.
pub struct Commit {
    /// The signature slots of the commit.
    pub signatures: Vec<CommitSig>,
}

/// A block as the tracker reads it.
pub struct Block {
    /// The chain the block belongs to, as asserted by its header.
    pub chain_id: ChainId,
    /// The block's height.
    pub height: u64,
    /// The wall-clock time asserted by the chain, in nanoseconds.
    pub time: u64,
    /// The signatures attesting to the previous block, if the block carries
    /// commit data at all.
    pub last_commit: Option<Commit>,
}

/// Data about a particular block in the chain: the block and its identifier.
pub struct BlockData {
    /// The block's identifier (hash).
    pub id: BlockId,
    /// The block itself.
    pub block: Block,
}

impl BlockData {
    /// Get the ID of this block.
    pub fn id(&self) -> (id: &BlockId)
        ensures
            id@ == self.id@,
    {
        &self.id
    }

    /// Get the block time, in nanoseconds.
    pub fn time(&self) -> (t: u64)
        ensures
            t == self.block.time,
    {
        self.block.time
    }
}

/// Whether `sig` is attributed to the validator identified by `v`.
pub open spec fn sig_attributed_to(sig: CommitSig, v: Seq<u8>) -> bool {
    sig.validator_address matches Some(addr) && addr@ == v
}

/// Whether the commit carries a signature attributed to the validator
/// identified by `v`.
pub open spec fn commit_has_validator(c: Commit, v: Seq<u8>) -> bool {
    exists|i: int| 0 <= i < c.signatures@.len() && sig_attributed_to(c.signatures@[i], v)
}

/// A block counts as missed for `v` when it presents commit data that carries
/// no signature attributed to `v`. Blocks without commit data count neither
/// as a miss nor as a hit.
pub open spec fn counts_as_miss(d: BlockData, v: Seq<u8>) -> bool {
    d.block.last_commit matches Some(c) && !commit_has_validator(c, v)
}

/// A block counts as a hit for `v` when its commit data carries a signature
/// attributed to `v`.
pub open spec fn counts_as_hit(d: BlockData, v: Seq<u8>) -> bool {
    d.block.last_commit matches Some(c) && commit_has_validator(c, v)
}

/// Number of blocks in `w` that count as missed for `v`.
pub open spec fn missed_count(w: Seq<BlockData>, v: Seq<u8>) -> int
    decreases w.len(),
{
    if w.len() == 0 {
        0
    } else {
        missed_count(w.drop_last(), v) + if counts_as_miss(w.last(), v) {
            1int
        } else {
            0int
        }
    }
}

/// Number of blocks in `w` that count as a hit for `v`.
pub open spec fn recent_count(w: Seq<BlockData>, v: Seq<u8>) -> int
    decreases w.len(),
{
    if w.len() == 0 {
        0
    } else {
        recent_count(w.drop_last(), v) + if counts_as_hit(w.last(), v) {
            1int
        } else {
            0int
        }
    }
}

/// Whether the adjacent pair at position `i` (newest-first) has a positive
/// time delta.
pub open spec fn positive_delta(w: Seq<BlockData>, i: int) -> bool {
    w[i].block.time > w[i + 1].block.time
}

/// Sum of the positive time deltas among the first `n` adjacent pairs of `w`.
pub open spec fn delta_sum(w: Seq<BlockData>, n: int) -> int
    decreases n,
{
    if n <= 0 {
        0
    } else {
        delta_sum(w, n - 1) + if positive_delta(w, n - 1) {
            w[n - 1].block.time - w[n].block.time
        } else {
            0int
        }
    }
}

/// Number of positive time deltas among the first `n` adjacent pairs of `w`.
pub open spec fn delta_count(w: Seq<BlockData>, n: int) -> int
    decreases n,
{
    if n <= 0 {
        0
    } else {
        delta_count(w, n - 1) + if positive_delta(w, n - 1) {
            1int
        } else {
            0int
        }
    }
}

/// Number of adjacent pairs in a window of length `len`.
pub open spec fn pair_count(len: int) -> int {
    if len < 2 {
        0
    } else {
        len - 1
    }
}

/// The estimated consensus time of a window: the average of the positive time
/// deltas between adjacent blocks, or the one-second floor when fewer than two
/// blocks or no positive deltas exist.
pub open spec fn consensus_time_of(w: Seq<BlockData>) -> int {
    let pairs = pair_count(w.len() as int);
    if delta_count(w, pairs) == 0 {
        MIN_CONSENSUS_TIME as int
    } else {
        delta_sum(w, pairs) / delta_count(w, pairs)
    }
}

/// The estimated arrival time of the next block: the front block's asserted
/// time plus the consensus time, falling back to `now` when the window is
/// empty, and to the base time alone when the sum does not fit in 64 bits.
pub open spec fn next_block_time_of(w: Seq<BlockData>, now: int) -> int {
    let base = if w.len() == 0 {
        now
    } else {
        w[0].block.time as int
    };
    if base + consensus_time_of(w) <= u64::MAX {
        base + consensus_time_of(w)
    } else {
        base
    }
}

/// The adoption rule: an incoming block id is adopted exactly when it differs
/// from the id of the current front-of-window entry. Duplicate suppression is
/// by identity against the most recent entry only, never the full window: a
/// block seen two or more positions back is deliberately re-adopted as new,
/// since heights are expected to be strictly increasing in steady state.
pub open spec fn accepts(w: Seq<BlockData>, id: Seq<u8>) -> bool {
    w.len() == 0 || w[0].id@ != id
}

/// The window after importing `d` with capacity `cap`: unchanged when the
/// adoption rule rejects `d`, else `d` pushed to the front and the oldest
/// entries trimmed to keep at most `cap`.
pub open spec fn import_window(w: Seq<BlockData>, d: BlockData, cap: int) -> Seq<BlockData> {
    if accepts(w, d.id@) {
        let pushed = seq![d] + w;
        if pushed.len() <= cap {
            pushed
        } else {
            pushed.take(cap)
        }
    } else {
        w
    }
}

/// Chain state tracker: a bounded window of recently observed blocks for one
/// chain, newest-first.
pub struct ChainState {
    chain_id: ChainId,
    blocks: VecDeque<BlockData>,
    history_size: usize,
}

impl ChainState {
    /// The blocks of the window, newest-first.
    pub closed spec fn window(&self) -> Seq<BlockData> {
        self.blocks@
    }

    /// The window's capacity.
    pub closed spec fn capacity(&self) -> int {
        self.history_size as int
    }

    /// The identifier of the tracked chain.
    pub closed spec fn chain_id_view(&self) -> Seq<u8> {
        self.chain_id@
    }

    /// Well-formedness: the window never exceeds its capacity, and the
    /// capacity is at least one.
    pub closed spec fn wf(&self) -> bool {
        &&& self.blocks@.len() <= self.history_size
        &&& self.history_size >= 1
    }

    /// What well-formedness guarantees: the capacity is at least one and the
    /// window is within it.
    pub proof fn lemma_wf_implications(&self)
        requires
            self.wf(),
        ensures
            self.capacity() >= 1,
            self.window().len() <= self.capacity(),
    {
    }

    /// Create a new chain state with the default capacity.
    pub fn new(chain_id: ChainId) -> (s: Self)
        ensures
            s.wf(),
            s.chain_id_view() == chain_id@,
            s.window() == Seq::<BlockData>::empty(),
            s.capacity() == DEFAULT_HISTORY_SIZE as int,
    {
        ChainState { chain_id, blocks: VecDeque::new(), history_size: DEFAULT_HISTORY_SIZE }
    }

    /// Create a new chain state retaining at most `history_size` blocks.
    pub fn with_history_size(chain_id: ChainId, history_size: usize) -> (s: Self)
        requires
            history_size >= 1,
        ensures
            s.wf(),
            s.chain_id_view() == chain_id@,
            s.window() == Seq::<BlockData>::empty(),
            s.capacity() == history_size as int,
    {
        ChainState { chain_id, blocks: VecDeque::new(), history_size }
    }

    /// Get the chain ID.
    pub fn chain_id(&self) -> (id: &ChainId)
        ensures
            id@ == self.chain_id_view(),
    {
        &self.chain_id
    }

    /// Get the history size (the window's capacity).
    pub fn history_size(&self) -> (n: usize)
        ensures
            n as int == self.capacity(),
    {
        self.history_size
    }

    /// Clear the current chain state, discarding all known blocks.
    pub fn clear(&mut self)
        ensures
            old(self).wf() ==> final(self).wf(),
            final(self).chain_id_view() == old(self).chain_id_view(),
            final(self).capacity() == old(self).capacity(),
            final(self).window() == Seq::<BlockData>::empty(),
    {
        self.blocks.clear();
    }

    /// Import a block into the chain state, returning whether it was newly
    /// adopted. The incoming block is compared by id against the current
    /// front-of-window entry only; on adoption it is pushed to the front and
    /// the window is trimmed to capacity, evicting from the back.
    pub fn import_block(&mut self, id: BlockId, block: Block) -> (new_block: bool)
        requires
            old(self).wf(),
        ensures
            final(self).wf(),
            final(self).chain_id_view() == old(self).chain_id_view(),
            final(self).capacity() == old(self).capacity(),
            new_block == accepts(old(self).window(), id@),
            final(self).window() == import_window(
                old(self).window(),
                (BlockData { id, block }),
                old(self).capacity(),
            ),
            !new_block ==> *final(self) == *old(self),
    {
        let new_block = if self.blocks.len() == 0 {
            true
        } else {
            !bytes_equal(&self.blocks[0].id.bytes, &id.bytes)
        };

        if new_block {
            let data = BlockData { id, block };
            self.blocks.push_front(data);
            if self.blocks.len() > self.history_size {
                self.blocks.truncate(self.history_size);
                proof {
                    assert(self.blocks@ =~= import_window(
                        old(self).window(),
                        (BlockData { id, block }),
                        old(self).capacity(),
                    ));
                }
            }
        }

        new_block
    }

    /// Get the estimated consensus time (the average block production
    /// interval), in nanoseconds.
    pub fn consensus_time(&self) -> (t: u64)
        ensures
            t as int == consensus_time_of(self.window()),
    {
        let n = self.blocks.len();
        let mut sum: u128 = 0;
        let mut count: usize = 0;
        if n >= 2 {
            let mut i: usize = 0;
            while i < n - 1
                invariant
                    n == self.window().len(),
                    2 <= n,
                    i <= n - 1,
                    sum as int == delta_sum(self.window(), i as int),
                    count as int == delta_count(self.window(), i as int),
                    count <= i,
                    sum as int <= count * (u64::MAX as int),
                decreases n - 1 - i,
            {
                let a = self.blocks[i].block.time;
                let b = self.blocks[i + 1].block.time;
                if a > b {
                    sum = sum + ((a - b) as u128);
                    count = count + 1;
                }
                i += 1;
            }
        }
        if count == 0 {
            MIN_CONSENSUS_TIME
        } else {
            proof {
                lemma_div_is_ordered(
                    sum as int,
                    (count as int) * (u64::MAX as int),
                    count as int,
                );
                lemma_div_multiples_vanish(u64::MAX as int, count as int);
            }
            (sum / (count as u128)) as u64
        }
    }

    /// Get the estimated arrival time of the next block, in nanoseconds.
    /// `now` is the caller's current wall-clock reading, used only when no
    /// blocks are known yet.
    pub fn next_block_time(&self, now: u64) -> (t: u64)
        ensures
            t as int == next_block_time_of(self.window(), now as int),
    {
        let base = if self.blocks.len() == 0 {
            now
        } else {
            self.blocks[0].block.time
        };
        let ct = self.consensus_time();
        match base.checked_add(ct) {
            Some(t) => t,
            None => base,
        }
    }

    /// Count the windowed blocks whose commit data carries no signature
    /// attributed to `validator_address`. Blocks without commit data are not
    /// counted.
    pub fn missed_blocks(&self, validator_address: &ValidatorId) -> (count: usize)
        ensures
            count as int == missed_count(self.window(), validator_address@),
    {
        let n = self.blocks.len();
        let mut count: usize = 0;
        let mut i: usize = 0;
        while i < n
            invariant
                n == self.window().len(),
                i <= n,
                count as int == missed_count(self.window().take(i as int), validator_address@),
                count <= i,
            decreases n - i,
        {
            let mut is_miss = false;
            match &self.blocks[i].block.last_commit {
                Some(commit) => {
                    if !commit_contains(commit, validator_address) {
                        is_miss = true;
                    }
                },
                None => {},
            }
            if is_miss {
                count = count + 1;
            }
            proof {
                let w = self.window();
                assert(w.take(i as int + 1).drop_last() =~= w.take(i as int));
                assert(w.take(i as int + 1).last() == w[i as int]);
            }
            i += 1;
        }
        proof {
            assert(self.window().take(n as int) =~= self.window());
        }
        count
    }

    /// Count the windowed blocks whose commit data carries a signature
    /// attributed to `validator_address` — the recovery signal.
    pub fn recent_blocks(&self, validator_address: &ValidatorId) -> (count: usize)
        ensures
            count as int == recent_count(self.window(), validator_address@),
    {
        let n = self.blocks.len();
        let mut count: usize = 0;
        let mut i: usize = 0;
        while i < n
            invariant
                n == self.window().len(),
                i <= n,
                count as int == recent_count(self.window().take(i as int), validator_address@),
                count <= i,
            decreases n - i,
        {
            let mut is_hit = false;
            match &self.blocks[i].block.last_commit {
                Some(commit) => {
                    if commit_contains(commit, validator_address) {
                        is_hit = true;
                    }
                },
                None => {},
            }
            if is_hit {
                count = count + 1;
            }
            proof {
                let w = self.window();
                assert(w.take(i as int + 1).drop_last() =~= w.take(i as int));
                assert(w.take(i as int + 1).last() == w[i as int]);
            }
            i += 1;
        }
        proof {
            assert(self.window().take(n as int) =~= self.window());
        }
        count
    }

    /// Number of blocks currently windowed.
    pub fn window_len(&self) -> (n: usize)
        ensures
            n as int == self.window().len(),
    {
        self.blocks.len()
    }

    /// Get the latest (front-of-window) block, if available.
    pub fn latest_block(&self) -> (r: Option<&BlockData>)
        ensures
            match r {
                Some(d) => self.window().len() > 0 && *d == self.window()[0],
                None => self.window().len() == 0,
            },
    {
        if self.blocks.len() == 0 {
            None
        } else {
            Some(&self.blocks[0])
        }
    }
}

/// Whether `commit` carries a signature attributed to `validator_address`.
pub fn commit_contains(commit: &Commit, validator_address: &ValidatorId) -> (r: bool)
    ensures
        r == commit_has_validator(*commit, validator_address@),
{
    let n = commit.signatures.len();
    let mut i: usize = 0;
    while i < n
        invariant
            n == commit.signatures@.len(),
            i <= n,
            forall|j: int|
                0 <= j < i ==> !sig_attributed_to(
                    commit.signatures@[j],
                    validator_address@,
                ),
        decreases n - i,
    {
        match &commit.signatures[i].validator_address {
            Some(addr) => {
                if bytes_equal(&addr.bytes, &validator_address.bytes) {
                    proof {
                        assert(sig_attributed_to(
                            commit.signatures@[i as int],
                            validator_address@,
                        ));
                    }
                    return true;
                }
            },
            None => {},
        }
        i += 1;
    }
    false
}

/// Law of idempotent adoption: once a block is imported, importing a block
/// with the same id again is rejected and leaves the window unchanged, so the
/// repeated import never increases the window size.
pub proof fn lemma_idempotent_adoption(w: Seq<BlockData>, d1: BlockData, d2: BlockData, cap: int)
    requires
        d1.id@ == d2.id@,
        cap >= 1,
    ensures
        !accepts(import_window(w, d1, cap), d2.id@),
        import_window(import_window(w, d1, cap), d2, cap) == import_window(w, d1, cap),
{
    let w1 = import_window(w, d1, cap);
    if accepts(w, d1.id@) {
        let pushed = seq![d1] + w;
        assert(pushed[0] == d1);
        if pushed.len() > cap {
            assert(w1 == pushed.take(cap));
        }
        assert(w1[0] == d1);
        assert(w1.len() >= 1);
    }
    assert(!accepts(w1, d2.id@));
}

/// Law of bounded capacity: importing into a window that is within capacity
/// keeps it within capacity, and when a full window adopts a block, exactly
/// the last entry — the oldest by insertion order — is evicted.
pub proof fn lemma_capacity_invariant(w: Seq<BlockData>, d: BlockData, cap: int)
    requires
        w.len() <= cap,
        cap >= 1,
    ensures
        import_window(w, d, cap).len() <= cap,
        accepts(w, d.id@) && w.len() == cap ==> import_window(w, d, cap) == (seq![d]
            + w).drop_last(),
{
    if accepts(w, d.id@) {
        let pushed = seq![d] + w;
        if pushed.len() > cap {
            assert(pushed.take(cap) =~= pushed.drop_last());
        }
    }
}

/// The window after importing, in order, every block of `ds`.
pub open spec fn import_all(w: Seq<BlockData>, ds: Seq<BlockData>, cap: int) -> Seq<BlockData>
    decreases ds.len(),
{
    if ds.len() == 0 {
        w
    } else {
        import_window(import_all(w, ds.drop_last(), cap), ds.last(), cap)
    }
}

/// Law of bounded capacity over whole import sequences: starting from a
/// window within capacity, no sequence of imports ever pushes the window
/// past it.
pub proof fn lemma_capacity_all_imports(w: Seq<BlockData>, ds: Seq<BlockData>, cap: int)
    requires
        w.len() <= cap,
        cap >= 1,
    ensures
        import_all(w, ds, cap).len() <= cap,
    decreases ds.len(),
{
    if ds.len() > 0 {
        lemma_capacity_all_imports(w, ds.drop_last(), cap);
        lemma_capacity_invariant(import_all(w, ds.drop_last(), cap), ds.last(), cap);
    }
}

/// Law of the miss/hit complement: over a window whose blocks all present
/// commit data, the missed and hit counts for any validator identifier
/// partition the window.
pub proof fn lemma_miss_hit_complement(w: Seq<BlockData>, v: Seq<u8>)
    requires
        forall|i: int| 0 <= i < w.len() ==> w[i].block.last_commit is Some,
    ensures
        missed_count(w, v) + recent_count(w, v) == w.len(),
    decreases w.len(),
{
    if w.len() > 0 {
        assert(forall|i: int|
            0 <= i < w.drop_last().len() ==> w.drop_last()[i] == w[i]);
        lemma_miss_hit_complement(w.drop_last(), v);
        assert(w.last().block.last_commit is Some);
    }
}

/// Law of bounded counts: each block counts as a miss, as a hit, or — when
/// it presents no commit data — as neither, so the missed and hit counts for
/// any validator identifier never together exceed the window size.
pub proof fn lemma_miss_hit_bounded(w: Seq<BlockData>, v: Seq<u8>)
    ensures
        0 <= missed_count(w, v),
        0 <= recent_count(w, v),
        missed_count(w, v) + recent_count(w, v) <= w.len(),
    decreases w.len(),
{
    if w.len() > 0 {
        lemma_miss_hit_bounded(w.drop_last(), v);
    }
}

/// Law of the consensus time floor: with fewer than two blocks, or with no
/// positive time delta between any adjacent pair (for example, all
/// timestamps equal), the estimated consensus time is exactly the one-second
/// floor.
pub proof fn lemma_consensus_time_floor(w: Seq<BlockData>)
    ensures
        w.len() < 2 ==> consensus_time_of(w) == MIN_CONSENSUS_TIME as int,
        (forall|i: int| 0 <= i < w.len() - 1 ==> !positive_delta(w, i))
            ==> consensus_time_of(w) == MIN_CONSENSUS_TIME as int,
{
    if forall|i: int| 0 <= i < w.len() - 1 ==> !positive_delta(w, i) {
        lemma_delta_count_zero(w, pair_count(w.len() as int));
    }
}

proof fn lemma_delta_count_zero(w: Seq<BlockData>, n: int)
    requires
        n <= pair_count(w.len() as int),
        forall|i: int| 0 <= i < n ==> !positive_delta(w, i),
    ensures
        delta_count(w, n) == 0,
    decreases n,
{
    if n > 0 {
        lemma_delta_count_zero(w, n - 1);
    }
}

} // verus!
