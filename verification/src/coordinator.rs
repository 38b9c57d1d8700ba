//! The work coordinator: at most one filter-and-push pass per confirmed
//! height.
//!
//! The expensive pass over a confirmed block is guarded twice. A named,
//! node-local advisory lock keeps two concurrently scheduled workers from
//! doing the work at once: it is only ever try-acquired, and a worker that
//! finds it taken skips its round rather than wait. A persisted checkpoint,
//! the last confirmed height fully processed, makes the pass idempotent: when
//! it already equals the ledger's confirmed height there is nothing to do and
//! the pass succeeds without a single network call.

use vstd::prelude::*;

use crate::errors::RelayError;

verus! {

/// How many failed rounds the confirmed-block pass tolerates.
pub const MAX_PASS_ATTEMPTS: u8 = 5;

/// The node-local offchain storage the coordinator works on: the advisory
/// lock and the persisted checkpoint. Both outlive one invocation; nothing
/// else does.
pub struct NodeLocalState {
    /// Whether the advisory lock is currently held by some worker.
    pub lock_held: bool,
    /// The last confirmed height a pass fully processed, if any.
    pub checkpoint: Option<u32>,
}

/// What the coordinator decides before any network work.
#[derive(Clone, Copy, Debug, PartialEq, Eq, Structural)]
pub enum PassDecision {
    /// The ledger names no confirmed block; there is nothing to process.
    NoConfirmedBlock,
    /// Another worker holds the lock; do nothing this round.
    AnotherWorker,
    /// The checkpoint already equals the confirmed height; the pass is done.
    AlreadyDone,
    /// The pass is to fetch and process the confirmed block.
    Proceed,
}

/// The decision [`begin_pass`] takes on a given storage state.
pub open spec fn spec_begin_decision(n: NodeLocalState, confirmed: Option<u32>) -> PassDecision {
    match confirmed {
        None => PassDecision::NoConfirmedBlock,
        Some(h) => {
            if n.lock_held {
                PassDecision::AnotherWorker
            } else if n.checkpoint == Some(h) {
                PassDecision::AlreadyDone
            } else {
                PassDecision::Proceed
            }
        },
    }
}

impl NodeLocalState {
    /// Fresh node-local storage: lock free, no checkpoint yet.
    pub fn new() -> (n: NodeLocalState)
        ensures
            !n.lock_held,
            n.checkpoint is None,
    {
        NodeLocalState { lock_held: false, checkpoint: None }
    }

    /// Try to take the advisory lock without blocking.
    pub fn try_acquire(&mut self) -> (r: bool)
        ensures
            r == !old(self).lock_held,
            final(self).lock_held,
            final(self).checkpoint == old(self).checkpoint,
    {
        if self.lock_held {
            false
        } else {
            self.lock_held = true;
            true
        }
    }

    /// Let the advisory lock go.
    pub fn release(&mut self)
        ensures
            !final(self).lock_held,
            final(self).checkpoint == old(self).checkpoint,
    {
        self.lock_held = false;
    }
}

/// Decide, before any network work, what this round's filter-and-push pass is
/// to do. The lock is taken only around the checkpoint read and released
/// again, so the storage comes out as it went in; a worker that cannot take
/// the lock reports another worker and touches nothing.
pub fn begin_pass(node: &mut NodeLocalState, confirmed: Option<u32>) -> (d: PassDecision)
    ensures
        d == spec_begin_decision(*old(node), confirmed),
        *final(node) == *old(node),
{
    let confirmed_height = match confirmed {
        None => {
            return PassDecision::NoConfirmedBlock;
        },
        Some(h) => h,
    };
    if !node.try_acquire() {
        return PassDecision::AnotherWorker;
    }
    let done = match node.checkpoint {
        Some(c) => c == confirmed_height,
        None => false,
    };
    node.release();
    if done {
        PassDecision::AlreadyDone
    } else {
        PassDecision::Proceed
    }
}

/// Take the lock around the filter work itself. Returns whether it was free;
/// a `false` means another worker is active and nothing changed.
pub fn start_filter(node: &mut NodeLocalState) -> (r: bool)
    ensures
        r == !old(node).lock_held,
        final(node).checkpoint == old(node).checkpoint,
        r ==> final(node).lock_held,
        !r ==> *final(node) == *old(node),
{
    node.try_acquire()
}

/// End the filter work and let the lock go. Only a pass that pushed its
/// transactions advances the checkpoint, and the checkpoint never moves
/// backwards: the ledger's confirmed height is non-decreasing, so a pass is
/// only ever finished at or above the recorded checkpoint.
pub fn finish_filter(node: &mut NodeLocalState, confirmed: u32, pushed: bool)
    requires
        old(node).lock_held,
        old(node).checkpoint matches Some(c) ==> confirmed >= c,
    ensures
        !final(node).lock_held,
        final(node).checkpoint == if pushed {
            Some(confirmed)
        } else {
            old(node).checkpoint
        },
{
    if pushed {
        node.checkpoint = Some(confirmed);
    }
    node.release();
}

/// Law: re-invoking the pass when the checkpoint already equals the confirmed
/// height performs no work and changes nothing — [`begin_pass`] reports the
/// pass as already done and leaves the storage as it found it, and the driver
/// then makes no network call.
pub proof fn lemma_idempotent_short_circuit(n: NodeLocalState, h: u32)
    requires
        !n.lock_held,
        n.checkpoint == Some(h),
    ensures
        spec_begin_decision(n, Some(h)) == PassDecision::AlreadyDone,
{
}

/// Law: of two workers racing for the same confirmed height, exactly one
/// works. Once one worker has taken the lock for its filter work (as
/// [`start_filter`] ensures), any other worker's [`begin_pass`] on the shared
/// storage reports another worker — and by its contract leaves the storage
/// untouched and triggers no fetch, classify, push or checkpoint write.
pub proof fn lemma_one_worker_per_height(before: NodeLocalState, during: NodeLocalState, h: u32)
    requires
        !before.lock_held,
        before.checkpoint != Some(h),
        during.lock_held,
    ensures
        spec_begin_decision(before, Some(h)) == PassDecision::Proceed,
        spec_begin_decision(during, Some(h)) == PassDecision::AnotherWorker,
{
}

/// Where the confirmed-block pass stands within one invocation.
pub enum PassPhase {
    /// The confirmed block's hash is wanted next.
    NeedBlockHash,
    /// The confirmed block under this hash is wanted next.
    NeedBlock {
        /// The block hash the network reported.
        hash: String,
    },
    /// The block is fetched; the filter work may start under the lock.
    ReadyToFilter,
    /// The pass is over.
    Done {
        /// Whether the pass succeeded (transactions pushed, or nothing to
        /// do); a failed pass leaves the checkpoint as it was.
        success: bool,
    },
}

/// The retry state of one confirmed-block pass.
pub struct FilterPushPass {
    /// The ledger's confirmed height this pass is for.
    pub confirmed_height: u32,
    /// How many failed rounds the pass has used up.
    pub attempts: u8,
    /// Where the pass stands.
    pub phase: PassPhase,
}

impl FilterPushPass {
    /// The pass's invariant: the attempt budget is never overspent.
    pub open spec fn wf(&self) -> bool {
        &&& self.attempts <= MAX_PASS_ATTEMPTS
        &&& (self.phase matches PassPhase::NeedBlockHash ==> self.attempts < MAX_PASS_ATTEMPTS)
        &&& (self.phase matches PassPhase::NeedBlock { .. } ==> self.attempts
            < MAX_PASS_ATTEMPTS)
        &&& (self.phase matches PassPhase::ReadyToFilter ==> self.attempts < MAX_PASS_ATTEMPTS)
    }

    /// Start the pass for a confirmed height the checkpoint has not reached.
    pub fn new(confirmed_height: u32) -> (p: FilterPushPass)
        ensures
            p.wf(),
            p.confirmed_height == confirmed_height,
            p.attempts == 0,
            p.phase is NeedBlockHash,
    {
        FilterPushPass { confirmed_height, attempts: 0, phase: PassPhase::NeedBlockHash }
    }

    /// Spend one attempt after a failed round; the budget's end fails the
    /// whole pass.
    fn spend_attempt(&mut self)
        requires
            old(self).wf(),
            old(self).attempts < MAX_PASS_ATTEMPTS,
        ensures
            final(self).wf(),
            final(self).confirmed_height == old(self).confirmed_height,
            final(self).attempts == old(self).attempts + 1,
            if old(self).attempts + 1 == MAX_PASS_ATTEMPTS {
                final(self).phase matches PassPhase::Done { success } && success == false
            } else {
                final(self).phase is NeedBlockHash
            },
    {
        self.attempts = self.attempts + 1;
        if self.attempts == MAX_PASS_ATTEMPTS {
            self.phase = PassPhase::Done { success: false };
        } else {
            self.phase = PassPhase::NeedBlockHash;
        }
    }

    /// Take in the answer to the confirmed-block-hash fetch. Unlike the
    /// chain-tip tracker, a confirmed height the network does not know yet is
    /// retried like a transport failure.
    pub fn on_block_hash(&mut self, r: Result<Option<String>, RelayError>)
        requires
            old(self).wf(),
            old(self).phase is NeedBlockHash,
        ensures
            final(self).wf(),
            final(self).confirmed_height == old(self).confirmed_height,
            match r {
                Ok(Some(h)) => {
                    &&& (final(self).phase matches PassPhase::NeedBlock { hash } && hash@ == h@)
                    &&& final(self).attempts == old(self).attempts
                },
                _ => {
                    &&& final(self).attempts == old(self).attempts + 1
                    &&& (if old(self).attempts + 1 == MAX_PASS_ATTEMPTS {
                        (final(self).phase matches PassPhase::Done { success } && success
                            == false)
                    } else {
                        final(self).phase is NeedBlockHash
                    })
                },
            },
    {
        match r {
            Ok(Some(hash)) => {
                self.phase = PassPhase::NeedBlock { hash };
            },
            _ => {
                self.spend_attempt();
            },
        }
    }

    /// Take in the outcome of the confirmed-block fetch: with the block in
    /// hand the filter work may start; a failure costs one attempt.
    pub fn on_block(&mut self, fetched: Result<(), RelayError>)
        requires
            old(self).wf(),
            old(self).phase matches PassPhase::NeedBlock { .. },
        ensures
            final(self).wf(),
            final(self).confirmed_height == old(self).confirmed_height,
            match fetched {
                Ok(_) => final(self).phase is ReadyToFilter && final(self).attempts == old(
                    self,
                ).attempts,
                Err(_) => {
                    &&& final(self).attempts == old(self).attempts + 1
                    &&& (if old(self).attempts + 1 == MAX_PASS_ATTEMPTS {
                        (final(self).phase matches PassPhase::Done { success } && success
                            == false)
                    } else {
                        final(self).phase is NeedBlockHash
                    })
                },
            },
    {
        match fetched {
            Ok(_) => {
                self.phase = PassPhase::ReadyToFilter;
            },
            Err(_) => {
                self.spend_attempt();
            },
        }
    }

    /// Take in that the lock was unavailable when the filter work was to
    /// start: another worker is active and this pass ends without success.
    pub fn on_lock_unavailable(&mut self)
        requires
            old(self).wf(),
            old(self).phase is ReadyToFilter,
        ensures
            final(self).wf(),
            final(self).confirmed_height == old(self).confirmed_height,
            final(self).attempts == old(self).attempts,
            final(self).phase matches PassPhase::Done { success } && success == false,
    {
        self.phase = PassPhase::Done { success: false };
    }

    /// Take in the filter work's outcome: success ends the pass (the caller
    /// persists the checkpoint under the lock); a failed filter costs one
    /// attempt and the whole round is retried.
    pub fn on_filter_result(&mut self, pushed: bool)
        requires
            old(self).wf(),
            old(self).phase is ReadyToFilter,
        ensures
            final(self).wf(),
            final(self).confirmed_height == old(self).confirmed_height,
            if pushed {
                final(self).phase matches PassPhase::Done { success } && success == true
                    && final(self).attempts == old(self).attempts
            } else {
                final(self).attempts == old(self).attempts + 1 && (if old(self).attempts + 1
                    == MAX_PASS_ATTEMPTS {
                    (final(self).phase matches PassPhase::Done { success } && success == false)
                } else {
                    final(self).phase is NeedBlockHash
                })
            },
    {
        if pushed {
            self.phase = PassPhase::Done { success: true };
        } else {
            self.spend_attempt();
        }
    }
}

} // verus!
