//! The chain-tip tracker: which Bitcoin header to relay next.
//!
//! One worker invocation starts at the ledger's best height plus one, and
//! within a fixed attempt budget fetches the block hash at that height, then
//! the block itself, and submits its header only when it chains onto a hash
//! the ledger has recorded at its best height. A header that does not chain
//! is answered with a single-height rewind; fetch failures retry the same
//! height; a height the network has not produced yet ends the invocation.
//! The tracker holds the decisions; fetching and submitting are the caller's.

use vstd::prelude::*;

use crate::errors::RelayError;
use crate::types::BtcHash;
use crate::types::BtcHeaderInfo;
use crate::types::contains_hash;
use crate::types::find_hash;

verus! {

/// How many fetch failures or rewinds one invocation tolerates.
pub const MAX_HEADER_ATTEMPTS: u8 = 6;

/// Where the tracker stands within one invocation.
pub enum TrackerPhase {
    /// The block hash at the candidate height is wanted next.
    NeedBlockHash,
    /// The block under this hash is wanted next.
    NeedBlock {
        /// The block hash the network reported, as it came (a hex string).
        hash: String,
    },
    /// A chaining header was found; it is to be signed and submitted.
    Submitted {
        /// The header to submit.
        header: BtcHeaderInfo,
    },
    /// This invocation takes no further header action.
    Stopped,
}

/// What the tracker asks its driver to do next.
pub enum TrackerAction {
    /// Fetch the block hash at this height.
    FetchBlockHash {
        /// The candidate height.
        height: u32,
    },
    /// Fetch the block under this hash.
    FetchBlock {
        /// The block hash, as the network reported it.
        hash: String,
    },
    /// Sign and submit this header for this height.
    SubmitHeader {
        /// The candidate height the header was fetched for.
        height: u32,
        /// The fetched header.
        header: BtcHeaderInfo,
    },
    /// Nothing; the invocation is over.
    Idle,
}

/// The per-invocation state of the header relay.
pub struct HeaderTracker {
    /// The ledger's best Bitcoin height when the invocation started.
    pub best_height: u32,
    /// The block hashes the ledger has recorded at `best_height`.
    pub recorded: Vec<BtcHash>,
    /// The height whose block is being considered.
    pub height: u32,
    /// How many attempts this invocation has used up.
    pub attempts: u8,
    /// Where the tracker stands.
    pub phase: TrackerPhase,
}

impl HeaderTracker {
    /// The tracker's invariant. Above all: a header reaches the `Submitted`
    /// phase only if its previous-header hash is one the ledger recorded at
    /// the best height, so no disconnected header is ever submitted.
    pub open spec fn wf(&self) -> bool {
        &&& self.attempts <= MAX_HEADER_ATTEMPTS
        &&& self.height <= self.best_height + 1
        &&& (self.phase matches TrackerPhase::NeedBlockHash ==> self.attempts
            < MAX_HEADER_ATTEMPTS)
        &&& (self.phase matches TrackerPhase::NeedBlock { .. } ==> self.attempts
            < MAX_HEADER_ATTEMPTS)
        &&& (self.phase matches TrackerPhase::Submitted { header } ==> contains_hash(
            self.recorded@,
            header.previous_header_hash@,
        ))
    }

    /// Start one invocation from the ledger's best height and its recorded
    /// hashes there.
    pub fn new(best_height: u32, recorded: Vec<BtcHash>) -> (t: HeaderTracker)
        requires
            best_height < u32::MAX,
        ensures
            t.wf(),
            t.best_height == best_height,
            t.recorded@ == recorded@,
            t.height == best_height + 1,
            t.attempts == 0,
            t.phase is NeedBlockHash,
    {
        HeaderTracker {
            best_height,
            recorded,
            height: best_height + 1,
            attempts: 0,
            phase: TrackerPhase::NeedBlockHash,
        }
    }

    /// What the driver is to do next for this state.
    pub fn next_action(&self) -> (a: TrackerAction)
        ensures
            match self.phase {
                TrackerPhase::NeedBlockHash => a == (TrackerAction::FetchBlockHash {
                    height: self.height,
                }),
                TrackerPhase::NeedBlock { hash } => (a matches TrackerAction::FetchBlock {
                    hash: h,
                } && h@ == hash@),
                TrackerPhase::Submitted { header } => (a matches TrackerAction::SubmitHeader {
                    height,
                    header: hd,
                } && height == self.height && hd.hash@ == header.hash@
                    && hd.previous_header_hash@ == header.previous_header_hash@),
                TrackerPhase::Stopped => a is Idle,
            },
    {
        match &self.phase {
            TrackerPhase::NeedBlockHash => TrackerAction::FetchBlockHash { height: self.height },
            TrackerPhase::NeedBlock { hash } => TrackerAction::FetchBlock { hash: hash.clone() },
            TrackerPhase::Submitted { header } => TrackerAction::SubmitHeader {
                height: self.height,
                header: header.clone(),
            },
            TrackerPhase::Stopped => TrackerAction::Idle,
        }
    }

    /// Take in the network's answer to the block-hash fetch: a hash moves on
    /// to fetching the block; "not yet produced" stops the invocation with no
    /// header action; a transport failure consumes one attempt and retries
    /// the same height until the budget is spent.
    pub fn on_block_hash(&mut self, r: Result<Option<String>, RelayError>)
        requires
            old(self).wf(),
            old(self).phase is NeedBlockHash,
        ensures
            final(self).wf(),
            final(self).best_height == old(self).best_height,
            final(self).recorded@ == old(self).recorded@,
            final(self).height == old(self).height,
            match r {
                Ok(Some(h)) => {
                    &&& (final(self).phase matches TrackerPhase::NeedBlock { hash } && hash@
                        == h@)
                    &&& final(self).attempts == old(self).attempts
                },
                Ok(None) => final(self).phase is Stopped && final(self).attempts == old(
                    self,
                ).attempts,
                Err(_) => {
                    &&& final(self).attempts == old(self).attempts + 1
                    &&& (if old(self).attempts + 1 == MAX_HEADER_ATTEMPTS {
                        final(self).phase is Stopped
                    } else {
                        final(self).phase is NeedBlockHash
                    })
                },
            },
    {
        match r {
            Ok(Some(hash)) => {
                self.phase = TrackerPhase::NeedBlock { hash };
            },
            Ok(None) => {
                self.phase = TrackerPhase::Stopped;
            },
            Err(_) => {
                self.attempts = self.attempts + 1;
                if self.attempts == MAX_HEADER_ATTEMPTS {
                    self.phase = TrackerPhase::Stopped;
                } else {
                    self.phase = TrackerPhase::NeedBlockHash;
                }
            },
        }
    }

    /// Take in the network's answer to the block fetch. A header that chains
    /// onto a recorded hash is moved to `Submitted`; one that does not is a
    /// fork signal, so the candidate height steps back by one (never below
    /// zero) and one attempt is consumed; a failure consumes one attempt and
    /// retries the same height.
    pub fn on_block(&mut self, r: Result<BtcHeaderInfo, RelayError>)
        requires
            old(self).wf(),
            old(self).phase matches TrackerPhase::NeedBlock { .. },
        ensures
            final(self).wf(),
            final(self).best_height == old(self).best_height,
            final(self).recorded@ == old(self).recorded@,
            match r {
                Ok(header) => {
                    if contains_hash(old(self).recorded@, header.previous_header_hash@) {
                        &&& (final(self).phase matches TrackerPhase::Submitted { header: hd }
                            && hd.hash@ == header.hash@ && hd.previous_header_hash@
                            == header.previous_header_hash@)
                        &&& final(self).height == old(self).height
                        &&& final(self).attempts == old(self).attempts
                    } else {
                        &&& final(self).attempts == old(self).attempts + 1
                        &&& (if old(self).attempts + 1 == MAX_HEADER_ATTEMPTS || old(
                            self,
                        ).height == 0 {
                            final(self).phase is Stopped
                        } else {
                            final(self).phase is NeedBlockHash && final(self).height == old(
                                self,
                            ).height - 1
                        })
                    }
                },
                Err(_) => {
                    &&& final(self).height == old(self).height
                    &&& final(self).attempts == old(self).attempts + 1
                    &&& (if old(self).attempts + 1 == MAX_HEADER_ATTEMPTS {
                        final(self).phase is Stopped
                    } else {
                        final(self).phase is NeedBlockHash
                    })
                },
            },
    {
        match r {
            Ok(header) => {
                if find_hash(&self.recorded, &header.previous_header_hash) {
                    self.phase = TrackerPhase::Submitted { header };
                } else {
                    self.attempts = self.attempts + 1;
                    if self.attempts == MAX_HEADER_ATTEMPTS || self.height == 0 {
                        self.phase = TrackerPhase::Stopped;
                    } else {
                        self.height = self.height - 1;
                        self.phase = TrackerPhase::NeedBlockHash;
                    }
                }
            },
            Err(_) => {
                self.attempts = self.attempts + 1;
                if self.attempts == MAX_HEADER_ATTEMPTS {
                    self.phase = TrackerPhase::Stopped;
                } else {
                    self.phase = TrackerPhase::NeedBlockHash;
                }
            },
        }
    }
}

/// Law: a well-formed tracker never stands behind a disconnected submission.
/// Whatever events led to the `Submitted` phase, the submitted header's
/// previous-header hash is one the ledger recorded at its best height.
pub proof fn lemma_no_disconnected_submission(t: HeaderTracker)
    requires
        t.wf(),
    ensures
        t.phase matches TrackerPhase::Submitted { header } ==> contains_hash(
            t.recorded@,
            header.previous_header_hash@,
        ),
{
}

} // verus!
