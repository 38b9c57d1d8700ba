//! One worker invocation: which stage runs when, and which submissions are
//! valid.
//!
//! The worker is invoked once per eligible host block — every second one —
//! and runs its stages in a fixed order: broadcast any finished withdrawal
//! proposal, then filter and push the confirmed block's transactions, then,
//! only if that pass succeeded, fetch and push the next header. No stage may
//! abort the host's block production; a failed stage degrades to "try again
//! next slot".

use vstd::prelude::*;

verus! {

/// The stages of one worker invocation, in order.
#[derive(Clone, Copy, Debug, PartialEq, Eq, Structural)]
pub enum WorkerStage {
    /// Broadcast the finished withdrawal proposal, if any.
    Broadcast,
    /// Filter the confirmed block and push its relevant transactions.
    FilterPush,
    /// Fetch the next header and push it.
    HeaderRelay,
    /// The invocation is over.
    Finished,
}

/// Whether the worker runs at this host block: every second one.
pub fn worker_due(block_number: u64) -> (r: bool)
    ensures
        r == (block_number % 2 == 0),
{
    block_number % 2 == 0
}

/// The stage that follows a finished one. The broadcast outcome never stops
/// the invocation; the header relay runs only after a successful
/// filter-and-push stage; the header relay is the last stage.
pub fn next_stage(stage: WorkerStage, succeeded: bool) -> (r: WorkerStage)
    ensures
        r == spec_next_stage(stage, succeeded),
{
    match stage {
        WorkerStage::Broadcast => WorkerStage::FilterPush,
        WorkerStage::FilterPush => {
            if succeeded {
                WorkerStage::HeaderRelay
            } else {
                WorkerStage::Finished
            }
        },
        WorkerStage::HeaderRelay => WorkerStage::Finished,
        WorkerStage::Finished => WorkerStage::Finished,
    }
}

/// The stage order [`next_stage`] follows.
pub open spec fn spec_next_stage(stage: WorkerStage, succeeded: bool) -> WorkerStage {
    match stage {
        WorkerStage::Broadcast => WorkerStage::FilterPush,
        WorkerStage::FilterPush => {
            if succeeded {
                WorkerStage::HeaderRelay
            } else {
                WorkerStage::Finished
            }
        },
        WorkerStage::HeaderRelay => WorkerStage::Finished,
        WorkerStage::Finished => WorkerStage::Finished,
    }
}

/// Law: the header relay runs only on the heels of a successful
/// filter-and-push stage — no other stage and no failure leads into it.
pub proof fn lemma_header_relay_needs_filter_success(stage: WorkerStage, succeeded: bool)
    ensures
        spec_next_stage(stage, succeeded) == WorkerStage::HeaderRelay ==> (stage
            == WorkerStage::FilterPush && succeeded),
{
}

/// The calls a relay worker submits.
#[derive(Clone, Copy, Debug, PartialEq, Eq, Structural)]
pub enum CallKind {
    /// Push a fetched header to the ledger.
    PushHeader,
    /// Push a relevant transaction with its inclusion proof to the ledger.
    PushTransaction,
    /// Anything else.
    Other,
}

/// How an unsigned relay submission is valid: its priority, the tag it
/// provides, how long it lives, and that it propagates.
pub struct UnsignedValidity {
    /// The configured base priority of unsigned relay submissions.
    pub priority: u64,
    /// The tag the submission provides, so duplicates are pruned.
    pub provides: String,
    /// How many blocks the submission stays valid.
    pub longevity: u64,
    /// Whether the submission propagates to peers.
    pub propagate: bool,
}

/// Validate an unsigned submission: only the two relay calls are valid, each
/// under its own tag, with the configured priority, a one-block longevity,
/// and propagation on; everything else is an invalid call.
pub fn validate_unsigned(call: CallKind, base_priority: u64) -> (r: Result<UnsignedValidity, ()>)
    ensures
        match call {
            CallKind::PushHeader => (r matches Ok(v) && v.priority == base_priority && v.provides@
                == "push_header"@ && v.longevity == 1 && v.propagate),
            CallKind::PushTransaction => (r matches Ok(v) && v.priority == base_priority
                && v.provides@ == "push_transaction"@ && v.longevity == 1 && v.propagate),
            CallKind::Other => r is Err,
        },
{
    match call {
        CallKind::PushHeader => Ok(
            UnsignedValidity {
                priority: base_priority,
                provides: "push_header".to_owned(),
                longevity: 1,
                propagate: true,
            },
        ),
        CallKind::PushTransaction => Ok(
            UnsignedValidity {
                priority: base_priority,
                provides: "push_transaction".to_owned(),
                longevity: 1,
                propagate: true,
            },
        ),
        CallKind::Other => Err(()),
    }
}

} // verus!
