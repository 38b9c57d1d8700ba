//! Broadcasting the ledger's finished withdrawal proposal to the Bitcoin
//! network.
//!
//! The relay reads the current withdrawal proposal fresh each cycle and acts
//! only when its signature collection is finished: the proposal's serialized
//! transaction is hex-encoded and posted once, with no retry this invocation.
//! The response is judged by its shape — a 64-digit hex string is the
//! accepted transaction's id; the documented rejection payload carries a code
//! and a message; anything else is an unknown failure. A failed broadcast
//! leaves the proposal as it was, to be re-read and retried next cycle.

use vstd::prelude::*;

use crate::errors::RelayError;
use crate::hexutil::hex_of;
use crate::hexutil::is_txid_like;
use crate::hexutil::spec_is_txid;
use crate::hexutil::to_hex;
use crate::rpc_error::SendRawTxError;
use crate::rpc_error::has_rejection_prefix;
use crate::rpc_error::parse_send_raw_tx_error;
use crate::rpc_error::spec_has_rejection_prefix;
use crate::rpc_error::spec_parse_rpc_error;

verus! {

/// Where the signature collection of a withdrawal proposal stands.
#[derive(Clone, Copy, Debug, PartialEq, Eq, Structural)]
pub enum VoteResult {
    /// Signatures are still being collected; the proposal must not go out.
    Unfinish,
    /// The proposal carries every needed signature and may be broadcast.
    Finish,
}

/// The ledger's current withdrawal proposal, as the relay reads it.
pub struct WithdrawalProposal {
    /// Where its signature collection stands.
    pub sig_state: VoteResult,
    /// The proposed transaction, already serialized to wire bytes.
    pub tx_bytes: Vec<u8>,
}

/// What a broadcast response body means.
pub enum BroadcastOutcome {
    /// The network accepted the transaction and answered with its id.
    Accepted {
        /// The transaction id, as the network printed it.
        txid: String,
    },
    /// The network rejected the transaction with the documented payload.
    Rejected {
        /// The parsed rejection.
        err: SendRawTxError,
    },
    /// The response had no known shape.
    Unknown,
}

/// The request body a withdrawal proposal earns this cycle: the hex encoding
/// of its transaction if and only if its signature collection is finished.
pub fn broadcast_request(proposal: &Option<WithdrawalProposal>) -> (r: Option<String>)
    ensures
        match proposal {
            Some(p) => {
                if p.sig_state == VoteResult::Finish {
                    r matches Some(body) && body@ == hex_of(p.tx_bytes@)
                } else {
                    r is None
                }
            },
            None => r is None,
        },
{
    match proposal {
        Some(p) => {
            if p.sig_state == VoteResult::Finish {
                Some(to_hex(&p.tx_bytes))
            } else {
                None
            }
        },
        None => None,
    }
}

/// Judge a broadcast response body by its shape: exactly the 64-digit hex
/// strings are acceptances; of the rest, exactly the bodies that carry the
/// documented rejection prefix and parse as its payload are rejections;
/// everything else is unknown.
pub fn classify_broadcast_response(body: &str) -> (r: BroadcastOutcome)
    ensures
        if spec_is_txid(body@) {
            r matches BroadcastOutcome::Accepted { txid } && txid@ == body@
        } else if spec_has_rejection_prefix(body@) {
            match spec_parse_rpc_error(body@) {
                Some((code, message)) => (r matches BroadcastOutcome::Rejected { err }
                    && err.code as int == code && err.message@ == message),
                None => r is Unknown,
            }
        } else {
            r is Unknown
        },
{
    if is_txid_like(body) {
        BroadcastOutcome::Accepted { txid: body.to_owned() }
    } else if has_rejection_prefix(body) {
        match parse_send_raw_tx_error(body) {
            Some(err) => BroadcastOutcome::Rejected { err },
            None => BroadcastOutcome::Unknown,
        }
    } else {
        BroadcastOutcome::Unknown
    }
}

/// Conclude the broadcast from the response: an acceptance hands the
/// transaction id back; a rejection or an unknown response is the
/// broadcast-rejection error, and the proposal stays unbroadcast for the next
/// cycle.
pub fn conclude_broadcast(body: &str) -> (r: Result<String, RelayError>)
    ensures
        if spec_is_txid(body@) {
            r matches Ok(txid) && txid@ == body@
        } else {
            r == Err::<String, RelayError>(RelayError::BtcSendRawTxError)
        },
{
    match classify_broadcast_response(body) {
        BroadcastOutcome::Accepted { txid } => Ok(txid),
        BroadcastOutcome::Rejected { err: _ } => Err(RelayError::BtcSendRawTxError),
        BroadcastOutcome::Unknown => Err(RelayError::BtcSendRawTxError),
    }
}

} // verus!
