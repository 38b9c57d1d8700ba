//! The trustee custody pair of the current session.
//!
//! Bridged funds are guarded by a hot and a cold custody address, rotated per
//! trustee session. The relay recomputes the pair at the start of each
//! filter-and-push pass from the ledger's session info — never cached across
//! sessions — and hands it to the transaction detector. Decoding the ledger's
//! stored address bytes into addresses is the collaborators' work; the relay
//! only picks the session and carries the pair.

use vstd::prelude::*;

use crate::errors::RelayError;

verus! {

/// The ledger's stored info of one trustee session, addresses already
/// decoded.
pub struct TrusteeSessionInfo {
    /// The hot custody address.
    pub hot_address: Vec<u8>,
    /// The cold custody address.
    pub cold_address: Vec<u8>,
}

/// The custody pair the detector classifies against.
pub struct TrusteePair {
    /// The hot custody address.
    pub hot: Vec<u8>,
    /// The cold custody address.
    pub cold: Vec<u8>,
}

/// The current session's number: one less than the session count; with no
/// session yet, the all-ones number, which the ledger knows no session under.
pub fn current_session_number(trustee_session_info_len: u32) -> (r: u32)
    ensures
        trustee_session_info_len >= 1 ==> r == trustee_session_info_len - 1,
        trustee_session_info_len == 0 ==> r == u32::MAX,
{
    if trustee_session_info_len >= 1 {
        trustee_session_info_len - 1
    } else {
        u32::MAX
    }
}

/// The trustee pair of a session: the session's hot and cold addresses, or
/// none when the ledger knows no such session.
pub fn get_trustee_pair(info: Option<TrusteeSessionInfo>) -> (r: Result<
    Option<TrusteePair>,
    RelayError,
>)
    ensures
        match info {
            Some(i) => (r matches Ok(Some(pair)) && pair.hot@ == i.hot_address@ && pair.cold@
                == i.cold_address@),
            None => r == Ok::<Option<TrusteePair>, RelayError>(None),
        },
{
    match info {
        Some(i) => Ok(Some(TrusteePair { hot: i.hot_address, cold: i.cold_address })),
        None => Ok(None),
    }
}

} // verus!
