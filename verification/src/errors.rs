//! The relay's fixed error taxonomy.
//!
//! Every failure the relay can meet is normalized into one of these cases;
//! none of them may abort the host's block production, so callers only log
//! them and fall back to the next scheduled invocation.

use vstd::prelude::*;

verus! {

/// Everything that can go wrong during one relay invocation.
#[derive(Clone, Copy, Debug, PartialEq, Eq, Structural)]
pub enum RelayError {
    /// The HTTP transport failed.
    HttpIoError,
    /// The HTTP deadline of a call was reached.
    HttpDeadlineReached,
    /// The HTTP call failed in no further known way, or the response status
    /// was not 200.
    HttpUnknown,
    /// The HTTP response body was not UTF-8.
    HttpBodyNotUTF8,
    /// Fetched bytes did not deserialize as the expected Bitcoin entity.
    BtcSerializationError,
    /// The Bitcoin network rejected a broadcast raw transaction.
    BtcSendRawTxError,
}

/// How the host reports a failed HTTP call, before the relay normalizes it.
#[derive(Clone, Copy, Debug, PartialEq, Eq, Structural)]
pub enum HttpFault {
    /// The per-call deadline passed.
    DeadlineReached,
    /// The transport broke.
    IoError,
    /// Any other failure.
    Unknown,
}

impl From<HttpFault> for RelayError {
    fn from(f: HttpFault) -> (e: RelayError) {
        match f {
            HttpFault::DeadlineReached => RelayError::HttpDeadlineReached,
            HttpFault::IoError => RelayError::HttpIoError,
            HttpFault::Unknown => RelayError::HttpUnknown,
        }
    }
}

impl vstd::std_specs::convert::FromSpecImpl<HttpFault> for RelayError {
    open spec fn obeys_from_spec() -> bool {
        true
    }

    open spec fn from_spec(f: HttpFault) -> RelayError {
        match f {
            HttpFault::DeadlineReached => RelayError::HttpDeadlineReached,
            HttpFault::IoError => RelayError::HttpIoError,
            HttpFault::Unknown => RelayError::HttpUnknown,
        }
    }
}

/// A fetched response counts only with status 200; anything else is the
/// unknown HTTP error.
pub fn check_status(code: u16) -> (r: Result<(), RelayError>)
    ensures
        code == 200 ==> r == Ok::<(), RelayError>(()),
        code != 200 ==> r == Err::<(), RelayError>(RelayError::HttpUnknown),
{
    if code == 200 {
        Ok(())
    } else {
        Err(RelayError::HttpUnknown)
    }
}

} // verus!
