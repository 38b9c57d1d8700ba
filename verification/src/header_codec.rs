//! Reading a raw Bitcoin block header.
//!
//! A serialized header is 80 bytes; the relay reads two things of it: its own
//! identity — the double hash of those 80 bytes — and the previous-header
//! hash at bytes 4 to 36, which decides whether the header chains onto what
//! the ledger records. A fetched raw block starts with its header, so the
//! same reading serves block fetches.

use vstd::prelude::*;

use crate::errors::RelayError;
use crate::hashing::dhash_of;
use crate::hashing::dsha256;
use crate::types::BtcHash;
use crate::types::BtcHeaderInfo;

verus! {

/// What the relay reads of a raw serialized header (or of a raw block, whose
/// first 80 bytes are its header): the header's double-hash identity and its
/// previous-header hash. Fewer than 80 bytes are no header.
pub fn parse_header(raw: &Vec<u8>) -> (r: Result<BtcHeaderInfo, RelayError>)
    ensures
        match r {
            Ok(h) => {
                &&& raw@.len() >= 80
                &&& h.hash@ == dhash_of(raw@.take(80))
                &&& h.previous_header_hash@ == raw@.subrange(4, 36)
                &&& h.wf()
            },
            Err(e) => raw@.len() < 80 && e == RelayError::BtcSerializationError,
        },
{
    if raw.len() < 80 {
        return Err(RelayError::BtcSerializationError);
    }
    let mut header: Vec<u8> = Vec::new();
    let mut i: usize = 0;
    while i < 80
        invariant
            0 <= i <= 80,
            raw@.len() >= 80,
            header@ == raw@.take(i as int),
        decreases 80 - i,
    {
        header.push(raw[i]);
        proof {
            assert(raw@.take(i + 1) =~= raw@.take(i as int).push(raw@[i as int]));
        }
        i += 1;
    }
    let mut prev: Vec<u8> = Vec::new();
    let mut j: usize = 4;
    while j < 36
        invariant
            4 <= j <= 36,
            raw@.len() >= 80,
            prev@ == raw@.subrange(4, j as int),
        decreases 36 - j,
    {
        prev.push(raw[j]);
        proof {
            assert(raw@.subrange(4, j + 1) =~= raw@.subrange(4, j as int).push(raw@[j as int]));
        }
        j += 1;
    }
    let hash = dsha256(&header);
    Ok(BtcHeaderInfo { hash, previous_header_hash: BtcHash::new(prev) })
}

} // verus!
