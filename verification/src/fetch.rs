//! Reading the network's fetch responses.
//!
//! The fetcher itself — bounded-deadline HTTP against the block-explorer API
//! — lives with the caller; what is verified here is how its raw response
//! bytes are read: the status check, the UTF-8 decoding, and the block-hash
//! answer, where the literal "Block not found" means the height is not
//! produced yet and anything else is the block's hash.

use vstd::prelude::*;

use crate::errors::RelayError;
use crate::strutil::str_eq;

verus! {

/// What a byte sequence decodes to as UTF-8, if anything. The decoding
/// depends on the bytes alone.
pub uninterp spec fn utf8_decode(bytes: Seq<u8>) -> Option<Seq<char>>;

/// Relies on String::from_utf8: it succeeds exactly on valid UTF-8 input and
/// hands back its decoding, a function of the bytes alone; an empty input
/// decodes to the empty string.
#[verifier::external_body]
pub(crate) fn bytes_to_string(bytes: Vec<u8>) -> (r: Option<String>)
    ensures
        match r {
            Some(s) => utf8_decode(bytes@) == Some(s@) && (bytes@.len() == 0 ==> s@.len() == 0),
            None => utf8_decode(bytes@) is None && bytes@.len() > 0,
        },
{
    String::from_utf8(bytes).ok()
}

/// A fetched response body as text: its UTF-8 decoding, or the decoding
/// error of the taxonomy. The broadcast flow reads the network's answer
/// through this before judging it.
pub fn decode_response_body(body: Vec<u8>) -> (r: Result<String, RelayError>)
    ensures
        match utf8_decode(body@) {
            None => r == Err::<String, RelayError>(RelayError::HttpBodyNotUTF8),
            Some(chars) => r matches Ok(s) && s@ == chars,
        },
{
    match bytes_to_string(body) {
        Some(s) => Ok(s),
        None => Err(RelayError::HttpBodyNotUTF8),
    }
}

/// The answer the block-hash endpoint gave: the height is not produced yet
/// ("Block not found"), or the block's hash; a body that is not UTF-8 is the
/// decoding error.
pub fn interpret_block_hash_response(body: Vec<u8>) -> (r: Result<Option<String>, RelayError>)
    ensures
        match utf8_decode(body@) {
            None => r == Err::<Option<String>, RelayError>(RelayError::HttpBodyNotUTF8),
            Some(chars) => {
                if chars == "Block not found"@ {
                    r == Ok::<Option<String>, RelayError>(None)
                } else {
                    r matches Ok(Some(h)) && h@ == chars
                }
            },
        },
{
    let s = match bytes_to_string(body) {
        Some(s) => s,
        None => {
            return Err(RelayError::HttpBodyNotUTF8);
        },
    };
    if str_eq(s.as_str(), "Block not found") {
        Ok(None)
    } else {
        Ok(Some(s))
    }
}

} // verus!
