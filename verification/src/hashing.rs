//! The double SHA-256 every Bitcoin identity rests on.

use vstd::prelude::*;

use sha2::Digest;

use crate::types::BtcHash;

verus! {

/// What double-hashing a byte sequence yields. The digest depends on the
/// bytes alone.
pub uninterp spec fn dhash_of(bytes: Seq<u8>) -> Seq<u8>;

/// Relies on sha2::Sha256: the double hash is the SHA-256 of the SHA-256 of
/// the input — a function of the bytes alone — and a digest holds 32 bytes.
#[verifier::external_body]
pub(crate) fn dsha256(bytes: &Vec<u8>) -> (h: BtcHash)
    ensures
        h@ == dhash_of(bytes@),
        h@.len() == 32,
{
    let once = sha2::Sha256::digest(bytes.as_slice());
    let twice = sha2::Sha256::digest(once.as_slice());
    BtcHash { bytes: twice.to_vec() }
}

/// Append a byte list to another.
pub(crate) fn append_bytes(dst: &mut Vec<u8>, src: &Vec<u8>)
    ensures
        final(dst)@ == old(dst)@ + src@,
{
    let mut i: usize = 0;
    while i < src.len()
        invariant
            0 <= i <= src@.len(),
            dst@ == old(dst)@ + src@.take(i as int),
        decreases src@.len() - i,
    {
        dst.push(src[i]);
        proof {
            assert(old(dst)@ + src@.take(i + 1) =~= (old(dst)@ + src@.take(i as int)).push(
                src@[i as int],
            ));
        }
        i += 1;
    }
    proof {
        assert(src@.take(src@.len() as int) =~= src@);
    }
}

} // verus!
