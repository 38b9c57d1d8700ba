//! The relay's own model of the Bitcoin entities it reads.
//!
//! The relay never validates Bitcoin data itself; it only reads a few fields
//! of each fetched entity and hands the rest through. The types here hold
//! exactly those fields as plain values, so that every decision taken over
//! them can be verified. Decoding the wire format into these values is the
//! caller's business.

use vstd::prelude::*;

verus! {

/// A 32-byte Bitcoin hash (a block hash or a transaction id). The library
/// never reorders the bytes: whichever order — wire or display — the caller
/// fills a hash in, comparisons and proofs read it back in the same order,
/// so one invocation must keep to one order throughout.
#[derive(Debug)]
pub struct BtcHash {
    /// The 32 raw bytes of the hash.
    pub bytes: Vec<u8>,
}

impl View for BtcHash {
    type V = Seq<u8>;

    open spec fn view(&self) -> Seq<u8> {
        self.bytes@
    }
}

impl BtcHash {
    /// A hash is well formed when it holds exactly 32 bytes.
    pub open spec fn wf(&self) -> bool {
        self@.len() == 32
    }

    /// Wrap 32 raw bytes as a hash.
    pub fn new(bytes: Vec<u8>) -> (h: BtcHash)
        requires
            bytes@.len() == 32,
        ensures
            h@ == bytes@,
            h.wf(),
    {
        BtcHash { bytes }
    }

    /// Whether two hashes hold the same bytes.
    pub fn equals(&self, other: &BtcHash) -> (r: bool)
        ensures
            r == (self@ == other@),
    {
        let r = self.bytes == other.bytes;
        proof {
            if r {
                assert(self@ =~= other@);
            }
        }
        r
    }
}

impl Clone for BtcHash {
    fn clone(&self) -> (r: Self)
        ensures
            r@ == self@,
    {
        BtcHash { bytes: self.bytes.clone() }
    }
}

/// Whether some hash in `v` holds the bytes of `h`.
pub open spec fn contains_hash(v: Seq<BtcHash>, h: Seq<u8>) -> bool {
    exists|i: int| 0 <= i < v.len() && v[i]@ == h
}

/// Search a list of hashes for one holding the bytes of `h`.
pub fn find_hash(v: &Vec<BtcHash>, h: &BtcHash) -> (r: bool)
    ensures
        r == contains_hash(v@, h@),
{
    let mut i: usize = 0;
    while i < v.len()
        invariant
            0 <= i <= v@.len(),
            forall|j: int| 0 <= j < i ==> v@[j]@ != h@,
        decreases v@.len() - i,
    {
        if v[i].equals(h) {
            return true;
        }
        i += 1;
    }
    false
}

/// What the relay reads of a fetched Bitcoin block header.
pub struct BtcHeaderInfo {
    /// The header's own hash.
    pub hash: BtcHash,
    /// The hash of the header this one chains onto.
    pub previous_header_hash: BtcHash,
}

impl BtcHeaderInfo {
    /// Both hashes carry their full 32 bytes.
    pub open spec fn wf(&self) -> bool {
        self.hash.wf() && self.previous_header_hash.wf()
    }
}

impl Clone for BtcHeaderInfo {
    fn clone(&self) -> (r: Self)
        ensures
            r.hash@ == self.hash@,
            r.previous_header_hash@ == self.previous_header_hash@,
    {
        BtcHeaderInfo { hash: self.hash.clone(), previous_header_hash: self.previous_header_hash.clone() }
    }
}

/// What the relay reads of a transaction in a confirmed block.
pub struct BtcTxMeta {
    /// The transaction id.
    pub hash: BtcHash,
    /// Whether this is the block's coinbase transaction.
    pub is_coinbase: bool,
    /// The txid of the transaction spent by the first input. A coinbase
    /// spends nothing and carries the null outpoint's all-zero txid.
    pub prev_txid: BtcHash,
}

impl BtcTxMeta {
    /// Both hashes carry their full 32 bytes.
    pub open spec fn wf(&self) -> bool {
        self.hash.wf() && self.prev_txid.wf()
    }
}

/// The classes the external transaction detector sorts a transaction into.
#[derive(Clone, Copy, Debug, PartialEq, Eq, Structural)]
pub enum TxClass {
    /// A deposit into the trustee custody addresses.
    Deposit,
    /// A withdrawal out of the trustee custody addresses.
    Withdrawal,
    /// A move between the hot and the cold custody address.
    HotAndCold,
    /// A hand-over of funds to the next trustee session.
    TrusteeTransition,
    /// None of the relay's business.
    Irrelevance,
}

/// Only deposits and withdrawals are relayed to the ledger.
pub open spec fn is_relevant(c: TxClass) -> bool {
    c == TxClass::Deposit || c == TxClass::Withdrawal
}

/// Executable mirror of [`is_relevant`].
pub fn relevant(c: TxClass) -> (r: bool)
    ensures
        r == is_relevant(c),
{
    match c {
        TxClass::Deposit => true,
        TxClass::Withdrawal => true,
        TxClass::HotAndCold => false,
        TxClass::TrusteeTransition => false,
        TxClass::Irrelevance => false,
    }
}

} // verus!
