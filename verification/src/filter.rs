//! The transaction filter of one confirmed block.
//!
//! For each transaction of the confirmed block, in block order, the filter
//! collects its txid and decides its relevance: the coinbase is never
//! relevant; any other transaction is classified by the external detector
//! from its fetched predecessor, and only deposits and withdrawals count.
//! The txid list and the relevance mask stay aligned to the block order —
//! the inclusion proof is built over exactly this pair — and the relevant
//! transactions are queued, by their block position, for submission. The
//! predecessor fetch has a bounded budget per transaction; spending it aborts
//! the whole pass with nothing pushed.

use vstd::prelude::*;

use crate::types::BtcHash;
use crate::types::BtcTxMeta;
use crate::types::TxClass;
use crate::types::is_relevant;
use crate::types::relevant;

verus! {

/// How many predecessor-fetch failures one transaction tolerates.
pub const MAX_FETCH_ATTEMPTS: u8 = 5;

/// Whether a transaction of the block is relayed: never the coinbase, and
/// otherwise exactly the deposits and withdrawals.
pub open spec fn relevance_of(is_coinbase: bool, c: TxClass) -> bool {
    !is_coinbase && is_relevant(c)
}

/// The relevance mask a block with the given coinbase flags earns under the
/// given classifications, position by position.
pub open spec fn expected_mask(coinbases: Seq<bool>, classes: Seq<TxClass>) -> Seq<bool> {
    Seq::new(coinbases.len(), |i: int| relevance_of(coinbases[i], classes[i]))
}

/// The block positions a relevance mask queues for submission, in order.
pub open spec fn queued_of(mask: Seq<bool>) -> Seq<int>
    decreases mask.len(),
{
    if mask.len() == 0 {
        Seq::empty()
    } else {
        let prefix = queued_of(mask.drop_last());
        if mask.last() {
            prefix.push(mask.len() - 1)
        } else {
            prefix
        }
    }
}

/// Every queued position lies in the mask and is flagged true.
pub proof fn lemma_queued_of_sound(mask: Seq<bool>)
    ensures
        forall|k: int|
            0 <= k < queued_of(mask).len() ==> 0 <= #[trigger] queued_of(mask)[k] < mask.len()
                && mask[queued_of(mask)[k]],
    decreases mask.len(),
{
    if mask.len() > 0 {
        let prefix = queued_of(mask.drop_last());
        lemma_queued_of_sound(mask.drop_last());
        assert forall|k: int|
            0 <= k < queued_of(mask).len() implies 0 <= #[trigger] queued_of(mask)[k]
            < mask.len() && mask[queued_of(mask)[k]] by {
            if k < prefix.len() {
                assert(queued_of(mask)[k] == prefix[k]);
                assert(mask.drop_last()[prefix[k]] == mask[prefix[k]]);
            }
        }
    }
}

/// What the filter waits for next.
#[derive(Clone, Copy, Debug, PartialEq, Eq, Structural)]
pub enum FilterNeed {
    /// The transaction at this position is the coinbase: no fetch, no
    /// classification; mark it and move on.
    CoinbaseAt {
        /// The block position.
        index: usize,
    },
    /// The predecessor of the transaction at this position is to be fetched
    /// and the transaction classified.
    PrevTx {
        /// The block position.
        index: usize,
    },
    /// Every transaction is decided; the proof can be built and the queue
    /// submitted.
    Ready,
    /// A fetch budget was spent; the whole pass is abandoned, nothing is
    /// pushed.
    Aborted,
}

/// The filter's state over one confirmed block.
pub struct TxFilter {
    /// The block's transactions, in block order, as the relay reads them.
    pub txs: Vec<BtcTxMeta>,
    /// How many transactions are decided so far.
    pub idx: usize,
    /// Fetch failures for the transaction at `idx`.
    pub attempts: u8,
    /// The txids of the decided transactions, aligned to block order.
    pub hashes: Vec<BtcHash>,
    /// The relevance mask of the decided transactions, aligned likewise.
    pub mask: Vec<bool>,
    /// The block positions queued for submission, in block order.
    pub queued: Vec<usize>,
    /// Whether the pass was abandoned.
    pub aborted: bool,
    /// The classification each decided position got (the coinbase counts as
    /// irrelevant without asking the detector).
    pub classes: Ghost<Seq<TxClass>>,
}

impl TxFilter {
    /// The filter's invariant: txids, mask and classifications are aligned
    /// prefixes of the block, the mask is pointwise the relevance of the
    /// recorded classification, and the queue holds exactly the positions the
    /// mask flags true.
    pub open spec fn wf(&self) -> bool {
        &&& self.idx <= self.txs@.len()
        &&& self.hashes@.len() == self.idx
        &&& self.mask@.len() == self.idx
        &&& self.classes@.len() == self.idx
        &&& self.attempts < MAX_FETCH_ATTEMPTS
        &&& (forall|i: int|
            0 <= i < self.idx ==> self.mask@[i] == relevance_of(
                self.txs@[i].is_coinbase,
                self.classes@[i],
            ))
        &&& (forall|i: int| 0 <= i < self.idx ==> self.hashes@[i]@ == self.txs@[i].hash@)
        &&& self.queued@.map_values(|x: usize| x as int) == queued_of(self.mask@)
    }

    /// Start the filter over a confirmed block's transactions.
    pub fn new(txs: Vec<BtcTxMeta>) -> (f: TxFilter)
        ensures
            f.wf(),
            f.txs@ == txs@,
            f.idx == 0,
            f.attempts == 0,
            !f.aborted,
    {
        let f = TxFilter {
            txs,
            idx: 0,
            attempts: 0,
            hashes: Vec::new(),
            mask: Vec::new(),
            queued: Vec::new(),
            aborted: false,
            classes: Ghost(Seq::<TxClass>::empty()),
        };
        proof {
            assert(f.queued@.map_values(|x: usize| x as int) =~= queued_of(f.mask@));
        }
        f
    }

    /// What the filter waits for.
    pub fn next_need(&self) -> (n: FilterNeed)
        requires
            self.wf(),
        ensures
            n == if self.aborted {
                FilterNeed::Aborted
            } else if self.idx == self.txs@.len() {
                FilterNeed::Ready
            } else if self.txs@[self.idx as int].is_coinbase {
                FilterNeed::CoinbaseAt { index: self.idx }
            } else {
                FilterNeed::PrevTx { index: self.idx }
            },
    {
        if self.aborted {
            FilterNeed::Aborted
        } else if self.idx == self.txs.len() {
            FilterNeed::Ready
        } else if self.txs[self.idx].is_coinbase {
            FilterNeed::CoinbaseAt { index: self.idx }
        } else {
            FilterNeed::PrevTx { index: self.idx }
        }
    }

    /// Decide the coinbase at the cursor: its txid joins the list, its
    /// relevance is false, and it is never queued.
    pub fn mark_coinbase(&mut self)
        requires
            old(self).wf(),
            !old(self).aborted,
            old(self).idx < old(self).txs@.len(),
            old(self).txs@[old(self).idx as int].is_coinbase,
        ensures
            final(self).wf(),
            final(self).txs@ == old(self).txs@,
            final(self).idx == old(self).idx + 1,
            !final(self).aborted,
            final(self).hashes@.len() == old(self).hashes@.len() + 1,
            final(self).hashes@[old(self).idx as int]@ == old(self).txs@[old(
                self,
            ).idx as int].hash@,
            final(self).mask@ == old(self).mask@.push(false),
            final(self).queued@ == old(self).queued@,
            final(self).classes@ == old(self).classes@.push(TxClass::Irrelevance),
            final(self).attempts == 0,
    {
        let n = self.txs.len();
        let h = self.txs[self.idx].hash.clone();
        self.hashes.push(h);
        self.mask.push(false);
        proof {
            self.classes@ = self.classes@.push(TxClass::Irrelevance);
            assert(self.mask@.drop_last() =~= old(self).mask@);
            assert(self.queued@.map_values(|x: usize| x as int) =~= queued_of(self.mask@));
        }
        self.idx = self.idx + 1;
        self.attempts = 0;
    }

    /// Decide the transaction at the cursor from the detector's
    /// classification of it against its fetched predecessor: its txid joins
    /// the list, its relevance is that of the classification, and a relevant
    /// transaction is queued for submission.
    pub fn on_prev_tx(&mut self, class: TxClass)
        requires
            old(self).wf(),
            !old(self).aborted,
            old(self).idx < old(self).txs@.len(),
            !old(self).txs@[old(self).idx as int].is_coinbase,
        ensures
            final(self).wf(),
            final(self).txs@ == old(self).txs@,
            final(self).idx == old(self).idx + 1,
            !final(self).aborted,
            final(self).hashes@.len() == old(self).hashes@.len() + 1,
            final(self).hashes@[old(self).idx as int]@ == old(self).txs@[old(
                self,
            ).idx as int].hash@,
            final(self).mask@ == old(self).mask@.push(is_relevant(class)),
            final(self).classes@ == old(self).classes@.push(class),
            final(self).attempts == 0,
            final(self).queued@ == if is_relevant(class) {
                old(self).queued@.push(old(self).idx)
            } else {
                old(self).queued@
            },
    {
        let n = self.txs.len();
        let h = self.txs[self.idx].hash.clone();
        self.hashes.push(h);
        let rel = relevant(class);
        self.mask.push(rel);
        if rel {
            self.queued.push(self.idx);
        }
        proof {
            self.classes@ = self.classes@.push(class);
            assert(self.mask@.drop_last() =~= old(self).mask@);
            assert(self.queued@.map_values(|x: usize| x as int) =~= queued_of(self.mask@));
        }
        self.idx = self.idx + 1;
        self.attempts = 0;
    }

    /// Take in that fetching the predecessor failed: one unit of the
    /// per-transaction budget is spent, and spending the last one abandons
    /// the whole pass — no partial push ever happens.
    pub fn on_fetch_error(&mut self)
        requires
            old(self).wf(),
            !old(self).aborted,
            old(self).idx < old(self).txs@.len(),
            !old(self).txs@[old(self).idx as int].is_coinbase,
        ensures
            final(self).wf(),
            final(self).txs@ == old(self).txs@,
            final(self).idx == old(self).idx,
            final(self).mask@ == old(self).mask@,
            final(self).queued@ == old(self).queued@,
            final(self).classes@ == old(self).classes@,
            if old(self).attempts + 1 == MAX_FETCH_ATTEMPTS {
                final(self).aborted && final(self).attempts == 0
            } else {
                !final(self).aborted && final(self).attempts == old(self).attempts + 1
            },
    {
        if self.attempts + 1 == MAX_FETCH_ATTEMPTS {
            self.attempts = 0;
            self.aborted = true;
        } else {
            self.attempts = self.attempts + 1;
        }
    }
}

/// Law: the coinbase is always classified irrelevant and never queued for
/// submission — in every well-formed filter state, every decided coinbase
/// position is flagged false and absent from the submission queue.
pub proof fn lemma_coinbase_never_queued(f: TxFilter)
    requires
        f.wf(),
    ensures
        forall|i: int|
            0 <= i < f.mask@.len() && f.txs@[i].is_coinbase ==> !f.mask@[i],
        forall|k: int|
            0 <= k < f.queued@.len() ==> !f.txs@[#[trigger] f.queued@[k] as int].is_coinbase,
{
    lemma_queued_of_sound(f.mask@);
    assert forall|k: int| 0 <= k < f.queued@.len() implies !f.txs@[
        #[trigger] f.queued@[k] as int
    ].is_coinbase by {
        let m = f.queued@.map_values(|x: usize| x as int);
        assert(m[k] == f.queued@[k] as int);
        assert(m[k] == queued_of(f.mask@)[k]);
        assert(f.mask@[f.queued@[k] as int]);
    }
}

/// Law: the relevance decision is a pure function of the block's shape and
/// the classifications — two filter runs over blocks with the same coinbase
/// layout that received the same classifications produce the same mask.
pub proof fn lemma_classification_deterministic(f1: TxFilter, f2: TxFilter)
    requires
        f1.wf(),
        f2.wf(),
        f1.idx == f1.txs@.len(),
        f2.idx == f2.txs@.len(),
        f1.txs@.map_values(|t: BtcTxMeta| t.is_coinbase) == f2.txs@.map_values(
            |t: BtcTxMeta| t.is_coinbase,
        ),
        f1.classes@ == f2.classes@,
    ensures
        f1.mask@ == f2.mask@,
        f1.queued@.map_values(|x: usize| x as int) == f2.queued@.map_values(|x: usize| x as int),
{
    let c1 = f1.txs@.map_values(|t: BtcTxMeta| t.is_coinbase);
    let c2 = f2.txs@.map_values(|t: BtcTxMeta| t.is_coinbase);
    assert(c1.len() == f1.txs@.len());
    assert forall|i: int| 0 <= i < f1.mask@.len() implies f1.mask@[i] == f2.mask@[i] by {
        assert(c1[i] == f1.txs@[i].is_coinbase);
        assert(c2[i] == f2.txs@[i].is_coinbase);
    }
    assert(f1.mask@ =~= f2.mask@);
}

/// Law: the mask a completed, unaborted filter ends with is exactly
/// [`expected_mask`] of the block's coinbase layout and the received
/// classifications — the pure function the relay's relevance policy states.
pub proof fn lemma_mask_is_expected(f: TxFilter)
    requires
        f.wf(),
        f.idx == f.txs@.len(),
    ensures
        f.mask@ =~= expected_mask(f.txs@.map_values(|t: BtcTxMeta| t.is_coinbase), f.classes@),
        f.mask@.len() == f.hashes@.len(),
{
    let coinbases = f.txs@.map_values(|t: BtcTxMeta| t.is_coinbase);
    assert forall|i: int| 0 <= i < f.mask@.len() implies f.mask@[i] == expected_mask(
        coinbases,
        f.classes@,
    )[i] by {
        assert(coinbases[i] == f.txs@[i].is_coinbase);
    }
}

} // verus!
