//! The relay's state machines: filter, coordinator, tracker, driver.

use btc_relay::BtcHash;
use btc_relay::BtcHeaderInfo;
use btc_relay::BtcTxMeta;
use btc_relay::FilterNeed;
use btc_relay::HeaderTracker;
use btc_relay::NodeLocalState;
use btc_relay::PassDecision;
use btc_relay::PassPhase;
use btc_relay::FilterPushPass;
use btc_relay::RelayError;
use btc_relay::TrackerAction;
use btc_relay::TrackerPhase;
use btc_relay::TxClass;
use btc_relay::TxFilter;
use btc_relay::WorkerStage;
use btc_relay::begin_pass;
use btc_relay::finish_filter;
use btc_relay::next_stage;
use btc_relay::start_filter;
use btc_relay::worker_due;

fn hash(tag: u8) -> BtcHash {
    BtcHash::new(vec![tag; 32])
}

fn tx(tag: u8, coinbase: bool, prev: u8) -> BtcTxMeta {
    BtcTxMeta { hash: hash(tag), is_coinbase: coinbase, prev_txid: hash(prev) }
}

#[test]
fn filter_marks_deposit_block() {
    // Confirmed block = [coinbase, deposit-tx, irrelevant-tx].
    let txs = vec![tx(1, true, 0), tx(2, false, 9), tx(3, false, 9)];
    let mut f = TxFilter::new(txs);

    assert_eq!(f.next_need(), FilterNeed::CoinbaseAt { index: 0 });
    f.mark_coinbase();
    assert_eq!(f.next_need(), FilterNeed::PrevTx { index: 1 });
    f.on_prev_tx(TxClass::Deposit);
    assert_eq!(f.next_need(), FilterNeed::PrevTx { index: 2 });
    f.on_prev_tx(TxClass::Irrelevance);
    assert_eq!(f.next_need(), FilterNeed::Ready);

    assert_eq!(f.mask, vec![false, true, false]);
    // Exactly one transaction is queued for submission: the deposit.
    assert_eq!(f.queued, vec![1]);
    assert_eq!(f.hashes.len(), 3);
    assert!(f.hashes[1].equals(&hash(2)));
}

#[test]
fn filter_queues_withdrawal_not_internal_moves() {
    let txs = vec![tx(1, true, 0), tx(2, false, 9), tx(3, false, 9), tx(4, false, 9)];
    let mut f = TxFilter::new(txs);
    f.mark_coinbase();
    f.on_prev_tx(TxClass::Withdrawal);
    f.on_prev_tx(TxClass::HotAndCold);
    f.on_prev_tx(TxClass::TrusteeTransition);
    assert_eq!(f.mask, vec![false, true, false, false]);
    assert_eq!(f.queued, vec![1]);
}

#[test]
fn filter_coinbase_never_queued() {
    let txs = vec![tx(1, true, 0), tx(2, false, 9)];
    let mut f = TxFilter::new(txs);
    f.mark_coinbase();
    f.on_prev_tx(TxClass::Deposit);
    assert!(!f.mask[0]);
    assert!(!f.queued.contains(&0));
}

#[test]
fn filter_is_deterministic() {
    let run = || {
        let txs = vec![tx(1, true, 0), tx(2, false, 9), tx(3, false, 9)];
        let mut f = TxFilter::new(txs);
        f.mark_coinbase();
        f.on_prev_tx(TxClass::Deposit);
        f.on_prev_tx(TxClass::Irrelevance);
        (f.mask, f.queued)
    };
    assert_eq!(run(), run());
}

#[test]
fn filter_aborts_after_five_fetch_failures() {
    let txs = vec![tx(2, false, 9)];
    let mut f = TxFilter::new(txs);
    for _ in 0..4 {
        f.on_fetch_error();
        assert!(!f.aborted);
    }
    f.on_fetch_error();
    assert!(f.aborted);
    assert_eq!(f.next_need(), FilterNeed::Aborted);
    assert!(f.queued.is_empty());
}

#[test]
fn coordinator_one_worker_per_height() {
    let mut node = NodeLocalState::new();
    // Worker A decides to proceed and takes the lock for its filter work.
    assert_eq!(begin_pass(&mut node, Some(7)), PassDecision::Proceed);
    assert!(start_filter(&mut node));
    // Worker B, racing for the same height, backs off and changes nothing.
    assert_eq!(begin_pass(&mut node, Some(7)), PassDecision::AnotherWorker);
    assert_eq!(node.checkpoint, None);
    // A finishes: the checkpoint advances under the lock.
    finish_filter(&mut node, 7, true);
    assert!(!node.lock_held);
    assert_eq!(node.checkpoint, Some(7));
}

#[test]
fn coordinator_short_circuits_when_checkpoint_current() {
    let mut node = NodeLocalState::new();
    assert!(start_filter(&mut node));
    finish_filter(&mut node, 7, true);
    // Re-invoking for the same confirmed height is already done: no fetch.
    assert_eq!(begin_pass(&mut node, Some(7)), PassDecision::AlreadyDone);
    assert_eq!(node.checkpoint, Some(7));
    assert!(!node.lock_held);
    // A newer confirmed height proceeds again.
    assert_eq!(begin_pass(&mut node, Some(8)), PassDecision::Proceed);
}

#[test]
fn coordinator_no_confirmed_block() {
    let mut node = NodeLocalState::new();
    assert_eq!(begin_pass(&mut node, None), PassDecision::NoConfirmedBlock);
}

#[test]
fn pass_fails_after_five_bad_rounds() {
    let mut pass = FilterPushPass::new(7);
    for _ in 0..4 {
        pass.on_block_hash(Err(RelayError::HttpIoError));
        assert!(matches!(pass.phase, PassPhase::NeedBlockHash));
    }
    pass.on_block_hash(Ok(None));
    assert!(matches!(pass.phase, PassPhase::Done { success: false }));
}

#[test]
fn pass_runs_filter_after_block_fetch() {
    let mut pass = FilterPushPass::new(7);
    pass.on_block_hash(Ok(Some(String::from("00ff"))));
    assert!(matches!(pass.phase, PassPhase::NeedBlock { .. }));
    pass.on_block(Ok(()));
    assert!(matches!(pass.phase, PassPhase::ReadyToFilter));
    pass.on_filter_result(true);
    assert!(matches!(pass.phase, PassPhase::Done { success: true }));
}

#[test]
fn pass_reports_other_worker() {
    let mut pass = FilterPushPass::new(7);
    pass.on_block_hash(Ok(Some(String::from("00ff"))));
    pass.on_block(Ok(()));
    pass.on_lock_unavailable();
    assert!(matches!(pass.phase, PassPhase::Done { success: false }));
}

#[test]
fn tracker_stops_on_unproduced_height() {
    // `GET /block-height/{h}` answered "Block not found": no header action.
    let mut t = HeaderTracker::new(100, vec![hash(5)]);
    assert!(matches!(t.next_action(), TrackerAction::FetchBlockHash { height: 101 }));
    t.on_block_hash(Ok(None));
    assert!(matches!(t.phase, TrackerPhase::Stopped));
    assert!(matches!(t.next_action(), TrackerAction::Idle));
    assert_eq!(t.best_height, 100);
}

#[test]
fn tracker_submits_connected_header() {
    let mut t = HeaderTracker::new(100, vec![hash(5)]);
    t.on_block_hash(Ok(Some(String::from("00ff"))));
    assert!(matches!(t.next_action(), TrackerAction::FetchBlock { .. }));
    let header = BtcHeaderInfo { hash: hash(6), previous_header_hash: hash(5) };
    t.on_block(Ok(header));
    match t.next_action() {
        TrackerAction::SubmitHeader { height, header } => {
            assert_eq!(height, 101);
            assert!(header.previous_header_hash.equals(&hash(5)));
        },
        _ => panic!("expected a header submission"),
    }
}

#[test]
fn tracker_rewinds_on_disconnected_header() {
    let mut t = HeaderTracker::new(100, vec![hash(5)]);
    t.on_block_hash(Ok(Some(String::from("00ff"))));
    // The fetched header does not chain onto the recorded best hash.
    let header = BtcHeaderInfo { hash: hash(6), previous_header_hash: hash(9) };
    t.on_block(Ok(header));
    assert_eq!(t.height, 100);
    assert!(matches!(t.phase, TrackerPhase::NeedBlockHash));
    assert_eq!(t.attempts, 1);
}

#[test]
fn tracker_never_exceeds_attempt_budget() {
    let mut t = HeaderTracker::new(100, vec![hash(5)]);
    for k in 0..6 {
        assert!(matches!(t.phase, TrackerPhase::NeedBlockHash), "attempt {}", k);
        t.on_block_hash(Err(RelayError::HttpDeadlineReached));
    }
    assert!(matches!(t.phase, TrackerPhase::Stopped));
}

#[test]
fn worker_runs_every_second_block() {
    assert!(worker_due(0));
    assert!(!worker_due(1));
    assert!(worker_due(2));
    assert!(!worker_due(4999999999));
}

#[test]
fn header_relay_only_after_filter_success() {
    assert_eq!(next_stage(WorkerStage::Broadcast, true), WorkerStage::FilterPush);
    assert_eq!(next_stage(WorkerStage::Broadcast, false), WorkerStage::FilterPush);
    assert_eq!(next_stage(WorkerStage::FilterPush, true), WorkerStage::HeaderRelay);
    assert_eq!(next_stage(WorkerStage::FilterPush, false), WorkerStage::Finished);
    assert_eq!(next_stage(WorkerStage::HeaderRelay, true), WorkerStage::Finished);
}
