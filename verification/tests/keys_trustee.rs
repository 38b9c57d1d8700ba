//! The key-set lifecycle and the trustee session lookup.

use btc_relay::Module;
use btc_relay::TrusteeSessionInfo;
use btc_relay::current_session_number;
use btc_relay::get_trustee_pair;

#[test]
fn genesis_initializes_once() {
    let mut m = Module::new();
    m.initialize_keys(&vec![3, 1, 2]);
    assert_eq!(m.keys, vec![3, 1, 2]);
}

#[test]
fn empty_genesis_set_changes_nothing() {
    let mut m = Module::new();
    m.initialize_keys(&vec![]);
    assert!(m.keys.is_empty());
    m.on_genesis_session(&vec![5, 4]);
    assert_eq!(m.keys, vec![5, 4]);
}

#[test]
fn rotation_replaces_with_deduplicated_union() {
    let mut m = Module::new();
    m.initialize_keys(&vec![10]);
    m.on_new_session(true, &vec![3, 1, 3], &vec![2, 3, 1]);
    assert_eq!(m.keys, vec![1, 2, 3]);
}

#[test]
fn unchanged_rotation_keeps_keys() {
    let mut m = Module::new();
    m.initialize_keys(&vec![10, 20]);
    m.on_new_session(false, &vec![1], &vec![2]);
    assert_eq!(m.keys, vec![10, 20]);
}

#[test]
fn session_number_is_count_minus_one() {
    assert_eq!(current_session_number(5), 4);
    assert_eq!(current_session_number(1), 0);
    assert_eq!(current_session_number(0), u32::MAX);
}

#[test]
fn trustee_pair_follows_session_info() {
    let info = TrusteeSessionInfo { hot_address: vec![1, 2], cold_address: vec![3, 4] };
    let pair = get_trustee_pair(Some(info)).unwrap().unwrap();
    assert_eq!(pair.hot, vec![1, 2]);
    assert_eq!(pair.cold, vec![3, 4]);
    assert!(get_trustee_pair(None).unwrap().is_none());
}
