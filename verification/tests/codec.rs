//! Encodings and response reading: hex, the rejection payload, the broadcast
//! outcome, the fetch interpretations.

use btc_relay::BroadcastOutcome;
use btc_relay::CallKind;
use btc_relay::ChainSpec;
use btc_relay::HttpFault;
use btc_relay::RelayError;
use btc_relay::VoteResult;
use btc_relay::WithdrawalProposal;
use btc_relay::broadcast_request;
use btc_relay::check_status;
use btc_relay::classify_broadcast_response;
use btc_relay::conclude_broadcast;
use btc_relay::interpret_block_hash_response;
use btc_relay::is_txid_like;
use btc_relay::load_spec;
use btc_relay::parse_send_raw_tx_error;
use btc_relay::validate_unsigned;

#[test]
fn broadcast_request_hex_encodes_finished_proposal() {
    let p = Some(WithdrawalProposal {
        sig_state: VoteResult::Finish,
        tx_bytes: vec![0xde, 0xad, 0xbe, 0xef],
    });
    assert_eq!(broadcast_request(&p), Some(String::from("deadbeef")));
}

#[test]
fn broadcast_request_skips_unfinished_proposal() {
    let p = Some(WithdrawalProposal { sig_state: VoteResult::Unfinish, tx_bytes: vec![1, 2] });
    assert_eq!(broadcast_request(&p), None);
    assert_eq!(broadcast_request(&None), None);
}

#[test]
fn rejection_payload_is_parsed() {
    // The documented broadcast rejection: parsed, and reported as failure.
    let body = "send raw transaction RPC error: {\"code\":-26,\"message\":\"too-long-mempool-chain\"}";
    let e = parse_send_raw_tx_error(body).expect("rejection payload parses");
    assert_eq!(e.code, -26);
    assert_eq!(e.message, "too-long-mempool-chain");
    match classify_broadcast_response(body) {
        BroadcastOutcome::Rejected { err } => {
            assert_eq!(err.code, -26);
            assert_eq!(err.message, "too-long-mempool-chain");
        },
        _ => panic!("expected a rejection"),
    }
    assert_eq!(conclude_broadcast(body), Err(RelayError::BtcSendRawTxError));
}

#[test]
fn rejection_payload_positive_code() {
    let body = "send raw transaction RPC error: {\"code\":64,\"message\":\"non-final\"}";
    let e = parse_send_raw_tx_error(body).expect("rejection payload parses");
    assert_eq!(e.code, 64);
    assert_eq!(e.message, "non-final");
}

#[test]
fn malformed_payloads_do_not_parse() {
    assert!(parse_send_raw_tx_error("").is_none());
    assert!(parse_send_raw_tx_error("some other error").is_none());
    // No digits where the code belongs.
    assert!(parse_send_raw_tx_error("send raw transaction RPC error: {\"code\":,\"message\":\"x\"}").is_none());
    // A string code, a numeric message, a missing key, an empty object.
    assert!(parse_send_raw_tx_error("send raw transaction RPC error: {\"code\":\"-26\",\"message\":\"x\"}").is_none());
    assert!(parse_send_raw_tx_error("send raw transaction RPC error: {\"code\":-26,\"message\":7}").is_none());
    assert!(parse_send_raw_tx_error("send raw transaction RPC error: {\"code\":-26}").is_none());
    assert!(parse_send_raw_tx_error("send raw transaction RPC error: {}").is_none());
    // Trailing garbage after the closing brace.
    assert!(parse_send_raw_tx_error("send raw transaction RPC error: {\"code\":-26,\"message\":\"x\"}!").is_none());
    // A lone escape, and a value that is itself an object.
    assert!(parse_send_raw_tx_error("send raw transaction RPC error: {\"code\":-26,\"message\":\"a\\").is_none());
    assert!(parse_send_raw_tx_error(
        "send raw transaction RPC error: {\"code\":-26,\"message\":\"x\",\"data\":{\"a\":1}}"
    ).is_none());
}

#[test]
fn payload_tolerates_key_order_and_whitespace() {
    let body = "send raw transaction RPC error:  {\n  \"message\": \"dust\" ,\n  \"code\": -3\n}\t";
    let e = parse_send_raw_tx_error(body).expect("reordered, spaced payload parses");
    assert_eq!(e.code, -3);
    assert_eq!(e.message, "dust");
}

#[test]
fn payload_extra_entries_and_duplicates() {
    let body = "send raw transaction RPC error: {\"ok\":false,\"code\":-26,\"note\":null,\"message\":\"first\",\"message\":\"second\",\"flag\":true}";
    let e = parse_send_raw_tx_error(body).expect("extra entries are carried past");
    assert_eq!(e.code, -26);
    // The first entry under a key wins.
    assert_eq!(e.message, "first");
}

#[test]
fn payload_escapes_decode() {
    let body = "send raw transaction RPC error: {\"code\":-26,\"message\":\"a\\\"b\\\\c\\n\\t\\u0041\"}";
    let e = parse_send_raw_tx_error(body).expect("escaped message parses");
    assert_eq!(e.message, "a\"b\\c\n\tA");
    // A surrogate code point names no character.
    assert!(parse_send_raw_tx_error(
        "send raw transaction RPC error: {\"code\":-26,\"message\":\"\\uD800\"}"
    ).is_none());
}

#[test]
fn payload_code_range_and_fractions() {
    // A fractional or exponent code keeps its integer part.
    let e = parse_send_raw_tx_error("send raw transaction RPC error: {\"code\":-2.5,\"message\":\"x\"}").unwrap();
    assert_eq!(e.code, -2);
    let e = parse_send_raw_tx_error("send raw transaction RPC error: {\"code\":7e3,\"message\":\"x\"}").unwrap();
    assert_eq!(e.code, 7);
    // The whole signed 64-bit range is carried.
    let e = parse_send_raw_tx_error(
        "send raw transaction RPC error: {\"code\":9223372036854775807,\"message\":\"x\"}"
    ).unwrap();
    assert_eq!(e.code, i64::MAX);
    let e = parse_send_raw_tx_error(
        "send raw transaction RPC error: {\"code\":-9223372036854775808,\"message\":\"x\"}"
    ).unwrap();
    assert_eq!(e.code, i64::MIN);
    let e = parse_send_raw_tx_error(
        "send raw transaction RPC error: {\"code\":00042,\"message\":\"x\"}"
    ).unwrap();
    assert_eq!(e.code, 42);
    // Beyond the machine word the payload is refused.
    assert!(parse_send_raw_tx_error(
        "send raw transaction RPC error: {\"code\":9223372036854775808,\"message\":\"x\"}"
    ).is_none());
    assert!(parse_send_raw_tx_error(
        "send raw transaction RPC error: {\"code\":99999999999999999999,\"message\":\"x\"}"
    ).is_none());
}

#[test]
fn prefix_is_stripped_as_often_as_it_stands() {
    let body = "send raw transaction RPC error: send raw transaction RPC error: {\"code\":-1,\"message\":\"y\"}";
    let e = parse_send_raw_tx_error(body).expect("doubled prefix strips");
    assert_eq!(e.code, -1);
    // A bare payload parses on its own, but the broadcast flow marks only
    // prefixed bodies as rejections.
    let bare = "{\"code\":-1,\"message\":\"y\"}";
    assert!(parse_send_raw_tx_error(bare).is_some());
    match classify_broadcast_response(bare) {
        BroadcastOutcome::Unknown => {},
        _ => panic!("a bare payload is no rejection response"),
    }
}

#[test]
fn acceptance_is_the_sixty_four_digit_txid() {
    let txid = "9c3d0b61b59f56a9f59a7a1585e02ba9a9a8e509a74c21a3a44ebduh";
    assert!(!is_txid_like(txid));
    let good = "1111111111222222222233333333334444444444555555555566666666667777";
    assert!(is_txid_like(good));
    match classify_broadcast_response(good) {
        BroadcastOutcome::Accepted { txid } => assert_eq!(txid, good),
        _ => panic!("expected an acceptance"),
    }
    assert_eq!(conclude_broadcast(good), Ok(String::from(good)));
}

#[test]
fn unknown_response_is_a_failure() {
    match classify_broadcast_response("halting problem solved") {
        BroadcastOutcome::Unknown => {},
        _ => panic!("expected an unknown outcome"),
    }
    assert_eq!(
        conclude_broadcast("halting problem solved"),
        Err(RelayError::BtcSendRawTxError)
    );
}

#[test]
fn block_hash_response_not_found_means_no_action() {
    let r = interpret_block_hash_response(b"Block not found".to_vec());
    assert_eq!(r, Ok(None));
}

#[test]
fn block_hash_response_hands_hash_through() {
    let r = interpret_block_hash_response(b"00000000dead".to_vec());
    assert_eq!(r, Ok(Some(String::from("00000000dead"))));
}

#[test]
fn block_hash_response_rejects_bad_utf8() {
    let r = interpret_block_hash_response(vec![0xff, 0xfe, 0x00]);
    assert_eq!(r, Err(RelayError::HttpBodyNotUTF8));
}

#[test]
fn status_must_be_200() {
    assert_eq!(check_status(200), Ok(()));
    assert_eq!(check_status(404), Err(RelayError::HttpUnknown));
    assert_eq!(check_status(500), Err(RelayError::HttpUnknown));
}

#[test]
fn transport_faults_map_to_taxonomy() {
    assert_eq!(RelayError::from(HttpFault::DeadlineReached), RelayError::HttpDeadlineReached);
    assert_eq!(RelayError::from(HttpFault::IoError), RelayError::HttpIoError);
    assert_eq!(RelayError::from(HttpFault::Unknown), RelayError::HttpUnknown);
}

#[test]
fn chain_spec_identifiers() {
    assert_eq!(ChainSpec::from("dev"), Some(ChainSpec::Development));
    assert_eq!(ChainSpec::from(""), Some(ChainSpec::Development));
    assert_eq!(ChainSpec::from("local"), Some(ChainSpec::LocalTestnet));
    assert_eq!(ChainSpec::from("staging"), Some(ChainSpec::StagingTestnet));
    assert_eq!(ChainSpec::from("mainnet"), None);
    let c = load_spec("local").unwrap().unwrap();
    assert_eq!(c.spec, ChainSpec::LocalTestnet);
    assert!(load_spec("nope").unwrap().is_none());
    let d = ChainSpec::Development.load().unwrap();
    assert_eq!(d.spec, ChainSpec::Development);
}

#[test]
fn unsigned_validation() {
    let v = validate_unsigned(CallKind::PushHeader, 100).unwrap();
    assert_eq!(v.priority, 100);
    assert_eq!(v.provides, "push_header");
    assert_eq!(v.longevity, 1);
    assert!(v.propagate);
    let w = validate_unsigned(CallKind::PushTransaction, 7).unwrap();
    assert_eq!(w.provides, "push_transaction");
    assert!(validate_unsigned(CallKind::Other, 100).is_err());
}
