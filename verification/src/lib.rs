//! Verified core of a Bitcoin SPV relay worker.
//!
//! The library holds the decision logic of an unattended relay that watches
//! the Bitcoin chain on behalf of a host ledger: which height to relay next,
//! which transactions of a confirmed block are relevant, how an inclusion
//! proof is built over them, and how concurrent worker invocations coordinate
//! through an advisory lock and a persisted checkpoint. All network and
//! ledger I/O stays outside; the functions here map observed events to the
//! next state and action, and their contracts pin those decisions down.

mod broadcast;
mod chain_spec;
mod coordinator;
mod driver;
mod errors;
mod fetch;
mod filter;
mod hashing;
mod header_codec;
mod hexutil;
mod keys;
mod merkle;
mod rpc_error;
mod strutil;
mod tracker;
mod trustee;
mod types;

pub use broadcast::BroadcastOutcome;
pub use broadcast::VoteResult;
pub use broadcast::WithdrawalProposal;
pub use broadcast::broadcast_request;
pub use broadcast::classify_broadcast_response;
pub use broadcast::conclude_broadcast;

pub use chain_spec::ChainConfig;
pub use chain_spec::ChainSpec;
pub use chain_spec::load_spec;
pub use chain_spec::spec_of_id;

pub use coordinator::FilterPushPass;
pub use coordinator::MAX_PASS_ATTEMPTS;
pub use coordinator::NodeLocalState;
pub use coordinator::PassDecision;
pub use coordinator::PassPhase;
pub use coordinator::begin_pass;
pub use coordinator::finish_filter;
pub use coordinator::lemma_idempotent_short_circuit;
pub use coordinator::lemma_one_worker_per_height;
pub use coordinator::spec_begin_decision;
pub use coordinator::start_filter;

pub use driver::CallKind;
pub use driver::UnsignedValidity;
pub use driver::WorkerStage;
pub use driver::lemma_header_relay_needs_filter_success;
pub use driver::next_stage;
pub use driver::spec_next_stage;
pub use driver::validate_unsigned;
pub use driver::worker_due;

pub use errors::HttpFault;
pub use errors::RelayError;
pub use errors::check_status;

pub use fetch::decode_response_body;
pub use fetch::interpret_block_hash_response;
pub use fetch::utf8_decode;

pub use filter::FilterNeed;
pub use filter::MAX_FETCH_ATTEMPTS;
pub use filter::TxFilter;
pub use filter::expected_mask;
pub use filter::lemma_classification_deterministic;
pub use filter::lemma_coinbase_never_queued;
pub use filter::lemma_mask_is_expected;
pub use filter::lemma_queued_of_sound;
pub use filter::queued_of;
pub use filter::relevance_of;

pub use hashing::dhash_of;

pub use header_codec::parse_header;

pub use hexutil::hex_digit;
pub use hexutil::hex_of;
pub use hexutil::is_hex_char;
pub use hexutil::is_txid_like;
pub use hexutil::spec_is_txid;

pub use keys::AuthorityId;
pub use keys::Module;
pub use keys::RelayAuthId;
pub use keys::lemma_rotated_keys_deduplicated;
pub use keys::sorted_strict;

pub use merkle::InclusionProof;
pub use merkle::ProofEntry;
pub use merkle::RelayedTxInfo;
pub use merkle::build_inclusion_proof;
pub use merkle::entry_ok;
pub use merkle::fold_path;
pub use merkle::hash_views;
pub use merkle::lemma_proof_round_trip;
pub use merkle::level_at;
pub use merkle::merkle_root;
pub use merkle::merkle_root_of;
pub use merkle::next_level;
pub use merkle::node_of;
pub use merkle::path_of;
pub use merkle::sibling_index;
pub use merkle::tree_height;
pub use merkle::verify_inclusion_proof;

pub use rpc_error::JsonVal;
pub use rpc_error::SendRawTxError;
pub use rpc_error::char_of;
pub use rpc_error::digits_end;
pub use rpc_error::digits_val;
pub use rpc_error::hex4_val;
pub use rpc_error::hex_char_val;
pub use rpc_error::is_digit;
pub use rpc_error::is_hex4;
pub use rpc_error::is_ws;
pub use rpc_error::json_entries_end;
pub use rpc_error::json_object_entries;
pub use rpc_error::json_string_end;
pub use rpc_error::json_value_end;
pub use rpc_error::literal_at;
pub use rpc_error::lookup_entry;
pub use rpc_error::number_end;
pub use rpc_error::parse_send_raw_tx_error;
pub use rpc_error::pow10;
pub use rpc_error::has_rejection_prefix;
pub use rpc_error::rejection_prefix;
pub use rpc_error::spec_has_rejection_prefix;
pub use rpc_error::simple_escape;
pub use rpc_error::spec_parse_rpc_error;
pub use rpc_error::strip_rejection_prefix;
pub use rpc_error::valid_scalar;
pub use rpc_error::ws_end;

pub use strutil::str_eq;

pub use tracker::HeaderTracker;
pub use tracker::MAX_HEADER_ATTEMPTS;
pub use tracker::TrackerAction;
pub use tracker::TrackerPhase;
pub use tracker::lemma_no_disconnected_submission;

pub use trustee::TrusteePair;
pub use trustee::TrusteeSessionInfo;
pub use trustee::current_session_number;
pub use trustee::get_trustee_pair;

pub use types::BtcHash;
pub use types::BtcHeaderInfo;
pub use types::BtcTxMeta;
pub use types::TxClass;
pub use types::contains_hash;
pub use types::find_hash;
pub use types::is_relevant;
pub use types::relevant;
