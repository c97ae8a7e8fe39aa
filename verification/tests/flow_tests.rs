//! Flow-orchestrator behavior: build, sign, broadcast and confirm in order;
//! terminal states absorb events; the advisory address check and the
//! broadcast-message classification.

use txflow::confirm::{ChainObservation, ConfirmationOutcome, ConfirmationPolicy};
use txflow::errors::TxError;
use txflow::flow::{
    addresses_match, flow_step, is_insufficient_funds_message, FlowEvent, FlowOutcome, FlowState,
};
use txflow::network::{
    evm_network_from_name, tron_network_from_name, ChainFamily, EvmNetwork, NetworkTarget,
    TronNetwork,
};

const KEY_ONE: &str = "0000000000000000000000000000000000000000000000000000000000000001";

fn tx_json() -> String {
    format!("{{\"txID\":\"{}\",\"raw_data\":{{}}}}", "2".repeat(64))
}

fn policy() -> ConfirmationPolicy {
    ConfirmationPolicy::new(120, 3000, 19)
}

#[test]
fn addresses_match_is_prefix_agnostic_and_case_insensitive() {
    assert!(addresses_match("0xAbCd12", "ABCD12"));
    assert!(addresses_match("0Xabcd12", "0xABcd12"));
    assert!(addresses_match("TG2D8vTp", "TG2D8vTp"));
    assert!(!addresses_match("0xabcd12", "0xabcd13"));
    assert!(!addresses_match("abc", "abcd"));
}

#[test]
fn insufficient_funds_classification() {
    assert!(is_insufficient_funds_message(
        "insufficient funds for gas * price + value"
    ));
    assert!(is_insufficient_funds_message("account balance 0, cannot pay"));
    assert!(!is_insufficient_funds_message("nonce too low"));
    assert!(!is_insufficient_funds_message(""));
}

#[test]
fn flow_happy_path_reaches_confirmed() {
    let p = policy();
    let s1 = flow_step(
        FlowState::AwaitingBuild,
        FlowEvent::Built { tx_json: tx_json() },
        &p,
        KEY_ONE,
    );
    let signed = match &s1 {
        FlowState::AwaitingBroadcast { signed_tx } => signed_tx.clone(),
        other => panic!("expected AwaitingBroadcast, got {:?}", other),
    };
    assert!(signed.contains("signature"));
    let s2 = flow_step(
        s1,
        FlowEvent::Broadcasted { tx_hash: "hash1".to_string() },
        &p,
        KEY_ONE,
    );
    assert_eq!(
        s2,
        FlowState::AwaitingConfirmation { tx_hash: "hash1".to_string() }
    );
    let s3 = flow_step(
        s2,
        FlowEvent::StatusObserved {
            elapsed_ms: 3000,
            observation: ChainObservation::Included { confirmations: 19 },
        },
        &p,
        KEY_ONE,
    );
    assert_eq!(
        s3,
        FlowState::Finished {
            outcome: FlowOutcome::Completed { status: ConfirmationOutcome::Confirmed },
        }
    );
}

#[test]
fn flow_keeps_polling_below_threshold() {
    let p = policy();
    let state = FlowState::AwaitingConfirmation { tx_hash: "h".to_string() };
    let next = flow_step(
        state.clone(),
        FlowEvent::StatusObserved {
            elapsed_ms: 0,
            observation: ChainObservation::Included { confirmations: 3 },
        },
        &p,
        KEY_ONE,
    );
    assert_eq!(next, state);
}

#[test]
fn flow_rejects_bad_document_at_signing() {
    let p = policy();
    let next = flow_step(
        FlowState::AwaitingBuild,
        FlowEvent::Built { tx_json: "{}".to_string() },
        &p,
        KEY_ONE,
    );
    assert_eq!(
        next,
        FlowState::Finished {
            outcome: FlowOutcome::SignRejected { error: TxError::MalformedTransaction },
        }
    );
}

#[test]
fn flow_reports_build_failure() {
    let p = policy();
    let next = flow_step(
        FlowState::AwaitingBuild,
        FlowEvent::BuildFailed { message: "node unreachable".to_string() },
        &p,
        KEY_ONE,
    );
    assert_eq!(
        next,
        FlowState::Finished {
            outcome: FlowOutcome::BuildRejected { message: "node unreachable".to_string() },
        }
    );
}

#[test]
fn flow_flags_insufficient_funds_on_broadcast_failure() {
    let p = policy();
    let state = FlowState::AwaitingBroadcast { signed_tx: "tx".to_string() };
    let next = flow_step(
        state,
        FlowEvent::BroadcastFailed { message: "insufficient funds: balance 0".to_string() },
        &p,
        KEY_ONE,
    );
    match next {
        FlowState::Finished {
            outcome: FlowOutcome::BroadcastRejected { message, insufficient_funds_hint },
        } => {
            assert_eq!(message, "insufficient funds: balance 0");
            assert!(insufficient_funds_hint);
        },
        other => panic!("expected BroadcastRejected, got {:?}", other),
    }
}

#[test]
fn finished_flow_absorbs_every_event() {
    let p = policy();
    let done = FlowState::Finished {
        outcome: FlowOutcome::Completed { status: ConfirmationOutcome::Failed },
    };
    let after = flow_step(
        done.clone(),
        FlowEvent::Broadcasted { tx_hash: "again".to_string() },
        &p,
        KEY_ONE,
    );
    assert_eq!(after, done);
}

#[test]
fn mismatched_event_leaves_state_unchanged() {
    let p = policy();
    let state = FlowState::AwaitingBuild;
    let after = flow_step(
        state.clone(),
        FlowEvent::Broadcasted { tx_hash: "early".to_string() },
        &p,
        KEY_ONE,
    );
    assert_eq!(after, state);
}

#[test]
fn network_names_resolve_with_defaults() {
    assert_eq!(tron_network_from_name("mainnet"), TronNetwork::Mainnet);
    assert_eq!(tron_network_from_name("shasta"), TronNetwork::Shasta);
    assert_eq!(tron_network_from_name("nile"), TronNetwork::Nile);
    assert_eq!(tron_network_from_name("anything"), TronNetwork::Nile);
    assert_eq!(evm_network_from_name("arbitrum-sepolia"), EvmNetwork::ArbitrumSepolia);
    assert_eq!(evm_network_from_name("arbitrum-one"), EvmNetwork::ArbitrumOne);
    assert_eq!(evm_network_from_name("mainnet"), EvmNetwork::Mainnet);
    assert_eq!(evm_network_from_name(""), EvmNetwork::Sepolia);
}

#[test]
fn per_family_transfer_policies() {
    let tron = NetworkTarget::new(ChainFamily::Tron, Vec::new(), "http://t".to_string());
    let evm = NetworkTarget::new(ChainFamily::Evm, Vec::new(), "http://e".to_string());
    let tp = tron.transfer_policy();
    let ep = evm.transfer_policy();
    assert_eq!((tp.timeout_ms, tp.poll_interval_ms, tp.min_confirmations), (120_000, 3000, 19));
    assert_eq!((ep.timeout_ms, ep.poll_interval_ms, ep.min_confirmations), (120_000, 3000, 1));
}
