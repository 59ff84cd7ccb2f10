use alloy::consensus::{SignableTransaction, TxEip1559, TxEnvelope};
use alloy::network::eip2718::Encodable2718;
use alloy::network::TxSignerSync;
use alloy::primitives::TxKind;
use alloy::signers::local::PrivateKeySigner;
use alloy_primitives::{keccak256, Address, Bytes, U256};
use std::str::FromStr;
use zkp_aggregator::caller::{sent, CallRequest, Caller, EthError, NonceLookup, SubmitError};
use zkp_aggregator::contract_caller::{
    build_commit_call, ContractCaller, COMMIT_GAS_LIMIT, COMMIT_MAX_FEE_PER_GAS,
    COMMIT_MAX_PRIORITY_FEE_PER_GAS, COMMIT_SIGNATURE,
};
use zkp_aggregator::shared_types::{AggregationOutput, ProofWithPublicValues};

const KEY: &str = "ac0974bec39a17e36ba4a6b4d238ff944bacb478cbed5efcae784d7bf4f2ff80";
const ACCOUNT: [u8; 20] = [
    0xf3, 0x9f, 0xd6, 0xe5, 0x1a, 0xad, 0x88, 0xf6, 0xf4, 0xce, 0x6a, 0xb8, 0x82, 0x72, 0x79, 0xcf,
    0xff, 0xb9, 0x22, 0x66,
];
const CONTRACT: &str = "0x5FbDB2315678afecb367f032d93F642f64180aa3";
const CONTRACT_BYTES: [u8; 20] = [
    0x5f, 0xbd, 0xb2, 0x31, 0x56, 0x78, 0xaf, 0xec, 0xb3, 0x67, 0xf0, 0x32, 0xd9, 0x3f, 0x64, 0x2f,
    0x64, 0x18, 0x0a, 0xa3,
];

fn word(last: u8) -> Vec<u8> {
    let mut bytes = vec![0u8; 32];
    bytes[31] = last;
    bytes
}

fn padded(data: &[u8]) -> Vec<u8> {
    let mut bytes = data.to_vec();
    bytes.resize(32, 0);
    bytes
}

fn expected_raw(nonce: u64, input: Vec<u8>, gas_limit: u64, fee: u128, tip: u128, value: u64, chain_id: u64) -> Vec<u8> {
    let signer = PrivateKeySigner::from_str(KEY).unwrap();
    let mut tx = TxEip1559 {
        chain_id,
        nonce,
        gas_limit,
        max_fee_per_gas: fee,
        max_priority_fee_per_gas: tip,
        to: TxKind::Call(Address::from_str(CONTRACT).unwrap()),
        value: U256::from(value),
        access_list: Default::default(),
        input: Bytes::from(input),
    };
    let signature = signer.sign_transaction_sync(&mut tx).unwrap();
    let mut buf = vec![];
    TxEnvelope::from(tx.into_signed(signature)).encode_2718(&mut buf);
    buf
}

fn value_bytes(value: u64) -> [u8; 32] {
    let mut bytes = [0u8; 32];
    bytes[24..].copy_from_slice(&value.to_be_bytes());
    bytes
}

#[test]
fn caller_knows_its_account() {
    let caller = Caller::new(31337, KEY).unwrap();
    assert_eq!(caller.account(), ACCOUNT);
    assert_eq!(caller.chain_id(), 31337);
    let prefixed = Caller::new(1, &format!("0x{}", KEY)).unwrap();
    assert_eq!(prefixed.account(), ACCOUNT);
}

#[test]
fn caller_refuses_what_is_no_key() {
    assert!(Caller::new(1, "").is_none());
    assert!(Caller::new(1, "not a key").is_none());
    assert!(Caller::new(1, &KEY[..62]).is_none());
    assert!(Caller::new(1, &"0".repeat(64)).is_none());
}

#[test]
fn call_request_names_the_contract() {
    let caller = Caller::new(1, KEY).unwrap();
    assert_eq!(
        caller.tx_req(vec![1, 2, 3], CONTRACT),
        Ok(CallRequest { to: CONTRACT_BYTES, input: vec![1, 2, 3] })
    );
    assert_eq!(caller.tx_req(vec![1, 2, 3], "0x1234"), Err(EthError::MalformedRequest));
}

#[test]
fn address_is_checked_before_the_lookup() {
    let caller = Caller::new(1, KEY).unwrap();
    assert_eq!(caller.nonce_lookup(CONTRACT), Ok(NonceLookup { account: ACCOUNT }));
    assert_eq!(caller.nonce_lookup("contract"), Err(SubmitError::InvalidAddress));
    assert_eq!(caller.nonce_lookup(""), Err(SubmitError::InvalidAddress));
}

#[test]
fn signed_transaction_is_what_the_signer_makes() {
    let caller = Caller::new(1, KEY).unwrap();
    let signed = caller
        .send_tx_with_nonce(5, vec![0xde, 0xad], CONTRACT, 21000, 2000, 10, value_bytes(77), 31337)
        .unwrap();
    assert_eq!(signed.nonce, 5);
    assert_eq!(signed.raw[0], 0x02);
    assert_eq!(signed.raw, expected_raw(5, vec![0xde, 0xad], 21000, 2000, 10, 77, 31337));
    assert_ne!(signed.raw, expected_raw(6, vec![0xde, 0xad], 21000, 2000, 10, 77, 31337));
}

#[test]
fn signing_is_deterministic() {
    let caller = Caller::new(1, KEY).unwrap();
    let once = caller.send_tx_with_nonce(0, vec![], CONTRACT, 1, 1, 1, value_bytes(0), 1).unwrap();
    let again = caller.send_tx_with_nonce(0, vec![], CONTRACT, 1, 1, 1, value_bytes(0), 1).unwrap();
    assert_eq!(once, again);
}

#[test]
fn explicit_nonce_with_bad_address() {
    let caller = Caller::new(1, KEY).unwrap();
    assert_eq!(
        caller.send_tx_with_nonce(0, vec![], "0xzz", 1, 1, 1, value_bytes(0), 1),
        Err(SubmitError::InvalidAddress)
    );
}

#[test]
fn missing_nonce_stops_the_submission() {
    let caller = Caller::new(1, KEY).unwrap();
    assert_eq!(
        caller.send_tx(None, vec![1], CONTRACT, 1, 1, 1, value_bytes(0), 1),
        Err(SubmitError::NonceUnavailable)
    );
    assert_eq!(
        caller.send_tx(None, vec![1], "nowhere", 1, 1, 1, value_bytes(0), 1),
        Err(SubmitError::InvalidAddress)
    );
    assert_eq!(
        caller.send_tx(Some(3), vec![1], "nowhere", 1, 1, 1, value_bytes(0), 1),
        Err(SubmitError::InvalidAddress)
    );
}

#[test]
fn looked_up_nonce_is_used() {
    let caller = Caller::new(1, KEY).unwrap();
    let signed = caller.send_tx(Some(42), vec![1], CONTRACT, 100, 9, 3, value_bytes(0), 10).unwrap();
    assert_eq!(signed.nonce, 42);
    assert_eq!(signed.raw, expected_raw(42, vec![1], 100, 9, 3, 0, 10));
}

#[test]
fn broadcast_result_is_passed_on() {
    assert_eq!(sent(Ok([7u8; 32]), 4), Ok(([7u8; 32], 4)));
    assert_eq!(
        sent(Err("nonce too low".to_string()), 4),
        Err(SubmitError::BroadcastFailed("nonce too low".to_string()))
    );
}

#[test]
fn commit_call_is_selector_and_arguments() {
    let artifact = ProofWithPublicValues { proof: vec![2, 3], public_values: vec![1] };
    let mut expected = keccak256(b"verifyAggregateProofAndUpdateRoot(bytes,bytes)")[..4].to_vec();
    expected.extend(word(0x40));
    expected.extend(word(0x80));
    expected.extend(word(1));
    expected.extend(padded(&[1]));
    expected.extend(word(2));
    expected.extend(padded(&[2, 3]));
    assert_eq!(build_commit_call(&artifact), expected);
    assert_eq!(COMMIT_SIGNATURE, "verifyAggregateProofAndUpdateRoot(bytes,bytes)");
}

#[test]
fn commit_call_of_empty_artifact() {
    let artifact = ProofWithPublicValues { proof: vec![], public_values: vec![] };
    let call = build_commit_call(&artifact);
    assert_eq!(call.len(), 4 + 4 * 32);
    assert_eq!(call[4..36], word(0x40)[..]);
    assert_eq!(call[36..68], word(0x60)[..]);
}

#[test]
fn commit_uses_the_fixed_fees() {
    let contract = ContractCaller {
        caller: Caller::new(31337, KEY).unwrap(),
        contract_address: CONTRACT.to_string(),
    };
    assert_eq!(contract.nonce_lookup(), Ok(NonceLookup { account: ACCOUNT }));
    let artifact = ProofWithPublicValues { proof: vec![2, 3], public_values: vec![1] };
    let output = AggregationOutput { proof: artifact.clone() };
    let signed = contract.verify_aggregate_proof_and_update_root(output, Some(8)).unwrap();
    assert_eq!(signed.nonce, 8);
    assert_eq!(
        signed.raw,
        expected_raw(8, build_commit_call(&artifact), 2_000_000, 1_000_000, 100_000, 0, 31337)
    );
    assert_eq!(COMMIT_GAS_LIMIT, 2_000_000);
    assert_eq!(COMMIT_MAX_FEE_PER_GAS, 1_000_000);
    assert_eq!(COMMIT_MAX_PRIORITY_FEE_PER_GAS, 100_000);
}

#[test]
fn commit_fails_before_the_network() {
    let contract = ContractCaller {
        caller: Caller::new(31337, KEY).unwrap(),
        contract_address: "somewhere".to_string(),
    };
    assert_eq!(contract.nonce_lookup(), Err(SubmitError::InvalidAddress));
    let output = AggregationOutput {
        proof: ProofWithPublicValues { proof: vec![], public_values: vec![] },
    };
    assert_eq!(
        contract.verify_aggregate_proof_and_update_root(output.clone(), Some(1)),
        Err(SubmitError::InvalidAddress)
    );
    let contract = ContractCaller {
        caller: Caller::new(31337, KEY).unwrap(),
        contract_address: CONTRACT.to_string(),
    };
    assert_eq!(
        contract.verify_aggregate_proof_and_update_root(output, None),
        Err(SubmitError::NonceUnavailable)
    );
}
