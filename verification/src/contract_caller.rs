//! The call that commits an aggregated proof to the verifier contract.

use alloy_sol_types::sol_data;
use alloy_sol_types::SolType;
use crate::caller::{Caller, NonceLookup, SignedTx, SubmitError, TxModel};
use crate::caller::{address_of, signed_after_lookup};
use crate::shared_types::{AggregationOutput, ProofModel, ProofWithPublicValues};
use vstd::prelude::*;
use vstd::string::StringSliceAdditionalSpecFns;

verus! {

/// The contract function that takes an aggregated proof, as its ABI
/// writes it.
pub const COMMIT_SIGNATURE: &'static str = "verifyAggregateProofAndUpdateRoot(bytes,bytes)";

/// The gas limit of a commit.
pub const COMMIT_GAS_LIMIT: u64 = 2_000_000;

/// The highest fee per gas that a commit offers.
pub const COMMIT_MAX_FEE_PER_GAS: u128 = 1_000_000;

/// The highest priority fee per gas that a commit offers.
pub const COMMIT_MAX_PRIORITY_FEE_PER_GAS: u128 = 100_000;

/// The Keccak-256 digest of `bytes`.
pub uninterp spec fn keccak256_of(bytes: Seq<u8>) -> Seq<u8>;

/// The ABI encoding of two byte strings as the arguments of a call.
pub uninterp spec fn abi_sequence_of(first: Seq<u8>, second: Seq<u8>) -> Seq<u8>;

/// Calls `keccak256` of alloy-primitives: the Keccak-256 digest of the
/// bytes, which the contract names.
#[verifier::external_body]
fn keccak256(bytes: &[u8]) -> (digest: [u8; 32])
    ensures
        digest@ == keccak256_of(bytes@),
{
    alloy_primitives::keccak256(bytes).0
}

/// Calls `SolType::abi_encode_sequence` of alloy-sol-types for the type
/// `(bytes, bytes)`: the head and tail encoding of the two byte strings as
/// a sequence of call arguments, which the contract names.
#[verifier::external_body]
fn abi_encode_sequence(first: &Vec<u8>, second: &Vec<u8>) -> (encoded: Vec<u8>)
    ensures
        encoded@ == abi_sequence_of(first@, second@),
{
    <(sol_data::Bytes, sol_data::Bytes) as SolType>::abi_encode_sequence(&(first, second))
}

/// The first four bytes of the digest of the function's signature, by
/// which the contract tells its functions apart.
pub open spec fn commit_selector() -> Seq<u8> {
    keccak256_of(COMMIT_SIGNATURE.spec_bytes()).subrange(0, 4)
}

/// The input of the call that commits `proof`: the selector, then the
/// public values and the proof bytes as the call's two arguments.
pub open spec fn commit_call(proof: ProofModel) -> Seq<u8> {
    commit_selector() + abi_sequence_of(proof.public_values, proof.proof)
}

/// Encodes the call that commits `artifact` to the verifier contract.
pub fn build_commit_call(artifact: &ProofWithPublicValues) -> (call: Vec<u8>)
    ensures
        call@ == commit_call(artifact@),
{
    let digest = keccak256(COMMIT_SIGNATURE.as_bytes());
    let mut call: Vec<u8> = Vec::new();
    call.push(digest[0]);
    call.push(digest[1]);
    call.push(digest[2]);
    call.push(digest[3]);
    assert(call@ == digest@.subrange(0, 4));
    let mut arguments = abi_encode_sequence(&artifact.public_values, &artifact.proof);
    call.append(&mut arguments);
    call
}

/// The transaction fields of a commit of `proof` on `chain_id`, before the
/// nonce and the destination are known.
pub open spec fn commit_tx(chain_id: u64, proof: ProofModel) -> TxModel {
    TxModel {
        chain_id,
        nonce: 0,
        to: Seq::empty(),
        gas_limit: COMMIT_GAS_LIMIT,
        max_fee_per_gas: COMMIT_MAX_FEE_PER_GAS,
        max_priority_fee_per_gas: COMMIT_MAX_PRIORITY_FEE_PER_GAS,
        value: Seq::new(32, |i: int| 0u8),
        input: commit_call(proof),
    }
}

/// The signing account together with the contract that it commits to.
pub struct ContractCaller {
    pub caller: Caller,
    pub contract_address: String,
}

impl ContractCaller {
    /// The first step of a commit: the contract's address is checked
    /// before any network call, and where it is an address the answer names
    /// the account whose nonce is needed.
    pub fn nonce_lookup(&self) -> (lookup: Result<
        NonceLookup,
        SubmitError,
    >)
        ensures
            match lookup {
                Ok(lookup) => address_of(self.contract_address@).is_some() && lookup.account@
                    == self.caller.spec_account(),
                Err(e) => e == SubmitError::InvalidAddress && address_of(
                    self.contract_address@,
                ).is_none(),
            },
    {
        self.caller.nonce_lookup(self.contract_address.as_str())
    }

    /// The second step of a commit, once the lookup that `nonce_lookup`
    /// asked for has returned (`None`: it failed): the signed transaction that calls the
    /// verifier with `output`, with the fixed fees of a commit, no value,
    /// on the caller's chain.
    pub fn verify_aggregate_proof_and_update_root(
        &self,
        output: AggregationOutput,
        tx_count: Option<u64>,
    ) -> (signed: Result<SignedTx, SubmitError>)
        ensures
            match signed {
                Ok(tx) => tx_count == Some(tx.nonce) && Ok::<Seq<u8>, SubmitError>(tx.raw@)
                    == signed_after_lookup(
                    self.caller.key(),
                    tx_count,
                    self.contract_address@,
                    commit_tx(self.caller.spec_chain_id(), output@),
                ),
                Err(e) => Err::<Seq<u8>, SubmitError>(e) == signed_after_lookup(
                    self.caller.key(),
                    tx_count,
                    self.contract_address@,
                    commit_tx(self.caller.spec_chain_id(), output@),
                ),
            },
    {
        let call = build_commit_call(&output.proof);
        let value: [u8; 32] = [0u8;32];
        assert(value@ =~= Seq::new(32, |i: int| 0u8));
        self.caller.send_tx(
            tx_count,
            call,
            self.contract_address.as_str(),
            COMMIT_GAS_LIMIT,
            COMMIT_MAX_FEE_PER_GAS,
            COMMIT_MAX_PRIORITY_FEE_PER_GAS,
            value,
            self.caller.chain_id(),
        )
    }
}

} // verus!
