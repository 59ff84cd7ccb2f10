//! Building, signing and encoding the transaction that commits an aggregated
//! proof.
//!
//! The chain is reached from outside this library.  What stands here is
//! everything between the network calls: an address is checked before the
//! nonce is looked up, a missing nonce stops the submission before anything
//! is signed, and the bytes that go out are the encoding of the signed
//! transaction with exactly the fields that were asked for.

use alloy::consensus::{SignableTransaction, TxEip1559, TxEnvelope};
use alloy::network::eip2718::Encodable2718;
use alloy::network::TxSignerSync;
use alloy::primitives::TxKind;
use alloy::signers::local::PrivateKeySigner;
use alloy_primitives::{Address, Bytes, Signature, B256, U256};
use std::str::FromStr;
use vstd::prelude::*;

verus! {

/// Why a submission to the chain did not go through.
#[derive(Debug, PartialEq, Eq)]
pub enum SubmitError {
    /// The destination is not an address.
    InvalidAddress,
    /// The chain did not say which nonce comes next.
    NonceUnavailable,
    /// The transaction could not be signed.
    SigningFailed,
    /// The chain refused the transaction or could not be reached.
    BroadcastFailed(String),
}

/// Why a read-only call could not be made.
#[derive(Clone, Copy, Debug, PartialEq, Eq)]
pub enum EthError {
    /// The destination is not an address.
    MalformedRequest,
}

/// A fee-market transaction before it is signed, as mathematics.
pub struct TxModel {
    pub chain_id: u64,
    pub nonce: u64,
    pub to: Seq<u8>,
    pub gas_limit: u64,
    pub max_fee_per_gas: u128,
    pub max_priority_fee_per_gas: u128,
    pub value: Seq<u8>,
    pub input: Seq<u8>,
}

/// A fee-market transaction before it is signed.  `value` is a 256-bit
/// number, most significant byte first.
#[derive(Debug, PartialEq, Eq)]
pub struct UnsignedTx {
    pub chain_id: u64,
    pub nonce: u64,
    pub to: [u8; 20],
    pub gas_limit: u64,
    pub max_fee_per_gas: u128,
    pub max_priority_fee_per_gas: u128,
    pub value: [u8; 32],
    pub input: Vec<u8>,
}

impl View for UnsignedTx {
    type V = TxModel;

    open spec fn view(&self) -> TxModel {
        TxModel {
            chain_id: self.chain_id,
            nonce: self.nonce,
            to: self.to@,
            gas_limit: self.gas_limit,
            max_fee_per_gas: self.max_fee_per_gas,
            max_priority_fee_per_gas: self.max_priority_fee_per_gas,
            value: self.value@,
            input: self.input@,
        }
    }
}

/// An ECDSA signature over the secp256k1 curve, as mathematics.
pub struct SignatureModel {
    pub r: Seq<u8>,
    pub s: Seq<u8>,
    pub y_parity: bool,
}

/// An ECDSA signature over the secp256k1 curve: its two scalars, most
/// significant byte first, and the parity of the curve point's y.
#[derive(Clone, Copy, Debug, PartialEq, Eq)]
pub struct TxSignature {
    pub r: [u8; 32],
    pub s: [u8; 32],
    pub y_parity: bool,
}

impl View for TxSignature {
    type V = SignatureModel;

    open spec fn view(&self) -> SignatureModel {
        SignatureModel { r: self.r@, s: self.s@, y_parity: self.y_parity }
    }
}

/// A read-only call that is ready to go to the chain.
#[derive(Debug, PartialEq, Eq)]
pub struct CallRequest {
    pub to: [u8; 20],
    pub input: Vec<u8>,
}

/// The account whose next nonce the chain is to be asked for.
#[derive(Clone, Copy, Debug, PartialEq, Eq)]
pub struct NonceLookup {
    pub account: [u8; 20],
}

/// A signed transaction in its wire encoding, ready to be broadcast, and
/// the nonce it was signed with.
#[derive(Debug, PartialEq, Eq)]
pub struct SignedTx {
    pub raw: Vec<u8>,
    pub nonce: u64,
}

/// The 20 bytes that `text` denotes as an address, where it denotes one.
pub uninterp spec fn address_of(text: Seq<char>) -> Option<Seq<u8>>;

/// The secret scalar that `text` denotes as a private key, where it denotes
/// one.
pub uninterp spec fn private_key_of(text: Seq<char>) -> Option<Seq<u8>>;

/// The address of the account that signs with the secret scalar `key`,
/// where `key` is a usable scalar.
pub uninterp spec fn account_of(key: Seq<u8>) -> Option<Seq<u8>>;

/// The signature of the account with secret scalar `key` over `tx`, where
/// one can be made.
pub uninterp spec fn eip1559_signature(key: Seq<u8>, tx: TxModel) -> Option<SignatureModel>;

/// The wire encoding of `tx` signed with `signature`.
pub uninterp spec fn eip2718_encoding(tx: TxModel, signature: SignatureModel) -> Seq<u8>;

/// The signature as mathematics, where there is one.
pub open spec fn signature_model(signature: Option<TxSignature>) -> Option<SignatureModel> {
    match signature {
        Some(signature) => Some(signature@),
        None => None,
    }
}

/// The bytes as mathematics, where there are any.
pub open spec fn bytes20_model(bytes: Option<[u8; 20]>) -> Option<Seq<u8>> {
    match bytes {
        Some(bytes) => Some(bytes@),
        None => None,
    }
}

/// The bytes as mathematics, where there are any.
pub open spec fn bytes32_model(bytes: Option<[u8; 32]>) -> Option<Seq<u8>> {
    match bytes {
        Some(bytes) => Some(bytes@),
        None => None,
    }
}

/// Calls `Address::from_str` of alloy-primitives, which reads 40
/// hexadecimal digits of either case, with or without `0x` or `0X` before
/// them, as 20 bytes and refuses every other text; it does not look at a
/// checksum.  The contract names what it returns and claims no more than
/// that the result depends on the text alone.
#[verifier::external_body]
fn parse_address(text: &str) -> (address: Option<[u8; 20]>)
    ensures
        bytes20_model(address) == address_of(text@),
{
    match Address::from_str(text) {
        Ok(address) => Some(address.0.0),
        Err(_) => None,
    }
}

/// Calls `PrivateKeySigner::from_str` of alloy-signer-local, which reads 64
/// hexadecimal digits as a secret scalar and refuses a text that is not
/// hexadecimal, has another length, or denotes no usable scalar (zero, or
/// one beyond the order of the curve).  The contract names the scalar that
/// it accepted, as the signer hands it out again with `to_bytes`.
#[verifier::external_body]
fn parse_private_key(text: &str) -> (key: Option<[u8; 32]>)
    ensures
        bytes32_model(key) == private_key_of(text@),
{
    match PrivateKeySigner::from_str(text) {
        Ok(signer) => Some(signer.to_bytes().0),
        Err(_) => None,
    }
}

/// Calls `PrivateKeySigner::address` of alloy-signer-local on the signer
/// made from `key`: the address derived from the public key of that
/// scalar; none where the bytes are no usable scalar.
#[verifier::external_body]
fn signer_account(key: &[u8; 32]) -> (account: Option<[u8; 20]>)
    ensures
        bytes20_model(account) == account_of(key@),
{
    match PrivateKeySigner::from_bytes(&B256::new(*key)) {
        Ok(signer) => Some(signer.address().0.0),
        Err(_) => None,
    }
}

/// Calls `TxSignerSync::sign_transaction_sync` of alloy-network, as
/// alloy-signer-local implements it: a deterministic ECDSA signature of the
/// signer made from `key` over the signing hash of the fee-market
/// transaction with the fields of `tx` and an empty access list.  It fails
/// where the bytes are no usable scalar or the signer reports an error.
#[verifier::external_body]
fn sign_transaction(key: &[u8; 32], tx: &UnsignedTx) -> (signature: Option<TxSignature>)
    ensures
        signature_model(signature) == eip1559_signature(key@, tx@),
{
    let signer = PrivateKeySigner::from_bytes(&B256::new(*key)).ok()?;
    let mut unsigned = TxEip1559 {
        chain_id: tx.chain_id, nonce: tx.nonce, gas_limit: tx.gas_limit,
        max_fee_per_gas: tx.max_fee_per_gas,
        max_priority_fee_per_gas: tx.max_priority_fee_per_gas,
        to: TxKind::Call(Address::new(tx.to)), value: U256::from_be_bytes(tx.value),
        access_list: Default::default(), input: Bytes::from(tx.input.clone()),
    };
    let sig = signer.sign_transaction_sync(&mut unsigned).ok()?;
    Some(TxSignature { r: sig.r().to_be_bytes(), s: sig.s().to_be_bytes(), y_parity: sig.v() })
}

/// Calls `Encodable2718::encode_2718` of alloy-eips on the envelope of the
/// fee-market transaction with the fields of `tx`, an empty access list and
/// `signature`: the type byte followed by the RLP list of the fields and
/// the signature.
#[verifier::external_body]
fn encode_signed(tx: &UnsignedTx, signature: &TxSignature) -> (raw: Vec<u8>)
    ensures
        raw@ == eip2718_encoding(tx@, signature@),
{
    let unsigned = TxEip1559 {
        chain_id: tx.chain_id, nonce: tx.nonce, gas_limit: tx.gas_limit,
        max_fee_per_gas: tx.max_fee_per_gas,
        max_priority_fee_per_gas: tx.max_priority_fee_per_gas,
        to: TxKind::Call(Address::new(tx.to)), value: U256::from_be_bytes(tx.value),
        access_list: Default::default(), input: Bytes::from(tx.input.clone()),
    };
    let (r, s) = (U256::from_be_bytes(signature.r), U256::from_be_bytes(signature.s));
    let envelope = TxEnvelope::from(unsigned.into_signed(Signature::new(r, s, signature.y_parity)));
    let mut buf = vec![];
    envelope.encode_2718(&mut buf);
    buf
}

/// What a submission with the given nonce comes to: the destination is
/// checked first, then the transaction is signed, then encoded.
pub open spec fn signed_with_nonce(
    key: Seq<u8>,
    contract_address: Seq<char>,
    tx: TxModel,
) -> Result<Seq<u8>, SubmitError> {
    match address_of(contract_address) {
        None => Err(SubmitError::InvalidAddress),
        Some(to) => {
            let tx = TxModel { to, ..tx };
            match eip1559_signature(key, tx) {
                None => Err(SubmitError::SigningFailed),
                Some(signature) => Ok(eip2718_encoding(tx, signature)),
            }
        },
    }
}

/// A submission as it stands after the lookup of the nonce: without a
/// nonce nothing is signed.
pub open spec fn signed_after_lookup(
    key: Seq<u8>,
    tx_count: Option<u64>,
    contract_address: Seq<char>,
    tx: TxModel,
) -> Result<Seq<u8>, SubmitError> {
    match address_of(contract_address) {
        None => Err(SubmitError::InvalidAddress),
        Some(_) => match tx_count {
            None => Err(SubmitError::NonceUnavailable),
            Some(nonce) => signed_with_nonce(key, contract_address, TxModel { nonce, ..tx }),
        },
    }
}

/// The account that signs the transactions of this process.  It keeps the
/// secret scalar to itself: there is no way to read or print it.
pub struct Caller {
    chain_id: u64,
    key: [u8; 32],
    account: [u8; 20],
}

impl Caller {
    /// The secret scalar this caller signs with.
    pub closed spec fn key(&self) -> Seq<u8> {
        self.key@
    }

    /// The chain this caller was made for.
    pub closed spec fn spec_chain_id(&self) -> u64 {
        self.chain_id
    }

    /// The address of the signing account.
    pub closed spec fn spec_account(&self) -> Seq<u8> {
        self.account@
    }

    /// A caller for `chain_id` that signs with the private key written in
    /// `wallet_addr`; none where the text is no private key.
    pub fn new(chain_id: u64, wallet_addr: &str) -> (caller: Option<Self>)
        ensures
            match caller {
                Some(caller) => private_key_of(wallet_addr@) == Some(caller.key())
                    && account_of(caller.key()) == Some(caller.spec_account())
                    && caller.spec_chain_id() == chain_id,
                None => private_key_of(wallet_addr@).is_none() || account_of(
                    private_key_of(wallet_addr@).unwrap(),
                ).is_none(),
            },
    {
        match parse_private_key(wallet_addr) {
            Some(key) => match signer_account(&key) {
                Some(account) => Some(Caller { chain_id, key, account }),
                None => None,
            },
            None => None,
        }
    }

    /// The chain this caller was made for.
    #[verifier::when_used_as_spec(spec_chain_id)]
    pub fn chain_id(&self) -> (id: u64)
        ensures
            id == self.spec_chain_id(),
    {
        self.chain_id
    }

    /// The address of the signing account.
    pub fn account(&self) -> (account: [u8; 20])
        ensures
            account@ == self.spec_account(),
    {
        self.account
    }

    /// A read-only call of `contract_address` with `call` as its input.  A
    /// text that is no address is refused before anything is sent.
    pub fn tx_req(&self, call: Vec<u8>, contract_address: &str) -> (request: Result<
        CallRequest,
        EthError,
    >)
        ensures
            match request {
                Ok(request) => address_of(contract_address@) == Some(request.to@) && request.input
                    == call,
                Err(e) => e == EthError::MalformedRequest && address_of(contract_address@).is_none(),
            },
    {
        match parse_address(contract_address) {
            Some(to) => Ok(CallRequest { to, input: call }),
            None => Err(EthError::MalformedRequest),
        }
    }

    /// The first step of a submission whose nonce the chain is to supply:
    /// the destination is checked before any network call, and where it is
    /// an address the answer names the account whose nonce is needed.
    pub fn nonce_lookup(&self, contract_address: &str) -> (lookup: Result<
        NonceLookup,
        SubmitError,
    >)
        ensures
            match lookup {
                Ok(lookup) => address_of(contract_address@).is_some() && lookup.account@
                    == self.spec_account(),
                Err(e) => e == SubmitError::InvalidAddress && address_of(
                    contract_address@,
                ).is_none(),
            },
    {
        match parse_address(contract_address) {
            Some(_) => Ok(NonceLookup { account: self.account }),
            None => Err(SubmitError::InvalidAddress),
        }
    }

    /// The second step of a submission, once the lookup that `nonce_lookup`
    /// asked for has returned (`None`: it failed).  Without a nonce the submission stops
    /// before anything is signed; with one, the transaction is signed and
    /// encoded as by `send_tx_with_nonce`.
    pub fn send_tx(
        &self,
        tx_count: Option<u64>,
        call: Vec<u8>,
        contract_address: &str,
        gas_limit: u64,
        max_fee_per_gas: u128,
        max_priority_fee_per_gas: u128,
        value: [u8; 32],
        chain_id: u64,
    ) -> (signed: Result<SignedTx, SubmitError>)
        ensures
            match signed {
                Ok(tx) => tx_count == Some(tx.nonce) && Ok::<Seq<u8>, SubmitError>(tx.raw@)
                    == signed_after_lookup(
                    self.key(),
                    tx_count,
                    contract_address@,
                    TxModel {
                        chain_id,
                        nonce: 0,
                        to: Seq::empty(),
                        gas_limit,
                        max_fee_per_gas,
                        max_priority_fee_per_gas,
                        value: value@,
                        input: call@,
                    },
                ),
                Err(e) => Err::<Seq<u8>, SubmitError>(e) == signed_after_lookup(
                    self.key(),
                    tx_count,
                    contract_address@,
                    TxModel {
                        chain_id,
                        nonce: 0,
                        to: Seq::empty(),
                        gas_limit,
                        max_fee_per_gas,
                        max_priority_fee_per_gas,
                        value: value@,
                        input: call@,
                    },
                ),
            },
    {
        match tx_count {
            Some(nonce) => self.send_tx_with_nonce(
                nonce,
                call,
                contract_address,
                gas_limit,
                max_fee_per_gas,
                max_priority_fee_per_gas,
                value,
                chain_id,
            ),
            None => match parse_address(contract_address) {
                Some(_) => Err(SubmitError::NonceUnavailable),
                None => Err(SubmitError::InvalidAddress),
            },
        }
    }

    /// A submission with a nonce that the caller supplies: the destination
    /// is checked, the fee-market transaction with exactly the given fields
    /// and `call` as its input is signed with this caller's key, and the
    /// signed transaction is encoded for the wire.
    pub fn send_tx_with_nonce(
        &self,
        nonce: u64,
        call: Vec<u8>,
        contract_address: &str,
        gas_limit: u64,
        max_fee_per_gas: u128,
        max_priority_fee_per_gas: u128,
        value: [u8; 32],
        chain_id: u64,
    ) -> (signed: Result<SignedTx, SubmitError>)
        ensures
            match signed {
                Ok(tx) => tx.nonce == nonce && Ok::<Seq<u8>, SubmitError>(tx.raw@)
                    == signed_with_nonce(
                    self.key(),
                    contract_address@,
                    TxModel {
                        chain_id,
                        nonce,
                        to: Seq::empty(),
                        gas_limit,
                        max_fee_per_gas,
                        max_priority_fee_per_gas,
                        value: value@,
                        input: call@,
                    },
                ),
                Err(e) => Err::<Seq<u8>, SubmitError>(e) == signed_with_nonce(
                    self.key(),
                    contract_address@,
                    TxModel {
                        chain_id,
                        nonce,
                        to: Seq::empty(),
                        gas_limit,
                        max_fee_per_gas,
                        max_priority_fee_per_gas,
                        value: value@,
                        input: call@,
                    },
                ),
            },
    {
        let to = match parse_address(contract_address) {
            Some(address) => address,
            None => {
                return Err(SubmitError::InvalidAddress);
            },
        };
        let tx = UnsignedTx {
            chain_id,
            nonce,
            to,
            gas_limit,
            max_fee_per_gas,
            max_priority_fee_per_gas,
            value,
            input: call,
        };
        match sign_transaction(&self.key, &tx) {
            Some(signature) => Ok(SignedTx { raw: encode_signed(&tx, &signature), nonce }),
            None => Err(SubmitError::SigningFailed),
        }
    }
}

/// The last step of a submission, once the broadcast has returned: the
/// transaction's identifier with the nonce that was used, or the chain's
/// own words where it refused.
pub fn sent(broadcast: Result<[u8; 32], String>, nonce: u64) -> (outcome: Result<
    ([u8; 32], u64),
    SubmitError,
>)
    ensures
        match broadcast {
            Ok(tx_hash) => outcome == Ok::<([u8; 32], u64), SubmitError>((tx_hash, nonce)),
            Err(reason) => outcome == Err::<([u8; 32], u64), SubmitError>(
                SubmitError::BroadcastFailed(reason),
            ),
        },
{
    match broadcast {
        Ok(tx_hash) => Ok((tx_hash, nonce)),
        Err(reason) => Err(SubmitError::BroadcastFailed(reason)),
    }
}

} // verus!
