//! The artifacts that peers, the aggregation worker and the ledger exchange.
//!
//! The orchestrator never looks inside a proof: it stores, copies and
//! forwards byte strings.  Every type here therefore views as plain byte
//! sequences, and every copy is proved to have the same view.

use vstd::prelude::*;

verus! {

/// What a proof with its public values is, as mathematics.
pub struct ProofModel {
    pub proof: Seq<u8>,
    pub public_values: Seq<u8>,
}

/// What an aggregation input is, as mathematics.
pub struct InputModel {
    pub proof: ProofModel,
    pub vk: Seq<u8>,
}

/// Copies a byte string.
pub fn clone_bytes(bytes: &Vec<u8>) -> (copy: Vec<u8>)
    ensures
        copy@ == bytes@,
{
    let mut copy: Vec<u8> = Vec::new();
    let mut i: usize = 0;
    while i < bytes.len()
        invariant
            i <= bytes.len(),
            copy@ == bytes@.subrange(0, i as int),
        decreases bytes.len() - i,
    {
        copy.push(bytes[i]);
        i += 1;
    }
    assert(bytes@.subrange(0, bytes.len() as int) == bytes@);
    copy
}

/// A proof as the proof system hands it out: the encoded proof and the public
/// values that it commits to.
#[derive(Debug, PartialEq, Eq)]
pub struct ProofWithPublicValues {
    pub proof: Vec<u8>,
    pub public_values: Vec<u8>,
}

impl View for ProofWithPublicValues {
    type V = ProofModel;

    open spec fn view(&self) -> ProofModel {
        ProofModel { proof: self.proof@, public_values: self.public_values@ }
    }
}

impl Clone for ProofWithPublicValues {
    fn clone(&self) -> (copy: Self)
        ensures
            copy@ == self@,
    {
        ProofWithPublicValues {
            proof: clone_bytes(&self.proof),
            public_values: clone_bytes(&self.public_values),
        }
    }
}

/// One peer's contribution to a batch: a proof and the key it verifies under.
#[derive(Debug, PartialEq, Eq)]
pub struct AggregationInput {
    pub proof: ProofWithPublicValues,
    pub vk: Vec<u8>,
}

impl View for AggregationInput {
    type V = InputModel;

    open spec fn view(&self) -> InputModel {
        InputModel { proof: self.proof@, vk: self.vk@ }
    }
}

impl Clone for AggregationInput {
    fn clone(&self) -> (copy: Self)
        ensures
            copy@ == self@,
    {
        AggregationInput { proof: self.proof.clone(), vk: clone_bytes(&self.vk) }
    }
}

/// The worker's answer to a batch: one proof that stands for all of them.
#[derive(Debug, PartialEq, Eq)]
pub struct AggregationOutput {
    pub proof: ProofWithPublicValues,
}

impl View for AggregationOutput {
    type V = ProofModel;

    open spec fn view(&self) -> ProofModel {
        self.proof@
    }
}

impl Clone for AggregationOutput {
    fn clone(&self) -> (copy: Self)
        ensures
            copy@ == self@,
    {
        AggregationOutput { proof: self.proof.clone() }
    }
}

/// The views of a run of inputs, in order.
pub open spec fn input_models(inputs: Seq<AggregationInput>) -> Seq<InputModel> {
    inputs.map_values(|input: AggregationInput| input@)
}

/// Proofs handed over in bulk, with no peer named for any of them.
#[derive(Debug, PartialEq, Eq)]
pub struct DummyProofInsert {
    pub proofs: Vec<AggregationInput>,
}

impl View for DummyProofInsert {
    type V = Seq<InputModel>;

    open spec fn view(&self) -> Seq<InputModel> {
        input_models(self.proofs@)
    }
}

/// Copies a run of inputs.
pub fn clone_inputs(inputs: &Vec<AggregationInput>) -> (copy: Vec<AggregationInput>)
    ensures
        input_models(copy@) == input_models(inputs@),
{
    let mut copy: Vec<AggregationInput> = Vec::new();
    let mut i: usize = 0;
    while i < inputs.len()
        invariant
            i <= inputs.len(),
            copy@.len() == i,
            forall|j: int| 0 <= j < i ==> copy@[j]@ == inputs@[j]@,
        decreases inputs.len() - i,
    {
        copy.push(inputs[i].clone());
        i += 1;
    }
    assert(input_models(copy@) =~= input_models(inputs@));
    copy
}

impl Clone for DummyProofInsert {
    fn clone(&self) -> (copy: Self)
        ensures
            copy@ == self@,
    {
        DummyProofInsert { proofs: clone_inputs(&self.proofs) }
    }
}

/// What the aggregation worker sends over the channel in a binary frame.
#[derive(Debug, PartialEq, Eq)]
pub enum WsMessage {
    /// The aggregated proof of a batch pushed earlier.
    Aggregation(AggregationOutput),
    /// Proofs to seed the current epoch with.
    DummyProof(DummyProofInsert),
}

impl Clone for WsMessage {
    fn clone(&self) -> (copy: Self)
        ensures
            match (*self, copy) {
                (WsMessage::Aggregation(a), WsMessage::Aggregation(b)) => a@ == b@,
                (WsMessage::DummyProof(a), WsMessage::DummyProof(b)) => a@ == b@,
                _ => false,
            },
    {
        match self {
            WsMessage::Aggregation(output) => WsMessage::Aggregation(output.clone()),
            WsMessage::DummyProof(insert) => WsMessage::DummyProof(insert.clone()),
        }
    }
}

} // verus!
