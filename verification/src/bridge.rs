//! The bridge to the aggregation worker: what goes out over the push
//! channel, and what is done with what comes back.
//!
//! A batch is pushed first and the epoch closed right after, so the worker
//! always aggregates a frozen batch.  The bridge remembers for which epochs
//! a batch is out; the worker answers in the order in which it was asked,
//! so a result belongs to the oldest of them, however late it arrives.

use crate::caller::SubmitError;
use crate::shared_types::{input_models, AggregationInput, InputModel, WsMessage};
use crate::structs::{with_proofs, State, StateModel, TimerType};
use crate::text::same_bytes;
use vstd::prelude::*;
use vstd::string::StringSliceAdditionalSpecFns;

verus! {

/// The time between two aggregation rounds, in milliseconds.
pub const AGGREGATION_PERIOD_MS: u64 = 300000;

/// How the timer's context names an aggregation round.
pub const TIMER_CONTEXT: &'static str = "\"AggregateProofs\"";

/// The peer under which seeded proofs are counted.
pub const SEED_SOURCE: &'static str = "fake.dev";

/// The text that asks the worker for seed proofs.
pub const SEED_REQUEST: &'static str = "insert_proofs_pls";

/// The text with which the worker answers a liveness check.
pub const LIVENESS_REPLY: &'static str = "pong";

/// Why an event could not be handled.
#[derive(Debug, PartialEq, Eq)]
pub enum HandlerError {
    /// A timer fired with a context that names no kind of timer.
    MalformedTimer,
    /// A peer's request is no proof submission.
    MalformedRequest,
    /// A submission to the chain was asked for, and there is no caller.
    NoCaller,
    /// A submission to the chain was asked for, and it failed.
    Submit(SubmitError),
}

/// The bytes that stand for a kind of timer in a timer's context.
pub open spec fn timer_encoding(timer: TimerType) -> Seq<u8> {
    TIMER_CONTEXT.spec_bytes()
}

/// The kind of timer that `bytes` stand for, if any.
pub open spec fn timer_decoding(bytes: Seq<u8>) -> Option<TimerType> {
    if bytes == TIMER_CONTEXT.spec_bytes() {
        Some(TimerType::AggregateProofs)
    } else {
        None
    }
}

/// Writes a kind of timer as the bytes of a timer's context.
pub fn encode_timer(timer: TimerType) -> (bytes: Vec<u8>)
    ensures
        bytes@ == timer_encoding(timer),
        timer_decoding(bytes@) == Some(timer),
{
    vstd::slice::slice_to_vec(TIMER_CONTEXT.as_bytes())
}

/// Reads the bytes of a timer's context as a kind of timer.
pub fn decode_timer(bytes: &[u8]) -> (timer: Option<TimerType>)
    ensures
        timer == timer_decoding(bytes@),
{
    if same_bytes(bytes, TIMER_CONTEXT.as_bytes()) {
        Some(TimerType::AggregateProofs)
    } else {
        None
    }
}

/// A timer to arm: after `duration_ms` it fires and hands `context` back.
#[derive(Debug, PartialEq, Eq)]
pub struct TimerRequest {
    pub duration_ms: u64,
    pub context: Option<Vec<u8>>,
}

/// The timer that starts the next aggregation round.
pub fn setup_timer() -> (request: TimerRequest)
    ensures
        request.duration_ms == AGGREGATION_PERIOD_MS,
        request.context.is_some(),
        timer_decoding(request.context.unwrap()@) == Some(TimerType::AggregateProofs),
{
    TimerRequest {
        duration_ms: AGGREGATION_PERIOD_MS,
        context: Some(encode_timer(TimerType::AggregateProofs)),
    }
}

/// The bridge's view of the channel: which one is open, if any, and the
/// epochs whose batches are out for aggregation, oldest first.
#[derive(Debug, PartialEq, Eq)]
pub struct Bridge {
    pub channel_id: Option<u32>,
    pub in_flight: Vec<u64>,
}

impl Bridge {
    /// A bridge with no channel open and nothing out.
    pub fn new() -> (bridge: Self)
        ensures
            bridge.channel_id.is_none(),
            bridge.in_flight@ == Seq::<u64>::empty(),
    {
        Bridge { channel_id: None, in_flight: Vec::new() }
    }

    /// Every epoch whose batch is out has been opened in `state`.
    pub open spec fn known_in(self, state: StateModel) -> bool {
        forall|i: int|
            0 <= i < self.in_flight@.len() ==> state.epochs.contains_key(
                #[trigger] self.in_flight@[i],
            )
    }
}

/// A batch to push over a channel in a binary frame.
#[derive(Debug, PartialEq, Eq)]
pub struct BatchPush {
    pub channel_id: u32,
    pub proofs: Vec<AggregationInput>,
}

/// A text to push over a channel in a text frame.
#[derive(Debug, PartialEq, Eq)]
pub struct TextPush {
    pub channel_id: u32,
    pub text: String,
}

/// Snapshots the current epoch's batch for the open channel and notes that
/// it is out.  Without a channel nothing is snapshot and nothing noted.
/// The store is only read.
pub fn request_aggregate_proofs(bridge: &mut Bridge, state: &State) -> (push: Option<BatchPush>)
    ensures
        final(bridge).channel_id == old(bridge).channel_id,
        match old(bridge).channel_id {
            None => push.is_none() && *final(bridge) == *old(bridge),
            Some(channel_id) => {
                &&& push.is_some()
                &&& push.unwrap().channel_id == channel_id
                &&& input_models(push.unwrap().proofs@) == state@.batch()
                &&& final(bridge).in_flight@ == old(bridge).in_flight@.push(state.current_epoch)
            },
        },
        old(bridge).known_in(state@) && state@.epochs.contains_key(state.current_epoch)
            ==> final(bridge).known_in(state@),
{
    match bridge.channel_id {
        None => None,
        Some(channel_id) => {
            let proofs = state.current_batch();
            bridge.in_flight.push(state.current_epoch);
            Some(BatchPush { channel_id, proofs })
        },
    }
}

/// What a timer event came to.
#[derive(Debug, PartialEq, Eq)]
pub enum TimerOutcome {
    /// The timer carried no context: nothing to do.
    NoContext,
    /// No channel is open: the round is skipped, and the batch keeps
    /// growing until the next one.
    NoChannel,
    /// The epoch counter has reached its last value: the round is skipped.
    Exhausted,
    /// The batch to push.  The epoch it was taken from is closed.
    Pushed(BatchPush),
}

/// Handles a timer that has fired.  For an aggregation round with a channel
/// open, the current batch is snapshot for the push and the epoch is closed
/// at once, so that later submissions land in the next epoch.  In every
/// other case neither the store nor the bridge changes.
pub fn handle_timer(context: Option<Vec<u8>>, bridge: &mut Bridge, state: &mut State) -> (outcome:
    Result<TimerOutcome, HandlerError>)
    ensures
        final(bridge).channel_id == old(bridge).channel_id,
        old(state)@.wf() ==> final(state)@.wf(),
        old(bridge).known_in(old(state)@) && old(state)@.wf() ==> final(bridge).known_in(
            final(state)@,
        ),
        match outcome {
            Ok(TimerOutcome::Pushed(push)) => {
                &&& context.is_some()
                &&& timer_decoding(context.unwrap()@) == Some(TimerType::AggregateProofs)
                &&& old(bridge).channel_id == Some(push.channel_id)
                &&& old(state).current_epoch < u64::MAX
                &&& input_models(push.proofs@) == old(state)@.batch()
                &&& final(state)@ == old(state)@.next()
                &&& final(bridge).in_flight@ == old(bridge).in_flight@.push(
                    old(state).current_epoch,
                )
            },
            Ok(TimerOutcome::NoContext) => {
                &&& context.is_none()
                &&& *final(state) == *old(state)
                &&& *final(bridge) == *old(bridge)
            },
            Ok(TimerOutcome::NoChannel) => {
                &&& context.is_some()
                &&& timer_decoding(context.unwrap()@).is_some()
                &&& old(bridge).channel_id.is_none()
                &&& *final(state) == *old(state)
                &&& *final(bridge) == *old(bridge)
            },
            Ok(TimerOutcome::Exhausted) => {
                &&& context.is_some()
                &&& timer_decoding(context.unwrap()@).is_some()
                &&& old(bridge).channel_id.is_some()
                &&& old(state).current_epoch == u64::MAX
                &&& *final(state) == *old(state)
                &&& *final(bridge) == *old(bridge)
            },
            Err(e) => {
                &&& e == HandlerError::MalformedTimer
                &&& context.is_some()
                &&& timer_decoding(context.unwrap()@).is_none()
                &&& *final(state) == *old(state)
                &&& *final(bridge) == *old(bridge)
            },
        },
{
    let context = match context {
        None => {
            return Ok(TimerOutcome::NoContext);
        },
        Some(context) => context,
    };
    match decode_timer(context.as_slice()) {
        None => Err(HandlerError::MalformedTimer),
        Some(TimerType::AggregateProofs) => {
            if bridge.channel_id.is_none() {
                return Ok(TimerOutcome::NoChannel);
            }
            if state.current_epoch == u64::MAX {
                return Ok(TimerOutcome::Exhausted);
            }
            match request_aggregate_proofs(bridge, state) {
                Some(push) => {
                    state.epoch_next();
                    Ok(TimerOutcome::Pushed(push))
                },
                None => Ok(TimerOutcome::NoChannel),
            }
        },
    }
}

/// Asks the worker for seed proofs, where a channel is open.
pub fn handle_insert_dummy_proofs(bridge: &Bridge) -> (push: Option<TextPush>)
    ensures
        match bridge.channel_id {
            None => push.is_none(),
            Some(channel_id) => push.is_some() && push.unwrap().channel_id == channel_id
                && push.unwrap().text@ == SEED_REQUEST@,
        },
{
    match bridge.channel_id {
        None => None,
        Some(channel_id) => Some(TextPush { channel_id, text: SEED_REQUEST.to_owned() }),
    }
}

/// The kinds of frame that a channel carries.
#[derive(Clone, Copy, Debug, PartialEq, Eq)]
pub enum WsMessageType {
    Text,
    Binary,
    Ping,
    Pong,
    Close,
}

/// What the local transport reports of the channel.
#[derive(Clone, Copy, Debug, PartialEq, Eq)]
pub enum HttpServerRequest {
    /// An ordinary request, which is none of the bridge's business.
    Http,
    /// The worker has connected.
    WebSocketOpen { channel_id: u32 },
    /// The worker has sent a frame.
    WebSocketPush { channel_id: u32, message_type: WsMessageType },
    /// The worker has gone.
    WebSocketClose { channel_id: u32 },
}

/// What a channel event came to.
#[derive(Clone, Copy, Debug, PartialEq, Eq)]
pub enum ChannelOutcome {
    /// The event is none of the bridge's business.
    Ignored,
    /// The channel is now the open one.
    Opened,
    /// No channel is open any more.
    Closed,
    /// A frame was announced and none was there.
    NoBlob,
    /// The worker answered a liveness check.
    KeepAlive,
    /// A text frame that says nothing known: dropped.
    UnknownToken,
    /// A binary frame that is no message: dropped.
    Malformed,
    /// An aggregated proof arrived and was filed for `epoch`.
    Filed { epoch: u64 },
    /// An aggregated proof arrived and no batch was out: dropped.
    Unexpected,
    /// Seed proofs arrived and were handed to the current epoch.
    Seeded,
}

impl ChannelOutcome {
    /// Whether the store may have changed, so that it is to be persisted.
    pub fn persists(&self) -> (changed: bool)
        ensures
            changed == (*self matches ChannelOutcome::Filed { .. } || *self
                == ChannelOutcome::Seeded),
    {
        match self {
            ChannelOutcome::Filed { .. } => true,
            ChannelOutcome::Seeded => true,
            _ => false,
        }
    }
}

/// The submissions that a seed batch stands for: every proof under the
/// seed peer's name.
pub open spec fn seed_submissions(proofs: Seq<InputModel>) -> Seq<(Seq<char>, InputModel)> {
    proofs.map_values(|proof: InputModel| (SEED_SOURCE@, proof))
}

/// All seed proofs come under one name, and a name is counted once: of a
/// seed batch the store keeps the first proof, and that only where the seed
/// peer has no proof in the current epoch yet.
pub proof fn lemma_seed_counts_once(state: StateModel, proofs: Seq<InputModel>)
    requires
        state.wf(),
    ensures
        with_proofs(state, seed_submissions(proofs)) == if proofs.len() > 0 {
            state.with_proof(SEED_SOURCE@, proofs[0])
        } else {
            state
        },
    decreases proofs.len(),
{
    let all = seed_submissions(proofs);
    if proofs.len() == 1 {
        assert(all.drop_last() =~= Seq::empty());
        assert(with_proofs(state, all.drop_last()) == state);
    } else if proofs.len() > 1 {
        assert(all.drop_last() =~= seed_submissions(proofs.drop_last()));
        lemma_seed_counts_once(state, proofs.drop_last());
        crate::structs::lemma_first_submission_wins(
            state,
            SEED_SOURCE@,
            proofs[0],
            proofs.last(),
        );
    }
}

/// Files an aggregated proof that has arrived: it belongs to the oldest
/// epoch whose batch is out.
fn file_aggregated(
    proof: crate::shared_types::ProofWithPublicValues,
    bridge: &mut Bridge,
    state: &mut State,
) -> (outcome: ChannelOutcome)
    ensures
        final(bridge).channel_id == old(bridge).channel_id,
        old(state)@.wf() ==> final(state)@.wf(),
        old(bridge).known_in(old(state)@) ==> final(bridge).known_in(final(state)@),
        old(bridge).in_flight@.len() == 0 ==> {
            &&& outcome == ChannelOutcome::Unexpected
            &&& *final(state) == *old(state)
            &&& *final(bridge) == *old(bridge)
        },
        old(bridge).in_flight@.len() > 0 ==> {
            let epoch = old(bridge).in_flight@[0];
            &&& final(bridge).in_flight@ == old(bridge).in_flight@.skip(1)
            &&& final(state)@ == old(state)@.with_aggregated(epoch, proof@)
            &&& outcome == if old(state)@.epochs.contains_key(epoch) {
                ChannelOutcome::Filed { epoch }
            } else {
                ChannelOutcome::Unexpected
            }
        },
{
    if bridge.in_flight.len() == 0 {
        return ChannelOutcome::Unexpected;
    }
    let epoch: u64 = bridge.in_flight.remove(0);
    assert(bridge.in_flight@ =~= old(bridge).in_flight@.skip(1));
    let filed = state.set_aggregated_proof(epoch, proof);
    assert(state@.epochs.dom() =~= old(state)@.epochs.dom());
    if filed {
        ChannelOutcome::Filed { epoch }
    } else {
        ChannelOutcome::Unexpected
    }
}

/// Hands seed proofs to the current epoch, each under the seed peer's
/// name, as if that peer had submitted them one after another.
fn seed(proofs: Vec<AggregationInput>, state: &mut State)
    ensures
        final(state)@ == with_proofs(
            old(state)@.with_current(),
            seed_submissions(input_models(proofs@)),
        ),
        old(state)@.wf() ==> final(state)@.wf(),
        final(state)@.epochs.dom() == old(state)@.epochs.dom().insert(old(state).current_epoch),
        final(state).current_epoch == old(state).current_epoch,
{
    state.ensure_current_epoch();
    let ghost opened = state@;
    let ghost all = seed_submissions(input_models(proofs@));
    let mut i: usize = 0;
    let n: usize = proofs.len();
    assert(all.subrange(0, 0) =~= Seq::empty());
    while i < n
        invariant
            i <= n,
            n == proofs@.len(),
            all.len() == n,
            forall|j: int| i <= j < n ==> all[j] == (SEED_SOURCE@, #[trigger] proofs@[j]@),
            state@ == with_proofs(opened, all.subrange(0, i as int)),
            state@.epochs.dom() == opened.epochs.dom(),
            state.current_epoch == opened.current_epoch,
            opened.wf() ==> state@.wf(),
        decreases n - i,
    {
        let taken = proofs[i].clone();
        assert(taken@ == all[i as int].1);
        let ghost prior = state@;
        state.add_proof(SEED_SOURCE.to_owned(), taken);
        proof {
            let prefix = all.subrange(0, i + 1);
            assert(prefix.drop_last() =~= all.subrange(0, i as int));
            assert(prefix.last() == all[i as int]);
            assert(state@.epochs.dom() =~= prior.epochs.dom());
        }
        i += 1;
    }
    assert(all.subrange(0, n as int) =~= all);
}

/// Handles what the local transport reports of the channel.
///
/// `blob` is the frame that came with a push, and `decoded` what it reads
/// as, where it is a message.  A text frame is compared with the few texts
/// that mean something; any other frame counts by what it reads as.  A
/// frame that reads as nothing is dropped, and nothing changes.
pub fn handle_http_server_request(
    request: HttpServerRequest,
    blob: Option<Vec<u8>>,
    decoded: Option<WsMessage>,
    bridge: &mut Bridge,
    state: &mut State,
) -> (outcome: ChannelOutcome)
    ensures
        old(state)@.wf() ==> final(state)@.wf(),
        old(bridge).known_in(old(state)@) ==> final(bridge).known_in(final(state)@),
        final(state).current_epoch == old(state).current_epoch,
        match request {
            HttpServerRequest::Http => {
                &&& outcome == ChannelOutcome::Ignored
                &&& *final(state) == *old(state)
                &&& *final(bridge) == *old(bridge)
            },
            HttpServerRequest::WebSocketOpen { channel_id } => {
                &&& outcome == ChannelOutcome::Opened
                &&& *final(state) == *old(state)
                &&& final(bridge).channel_id == Some(channel_id)
                &&& final(bridge).in_flight@ == Seq::<u64>::empty()
            },
            HttpServerRequest::WebSocketClose { .. } => {
                &&& outcome == ChannelOutcome::Closed
                &&& *final(state) == *old(state)
                &&& final(bridge).channel_id.is_none()
                &&& final(bridge).in_flight@ == Seq::<u64>::empty()
            },
            HttpServerRequest::WebSocketPush { message_type, .. } => {
                &&& final(bridge).channel_id == old(bridge).channel_id
                &&& match (blob, message_type, decoded) {
                    (None, _, _) => {
                        &&& outcome == ChannelOutcome::NoBlob
                        &&& *final(state) == *old(state)
                        &&& *final(bridge) == *old(bridge)
                    },
                    (Some(bytes), WsMessageType::Text, _) => {
                        &&& outcome == if bytes@ == LIVENESS_REPLY.spec_bytes() {
                            ChannelOutcome::KeepAlive
                        } else {
                            ChannelOutcome::UnknownToken
                        }
                        &&& *final(state) == *old(state)
                        &&& *final(bridge) == *old(bridge)
                    },
                    (Some(_), _, None) => {
                        &&& outcome == ChannelOutcome::Malformed
                        &&& *final(state) == *old(state)
                        &&& *final(bridge) == *old(bridge)
                    },
                    (Some(_), _, Some(WsMessage::Aggregation(output))) => {
                        if old(bridge).in_flight@.len() == 0 {
                            &&& outcome == ChannelOutcome::Unexpected
                            &&& *final(state) == *old(state)
                            &&& *final(bridge) == *old(bridge)
                        } else {
                            let epoch = old(bridge).in_flight@[0];
                            &&& final(bridge).in_flight@ == old(bridge).in_flight@.skip(1)
                            &&& final(state)@ == old(state)@.with_aggregated(epoch, output@)
                            &&& outcome == if old(state)@.epochs.contains_key(epoch) {
                                ChannelOutcome::Filed { epoch }
                            } else {
                                ChannelOutcome::Unexpected
                            }
                        }
                    },
                    (Some(_), _, Some(WsMessage::DummyProof(insert))) => {
                        &&& outcome == ChannelOutcome::Seeded
                        &&& *final(bridge) == *old(bridge)
                        &&& final(state)@ == with_proofs(
                            old(state)@.with_current(),
                            seed_submissions(insert@),
                        )
                    },
                }
            },
        },
{
    match request {
        HttpServerRequest::Http => ChannelOutcome::Ignored,
        HttpServerRequest::WebSocketOpen { channel_id } => {
            bridge.channel_id = Some(channel_id);
            bridge.in_flight = Vec::new();
            ChannelOutcome::Opened
        },
        HttpServerRequest::WebSocketClose { .. } => {
            bridge.channel_id = None;
            bridge.in_flight = Vec::new();
            ChannelOutcome::Closed
        },
        HttpServerRequest::WebSocketPush { message_type, .. } => {
            let bytes = match blob {
                None => {
                    return ChannelOutcome::NoBlob;
                },
                Some(bytes) => bytes,
            };
            match message_type {
                WsMessageType::Text => {
                    if same_bytes(bytes.as_slice(), LIVENESS_REPLY.as_bytes()) {
                        ChannelOutcome::KeepAlive
                    } else {
                        ChannelOutcome::UnknownToken
                    }
                },
                _ => match decoded {
                    None => ChannelOutcome::Malformed,
                    Some(WsMessage::Aggregation(output)) => file_aggregated(
                        output.proof,
                        bridge,
                        state,
                    ),
                    Some(WsMessage::DummyProof(insert)) => {
                        seed(insert.proofs, state);
                        proof {
                            if old(bridge).known_in(old(state)@) {
                                assert(bridge.known_in(state@));
                            }
                        }
                        ChannelOutcome::Seeded
                    },
                },
            }
        },
    }
}

} // verus!
