//! The aggregation worker's side of the channel: what each frame that
//! arrives asks of it.

use crate::bridge::{LIVENESS_REPLY, SEED_REQUEST};
use crate::text::same_text;
use vstd::prelude::*;

verus! {

/// The text that checks whether the worker is alive.
pub const LIVENESS_CHECK: &'static str = "send";

/// A frame as the worker receives it.
#[derive(Debug, PartialEq, Eq)]
pub enum WorkerFrame {
    /// A batch to aggregate, still encoded.
    Binary(Vec<u8>),
    /// A control text.
    Text(String),
    /// The orchestrator has closed the connection.
    Close,
    /// A frame of any other kind.
    Other,
}

/// What the worker is to do with a frame.
#[derive(Debug, PartialEq, Eq)]
pub enum WorkerAction {
    /// Decode the batch, aggregate it and send the result back.
    Aggregate(Vec<u8>),
    /// Send the seed proofs.
    SendSeed,
    /// Send this text back.
    Reply(String),
    /// Give the connection up: it is closed.
    Stop,
    /// Nothing.
    Nothing,
}

/// Decides what the worker does with a frame.  A closed connection ends
/// the worker's loop; it does not try again by itself.
pub fn handle_frame(frame: WorkerFrame) -> (action: WorkerAction)
    ensures
        match frame {
            WorkerFrame::Binary(batch) => action == WorkerAction::Aggregate(batch),
            WorkerFrame::Text(text) => if text@ == SEED_REQUEST@ {
                action == WorkerAction::SendSeed
            } else if text@ == LIVENESS_CHECK@ {
                action matches WorkerAction::Reply(reply) && reply@ == LIVENESS_REPLY@
            } else {
                action == WorkerAction::Nothing
            },
            WorkerFrame::Close => action == WorkerAction::Stop,
            WorkerFrame::Other => action == WorkerAction::Nothing,
        },
{
    match frame {
        WorkerFrame::Binary(batch) => WorkerAction::Aggregate(batch),
        WorkerFrame::Text(text) => {
            if same_text(text.as_str(), SEED_REQUEST) {
                WorkerAction::SendSeed
            } else if same_text(text.as_str(), LIVENESS_CHECK) {
                WorkerAction::Reply(LIVENESS_REPLY.to_owned())
            } else {
                WorkerAction::Nothing
            }
        },
        WorkerFrame::Close => WorkerAction::Stop,
        WorkerFrame::Other => WorkerAction::Nothing,
    }
}

} // verus!
