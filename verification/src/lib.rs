//! An orchestrator that collects proofs from peers epoch by epoch, hands
//! each epoch's batch to an aggregation worker, files the aggregated proof
//! that comes back, and prepares the transaction that commits it to a
//! ledger.
//!
//! The library decides; it performs no input or output.  Every handler
//! takes the event that arrived as plain values and returns what is to be
//! sent, shown or stored.

use vstd::prelude::*;
use vstd::string::StringExecFns;

pub mod bridge;
pub mod caller;
pub mod contract_caller;
pub mod persist;
pub mod shared_types;
pub mod structs;
pub mod terminal;
pub mod text;
pub mod worker;

use crate::bridge::HandlerError;
use crate::structs::{ProofSubmissionRequest, State};
use crate::text::same_text;

verus! {

/// The process through which the channel's events arrive.
pub const HTTP_SERVER_ADDRESS: &'static str = "http_server:distro:sys";

/// The process that fires the timers.
pub const TIMER_ADDRESS: &'static str = "timer:distro:sys";

/// The package from which the operator's commands come.
pub const TERMINAL_PACKAGE: &'static str = "terminal";

/// Who sent a message: a process of a package of a publisher, on a node.
#[derive(Debug, PartialEq, Eq)]
pub struct Address {
    pub node: String,
    pub process_name: String,
    pub package_name: String,
    pub publisher_node: String,
}

impl Address {
    /// The process in full: name, package and publisher, with colons
    /// between them.
    pub open spec fn process_text(self) -> Seq<char> {
        self.process_name@ + ":"@ + self.package_name@ + ":"@ + self.publisher_node@
    }

    /// The process in full: name, package and publisher, with colons
    /// between them.
    pub fn process(&self) -> (text: String)
        ensures
            text@ == self.process_text(),
    {
        let mut text = self.process_name.clone();
        text.append(":");
        text.append(self.package_name.as_str());
        text.append(":");
        text.append(self.publisher_node.as_str());
        text
    }
}

/// The two kinds of message that the host delivers.
#[derive(Clone, Copy, Debug, PartialEq, Eq)]
pub enum MessageKind {
    Request,
    Response,
}

/// Which part of the orchestrator a message is for.
#[derive(Clone, Copy, Debug, PartialEq, Eq)]
pub enum Dispatch {
    /// A timer has fired: for `handle_timer`.
    Timer,
    /// The local transport reports of the channel: for
    /// `handle_http_server_request`.
    Channel,
    /// A report of the channel that does not come from this node: rejected.
    Spoofed,
    /// A command of the operator: for `handle_terminal_debug`.
    Terminal,
    /// A request of a peer: for `handle_kinode_messages`.
    Submission,
    /// None of the orchestrator's business.
    Ignored,
}

/// Which part of the orchestrator a message of `kind` from `source` is for,
/// on the node of `our`.  Only this node's own transport may report of the
/// channel.
pub open spec fn dispatch_of(our: Address, source: Address, kind: MessageKind) -> Dispatch {
    match kind {
        MessageKind::Response => if source.process_text() == TIMER_ADDRESS@ {
            Dispatch::Timer
        } else {
            Dispatch::Ignored
        },
        MessageKind::Request => if source.process_text() == HTTP_SERVER_ADDRESS@ {
            if source.node@ == our.node@ {
                Dispatch::Channel
            } else {
                Dispatch::Spoofed
            }
        } else if source.package_name@ == TERMINAL_PACKAGE@ {
            Dispatch::Terminal
        } else {
            Dispatch::Submission
        },
    }
}

/// Decides which part of the orchestrator a message is for.
pub fn handle_message(our: &Address, source: &Address, kind: MessageKind) -> (dispatch: Dispatch)
    ensures
        dispatch == dispatch_of(*our, *source, kind),
{
    let process = source.process();
    match kind {
        MessageKind::Response => {
            if same_text(process.as_str(), TIMER_ADDRESS) {
                Dispatch::Timer
            } else {
                Dispatch::Ignored
            }
        },
        MessageKind::Request => {
            if same_text(process.as_str(), HTTP_SERVER_ADDRESS) {
                if same_text(source.node.as_str(), our.node.as_str()) {
                    Dispatch::Channel
                } else {
                    Dispatch::Spoofed
                }
            } else if same_text(source.package_name.as_str(), TERMINAL_PACKAGE) {
                Dispatch::Terminal
            } else {
                Dispatch::Submission
            }
        },
    }
}

/// Handles a request of a peer, as far as it could be read (`None`: it is
/// no proof submission).  A submission is counted in the current epoch
/// unless its source has submitted there before; the answer says whether
/// it was counted.
pub fn handle_kinode_messages(request: Option<ProofSubmissionRequest>, state: &mut State) -> (counted:
    Result<bool, HandlerError>)
    ensures
        old(state)@.wf() ==> final(state)@.wf(),
        match request {
            None => counted == Err::<bool, HandlerError>(HandlerError::MalformedRequest)
                && *final(state) == *old(state),
            Some(request) => counted == Ok::<bool, HandlerError>(
                old(state)@.accepts(request.source@),
            ) && final(state)@ == old(state)@.with_proof(
                request.source@,
                request.aggregation_input@,
            ),
        },
{
    match request {
        None => Err(HandlerError::MalformedRequest),
        Some(request) => Ok(state.add_proof(request.source, request.aggregation_input)),
    }
}

} // verus!
