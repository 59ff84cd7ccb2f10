//! The operator's commands: read-only looks at the store, and the triggers
//! for a seed request, a batch push and a submission to the chain.

use crate::bridge::{handle_insert_dummy_proofs, request_aggregate_proofs};
use crate::bridge::{BatchPush, Bridge, HandlerError, TextPush, SEED_REQUEST};
use crate::caller::{address_of, NonceLookup, SubmitError};
use crate::contract_caller::ContractCaller;
use crate::shared_types::{input_models, AggregationOutput};
use crate::structs::{increasing, State};
use crate::text::{chars_of, has_prefix, parse_u64, parsed_u64, same_text, starts_with};
use vstd::prelude::*;

verus! {

pub const PRINT_STATE: &'static str = "print_state";

pub const CURRENT_EPOCH: &'static str = "current_epoch";

pub const LIST_EPOCHS: &'static str = "list_epochs";

pub const PRINT_EPOCH: &'static str = "print_epoch:";

pub const INSERT_DUMMY_PROOFS: &'static str = "insert_dummy_proofs";

pub const REQUEST_AGGREGATE_PROOFS: &'static str = "request_aggregate_proofs";

pub const SEND_TO_CHAIN: &'static str = "send_to_chain";

/// What the operator can ask for.
#[derive(Clone, Copy, Debug, PartialEq, Eq)]
pub enum Command {
    /// Show the whole store.
    PrintState,
    /// Show the current epoch's number and what it holds.
    CurrentEpoch,
    /// Show the numbers of all epochs.
    ListEpochs,
    /// Show what one epoch holds; none where no number was given.
    PrintEpoch(Option<u64>),
    /// Ask the worker for seed proofs.
    InsertDummyProofs,
    /// Push the current batch to the worker, without closing the epoch.
    RequestAggregateProofs,
    /// Commit the current epoch's aggregated proof to the chain.
    SendToChain,
    /// Anything else.
    Unknown,
}

/// Whether the first `end` characters of `text` hold no colon, and a colon
/// or the end of the text follows them.
pub open spec fn is_field_end(text: Seq<char>, end: int) -> bool {
    &&& 0 <= end <= text.len()
    &&& forall|i: int| 0 <= i < end ==> #[trigger] text[i] != ':'
    &&& end < text.len() ==> text[end] == ':'
}

/// The beginning of `text` up to its first colon, or all of it where it
/// has none.
pub open spec fn first_field(text: Seq<char>) -> Seq<char> {
    text.subrange(0, choose|end: int| is_field_end(text, end))
}

/// The command that `text` spells.  Commands are case-sensitive; the
/// number of `print_epoch:` is what stands between the first colon and the
/// second, or the end.
pub open spec fn command_of(text: Seq<char>) -> Command {
    if text == PRINT_STATE@ {
        Command::PrintState
    } else if text == CURRENT_EPOCH@ {
        Command::CurrentEpoch
    } else if text == LIST_EPOCHS@ {
        Command::ListEpochs
    } else if has_prefix(text, PRINT_EPOCH@) {
        Command::PrintEpoch(parsed_u64(first_field(text.skip(PRINT_EPOCH@.len() as int))))
    } else if text == INSERT_DUMMY_PROOFS@ {
        Command::InsertDummyProofs
    } else if text == REQUEST_AGGREGATE_PROOFS@ {
        Command::RequestAggregateProofs
    } else if text == SEND_TO_CHAIN@ {
        Command::SendToChain
    } else {
        Command::Unknown
    }
}

/// A field has one end only.
pub proof fn lemma_field_end_unique(text: Seq<char>, a: int, b: int)
    requires
        is_field_end(text, a),
        is_field_end(text, b),
    ensures
        a == b,
{
    if a < b {
        assert(text[a] != ':');
    } else if b < a {
        assert(text[b] != ':');
    }
}

/// Reads the number of a `print_epoch:` command, whose characters are
/// `text` and whose prefix is `skip` characters long.
fn parse_epoch_field(text: &Vec<char>, skip: usize) -> (number: Option<u64>)
    requires
        skip <= text.len(),
    ensures
        number == parsed_u64(first_field(text@.skip(skip as int))),
{
    let ghost rest = text@.skip(skip as int);
    let mut end: usize = skip;
    while end < text.len() && text[end] != ':'
        invariant
            skip <= end <= text.len(),
            rest == text@.skip(skip as int),
            forall|i: int| 0 <= i < end - skip ==> #[trigger] rest[i] != ':',
        decreases text.len() - end,
    {
        end += 1;
    }
    proof {
        assert(is_field_end(rest, end - skip));
        let chosen = choose|e: int| is_field_end(rest, e);
        lemma_field_end_unique(rest, chosen, end - skip);
        assert(rest.subrange(0, end - skip) =~= text@.subrange(skip as int, end as int));
    }
    parse_u64(text, skip, end)
}

/// Reads a command.
pub fn parse_command(text: &str) -> (command: Command)
    ensures
        command == command_of(text@),
{
    if same_text(text, PRINT_STATE) {
        return Command::PrintState;
    }
    if same_text(text, CURRENT_EPOCH) {
        return Command::CurrentEpoch;
    }
    if same_text(text, LIST_EPOCHS) {
        return Command::ListEpochs;
    }
    let chars = chars_of(text);
    let prefix = chars_of(PRINT_EPOCH);
    if starts_with(&chars, &prefix) {
        return Command::PrintEpoch(parse_epoch_field(&chars, prefix.len()));
    }
    if same_text(text, INSERT_DUMMY_PROOFS) {
        return Command::InsertDummyProofs;
    }
    if same_text(text, REQUEST_AGGREGATE_PROOFS) {
        return Command::RequestAggregateProofs;
    }
    if same_text(text, SEND_TO_CHAIN) {
        return Command::SendToChain;
    }
    Command::Unknown
}

/// A commit that is ready to start: the proof to commit, and the account
/// whose nonce is to be looked up first.
#[derive(Debug, PartialEq, Eq)]
pub struct ChainSubmission {
    pub output: AggregationOutput,
    pub lookup: NonceLookup,
}

/// Starts the commit of `output`: without a caller, or with a contract
/// address that is none, it fails before any network call.
pub fn send_to_chain(output: AggregationOutput, eth_caller: &Option<ContractCaller>) -> (started:
    Result<ChainSubmission, HandlerError>)
    ensures
        match *eth_caller {
            None => started == Err::<ChainSubmission, HandlerError>(HandlerError::NoCaller),
            Some(caller) => match address_of(caller.contract_address@) {
                None => started == Err::<ChainSubmission, HandlerError>(
                    HandlerError::Submit(SubmitError::InvalidAddress),
                ),
                Some(_) => started.is_ok() && started.unwrap().output == output
                    && started.unwrap().lookup.account@ == caller.caller.spec_account(),
            },
        },
{
    match eth_caller {
        None => Err(HandlerError::NoCaller),
        Some(caller) => match caller.nonce_lookup() {
            Ok(lookup) => Ok(ChainSubmission { output, lookup }),
            Err(e) => Err(HandlerError::Submit(e)),
        },
    }
}

/// What a command came to: what to show, or what to send.
#[derive(Debug, PartialEq, Eq)]
pub enum TerminalOutcome {
    /// Show the whole store.
    PrintState,
    /// Show the current epoch, whose number this is, and what it holds.
    CurrentEpoch { epoch: u64 },
    /// Show these epoch numbers, which are in increasing order.
    ListEpochs { epochs: Vec<u64> },
    /// Show what `epoch` holds, or that it holds nothing where it is not
    /// `known`.
    PrintEpoch { epoch: u64, known: bool },
    /// `print_epoch:` came without a number: nothing to show.
    NoEpochNumber,
    /// The seed request to push; none where no channel is open.
    SeedRequest(Option<TextPush>),
    /// The batch to push; none where no channel is open.
    BatchRequest(Option<BatchPush>),
    /// The current epoch has no aggregated proof: nothing is sent.
    NoAggregatedProof,
    /// The commit to start.
    Submit(ChainSubmission),
    /// The command says nothing known.
    Unknown,
}

/// Handles a command of the operator.  The store is only read; the bridge
/// changes only by a batch push, which notes the current epoch as out.
pub fn handle_terminal_debug(
    body: &str,
    state: &State,
    bridge: &mut Bridge,
    eth_caller: &Option<ContractCaller>,
) -> (outcome: Result<TerminalOutcome, HandlerError>)
    ensures
        final(bridge).channel_id == old(bridge).channel_id,
        command_of(body@) != Command::RequestAggregateProofs ==> *final(bridge) == *old(bridge),
        old(bridge).known_in(state@) && state@.epochs.contains_key(state.current_epoch)
            ==> final(bridge).known_in(state@),
        match command_of(body@) {
            Command::PrintState => outcome == Ok::<TerminalOutcome, HandlerError>(
                TerminalOutcome::PrintState,
            ),
            Command::CurrentEpoch => outcome == Ok::<TerminalOutcome, HandlerError>(
                TerminalOutcome::CurrentEpoch { epoch: state.current_epoch },
            ),
            Command::ListEpochs => outcome matches Ok(TerminalOutcome::ListEpochs { epochs })
                && epochs@.to_set() == state@.epochs.dom() && increasing(epochs@),
            Command::PrintEpoch(Some(epoch)) => outcome == Ok::<TerminalOutcome, HandlerError>(
                TerminalOutcome::PrintEpoch { epoch, known: state@.epochs.contains_key(epoch) },
            ),
            Command::PrintEpoch(None) => outcome == Ok::<TerminalOutcome, HandlerError>(
                TerminalOutcome::NoEpochNumber,
            ),
            Command::InsertDummyProofs => outcome matches Ok(TerminalOutcome::SeedRequest(push))
                && match old(bridge).channel_id {
                None => push.is_none(),
                Some(channel_id) => push.is_some() && push.unwrap().channel_id == channel_id
                    && push.unwrap().text@ == SEED_REQUEST@,
            },
            Command::RequestAggregateProofs => outcome matches Ok(
                TerminalOutcome::BatchRequest(push),
            ) && match old(bridge).channel_id {
                None => push.is_none() && *final(bridge) == *old(bridge),
                Some(channel_id) => {
                    &&& push.is_some()
                    &&& push.unwrap().channel_id == channel_id
                    &&& input_models(push.unwrap().proofs@) == state@.batch()
                    &&& final(bridge).in_flight@ == old(bridge).in_flight@.push(
                        state.current_epoch,
                    )
                },
            },
            Command::SendToChain => match state@.aggregated(state.current_epoch) {
                None => outcome == Ok::<TerminalOutcome, HandlerError>(
                    TerminalOutcome::NoAggregatedProof,
                ),
                Some(proof) => match *eth_caller {
                    None => outcome == Err::<TerminalOutcome, HandlerError>(HandlerError::NoCaller),
                    Some(caller) => match address_of(caller.contract_address@) {
                        None => outcome == Err::<TerminalOutcome, HandlerError>(
                            HandlerError::Submit(SubmitError::InvalidAddress),
                        ),
                        Some(_) => outcome matches Ok(TerminalOutcome::Submit(started))
                            && started.output@ == proof && started.lookup.account@
                            == caller.caller.spec_account(),
                    },
                },
            },
            Command::Unknown => outcome == Ok::<TerminalOutcome, HandlerError>(
                TerminalOutcome::Unknown,
            ),
        },
{
    match parse_command(body) {
        Command::PrintState => Ok(TerminalOutcome::PrintState),
        Command::CurrentEpoch => Ok(TerminalOutcome::CurrentEpoch { epoch: state.current_epoch }),
        Command::ListEpochs => Ok(TerminalOutcome::ListEpochs { epochs: state.epochs() }),
        Command::PrintEpoch(Some(epoch)) => {
            let known = state.get_epoch_state(epoch).is_some();
            Ok(TerminalOutcome::PrintEpoch { epoch, known })
        },
        Command::PrintEpoch(None) => Ok(TerminalOutcome::NoEpochNumber),
        Command::InsertDummyProofs => Ok(
            TerminalOutcome::SeedRequest(handle_insert_dummy_proofs(bridge)),
        ),
        Command::RequestAggregateProofs => Ok(
            TerminalOutcome::BatchRequest(request_aggregate_proofs(bridge, state)),
        ),
        Command::SendToChain => {
            let proof = match state.get_aggregated_proof(state.current_epoch) {
                None => {
                    return Ok(TerminalOutcome::NoAggregatedProof);
                },
                Some(proof) => proof,
            };
            let output = AggregationOutput { proof: proof.clone() };
            match send_to_chain(output, eth_caller) {
                Ok(started) => Ok(TerminalOutcome::Submit(started)),
                Err(e) => Err(e),
            }
        },
        Command::Unknown => Ok(TerminalOutcome::Unknown),
    }
}

} // verus!
