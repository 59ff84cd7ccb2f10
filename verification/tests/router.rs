use zkp_aggregator::bridge::HandlerError;
use zkp_aggregator::shared_types::{
    clone_bytes, clone_inputs, AggregationInput, AggregationOutput, DummyProofInsert,
    ProofWithPublicValues, WsMessage,
};
use zkp_aggregator::structs::{ProofSubmissionRequest, State};
use zkp_aggregator::worker::{handle_frame, WorkerAction, WorkerFrame};
use zkp_aggregator::{handle_kinode_messages, handle_message, Address, Dispatch, MessageKind};

fn address(node: &str, process: &str, package: &str, publisher: &str) -> Address {
    Address {
        node: node.to_string(),
        process_name: process.to_string(),
        package_name: package.to_string(),
        publisher_node: publisher.to_string(),
    }
}

fn input(tag: u8) -> AggregationInput {
    AggregationInput {
        proof: ProofWithPublicValues { proof: vec![tag, tag, tag], public_values: vec![tag] },
        vk: vec![0xa0, tag],
    }
}

#[test]
fn process_is_written_with_colons() {
    assert_eq!(address("n.os", "timer", "distro", "sys").process(), "timer:distro:sys");
    assert_eq!(address("n.os", "", "", "").process(), "::");
}

#[test]
fn messages_go_where_they_belong() {
    let our = address("our.os", "zkp-aggregator", "zkp-aggregator", "punctumfix.os");
    let timer = address("our.os", "timer", "distro", "sys");
    let http = address("our.os", "http_server", "distro", "sys");
    let far_http = address("far.os", "http_server", "distro", "sys");
    let terminal = address("our.os", "terminal", "terminal", "sys");
    let peer = address("peer.os", "prover", "zkp", "peer.os");

    assert_eq!(handle_message(&our, &timer, MessageKind::Response), Dispatch::Timer);
    assert_eq!(handle_message(&our, &http, MessageKind::Response), Dispatch::Ignored);
    assert_eq!(handle_message(&our, &peer, MessageKind::Response), Dispatch::Ignored);
    assert_eq!(handle_message(&our, &http, MessageKind::Request), Dispatch::Channel);
    assert_eq!(handle_message(&our, &far_http, MessageKind::Request), Dispatch::Spoofed);
    assert_eq!(handle_message(&our, &terminal, MessageKind::Request), Dispatch::Terminal);
    assert_eq!(handle_message(&our, &peer, MessageKind::Request), Dispatch::Submission);
    assert_eq!(handle_message(&our, &timer, MessageKind::Request), Dispatch::Submission);
}

#[test]
fn process_name_is_compared_whole() {
    let our = address("our.os", "a", "b", "c");
    let odd = address("our.os", "http_server:distro", "sys", "");
    assert_eq!(handle_message(&our, &odd, MessageKind::Request), Dispatch::Submission);
    let far_terminal = address("far.os", "shell", "terminal", "far.os");
    assert_eq!(handle_message(&our, &far_terminal, MessageKind::Request), Dispatch::Terminal);
}

#[test]
fn peer_submission_is_counted_once() {
    let mut state = State::default();
    let request = |tag: u8| {
        Some(ProofSubmissionRequest { source: "peerA".to_string(), aggregation_input: input(tag) })
    };
    assert_eq!(handle_kinode_messages(request(1), &mut state), Ok(true));
    assert_eq!(handle_kinode_messages(request(3), &mut state), Ok(false));
    assert_eq!(state.get_proofs_for_kinode("peerA"), Some(&input(1)));
}

#[test]
fn unreadable_request_is_an_error() {
    let mut state = State::default();
    assert_eq!(handle_kinode_messages(None, &mut state), Err(HandlerError::MalformedRequest));
    assert_eq!(state, State::default());
}

#[test]
fn submission_lands_in_the_current_epoch() {
    let mut state = State::default();
    state.epoch_next();
    let request =
        Some(ProofSubmissionRequest { source: "peerA".to_string(), aggregation_input: input(1) });
    assert_eq!(handle_kinode_messages(request, &mut state), Ok(true));
    assert_eq!(state.get_epoch_state(0).unwrap().len(), 0);
    assert_eq!(state.get_epoch_state(1).unwrap().len(), 1);
}

#[test]
fn worker_frames() {
    assert_eq!(
        handle_frame(WorkerFrame::Binary(vec![1, 2])),
        WorkerAction::Aggregate(vec![1, 2])
    );
    assert_eq!(
        handle_frame(WorkerFrame::Text("insert_proofs_pls".to_string())),
        WorkerAction::SendSeed
    );
    assert_eq!(
        handle_frame(WorkerFrame::Text("send".to_string())),
        WorkerAction::Reply("pong".to_string())
    );
    assert_eq!(handle_frame(WorkerFrame::Text("ping".to_string())), WorkerAction::Nothing);
    assert_eq!(handle_frame(WorkerFrame::Text(String::new())), WorkerAction::Nothing);
    assert_eq!(handle_frame(WorkerFrame::Close), WorkerAction::Stop);
    assert_eq!(handle_frame(WorkerFrame::Other), WorkerAction::Nothing);
}

#[test]
fn copies_are_equal() {
    assert_eq!(clone_bytes(&vec![1, 2, 3]), vec![1, 2, 3]);
    assert_eq!(clone_bytes(&vec![]), Vec::<u8>::new());
    assert_eq!(clone_inputs(&vec![input(1), input(2)]), vec![input(1), input(2)]);
    assert_eq!(input(5).clone(), input(5));
    let output = AggregationOutput { proof: input(6).proof };
    assert_eq!(output.clone(), output);
    let seeds = DummyProofInsert { proofs: vec![input(7)] };
    assert_eq!(seeds.clone(), seeds);
    assert_eq!(WsMessage::Aggregation(output.clone()).clone(), WsMessage::Aggregation(output));
    assert_eq!(WsMessage::DummyProof(seeds.clone()).clone(), WsMessage::DummyProof(seeds));
}
