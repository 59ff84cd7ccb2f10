use zkp_aggregator::bridge::{
    decode_timer, encode_timer, handle_http_server_request, handle_insert_dummy_proofs,
    handle_timer, request_aggregate_proofs, setup_timer, BatchPush, Bridge, ChannelOutcome,
    HandlerError, HttpServerRequest, TextPush, TimerOutcome, WsMessageType,
};
use zkp_aggregator::shared_types::{
    AggregationInput, AggregationOutput, DummyProofInsert, ProofWithPublicValues, WsMessage,
};
use zkp_aggregator::structs::{State, TimerType};

fn artifact(tag: u8) -> ProofWithPublicValues {
    ProofWithPublicValues { proof: vec![tag, tag, tag], public_values: vec![tag] }
}

fn input(tag: u8) -> AggregationInput {
    AggregationInput { proof: artifact(tag), vk: vec![0xa0, tag] }
}

fn tick() -> Option<Vec<u8>> {
    Some(encode_timer(TimerType::AggregateProofs))
}

fn binary(channel_id: u32) -> HttpServerRequest {
    HttpServerRequest::WebSocketPush { channel_id, message_type: WsMessageType::Binary }
}

#[test]
fn timer_context_is_the_quoted_name() {
    assert_eq!(encode_timer(TimerType::AggregateProofs), b"\"AggregateProofs\"".to_vec());
    assert_eq!(decode_timer(b"\"AggregateProofs\""), Some(TimerType::AggregateProofs));
    assert_eq!(decode_timer(b"AggregateProofs"), None);
    assert_eq!(decode_timer(b"\"aggregateproofs\""), None);
    assert_eq!(decode_timer(b""), None);
}

#[test]
fn timer_is_armed_for_five_minutes() {
    let request = setup_timer();
    assert_eq!(request.duration_ms, 300000);
    assert_eq!(request.context, Some(b"\"AggregateProofs\"".to_vec()));
}

#[test]
fn basic_round() {
    let mut state = State::default();
    let mut bridge = Bridge::new();
    assert_eq!(
        handle_http_server_request(
            HttpServerRequest::WebSocketOpen { channel_id: 7 },
            None,
            None,
            &mut bridge,
            &mut state
        ),
        ChannelOutcome::Opened
    );
    assert!(state.add_proof("peerA".to_string(), input(1)));
    assert!(state.add_proof("peerB".to_string(), input(2)));

    let outcome = handle_timer(tick(), &mut bridge, &mut state);
    assert_eq!(
        outcome,
        Ok(TimerOutcome::Pushed(BatchPush { channel_id: 7, proofs: vec![input(1), input(2)] }))
    );
    assert_eq!(state.current_epoch, 1);
    assert_eq!(bridge.in_flight, vec![0]);

    let result = WsMessage::Aggregation(AggregationOutput { proof: artifact(9) });
    let outcome =
        handle_http_server_request(binary(7), Some(vec![1]), Some(result), &mut bridge, &mut state);
    assert_eq!(outcome, ChannelOutcome::Filed { epoch: 0 });
    assert!(outcome.persists());
    assert_eq!(state.get_aggregated_proof(0), Some(&artifact(9)));
    assert_eq!(state.get_aggregated_proof(1), None);
    assert_eq!(state.current_epoch, 1);
    assert_eq!(bridge.in_flight, Vec::<u64>::new());
}

#[test]
fn timer_without_channel_changes_nothing() {
    let mut state = State::default();
    let mut bridge = Bridge::new();
    state.add_proof("peerA".to_string(), input(1));
    let outcome = handle_timer(tick(), &mut bridge, &mut state);
    assert_eq!(outcome, Ok(TimerOutcome::NoChannel));
    assert_eq!(state.current_epoch, 0);
    assert_eq!(state.current_batch(), vec![input(1)]);
    assert_eq!(bridge, Bridge::new());

    state.add_proof("peerB".to_string(), input(2));
    bridge.channel_id = Some(3);
    let outcome = handle_timer(tick(), &mut bridge, &mut state);
    assert_eq!(
        outcome,
        Ok(TimerOutcome::Pushed(BatchPush { channel_id: 3, proofs: vec![input(1), input(2)] }))
    );
}

#[test]
fn timer_without_context_is_idle() {
    let mut state = State::default();
    let mut bridge = Bridge { channel_id: Some(3), in_flight: vec![] };
    assert_eq!(handle_timer(None, &mut bridge, &mut state), Ok(TimerOutcome::NoContext));
    assert_eq!(state, State::default());
}

#[test]
fn timer_with_unknown_context_is_an_error() {
    let mut state = State::default();
    let mut bridge = Bridge { channel_id: Some(3), in_flight: vec![] };
    assert_eq!(
        handle_timer(Some(b"\"Other\"".to_vec()), &mut bridge, &mut state),
        Err(HandlerError::MalformedTimer)
    );
    assert_eq!(state, State::default());
    assert_eq!(bridge.in_flight, Vec::<u64>::new());
}

#[test]
fn timer_at_the_last_epoch_is_skipped() {
    let mut state = State::default();
    state.current_epoch = u64::MAX;
    state.ensure_current_epoch();
    let mut bridge = Bridge { channel_id: Some(3), in_flight: vec![] };
    assert_eq!(handle_timer(tick(), &mut bridge, &mut state), Ok(TimerOutcome::Exhausted));
    assert_eq!(state.current_epoch, u64::MAX);
    assert_eq!(bridge.in_flight, Vec::<u64>::new());
}

#[test]
fn empty_batch_is_pushed_too() {
    let mut state = State::default();
    let mut bridge = Bridge { channel_id: Some(3), in_flight: vec![] };
    assert_eq!(
        handle_timer(tick(), &mut bridge, &mut state),
        Ok(TimerOutcome::Pushed(BatchPush { channel_id: 3, proofs: vec![] }))
    );
    assert_eq!(state.current_epoch, 1);
}

#[test]
fn results_are_filed_oldest_first() {
    let mut state = State::default();
    let mut bridge = Bridge { channel_id: Some(3), in_flight: vec![] };
    state.add_proof("peerA".to_string(), input(1));
    handle_timer(tick(), &mut bridge, &mut state).unwrap();
    state.add_proof("peerA".to_string(), input(2));
    handle_timer(tick(), &mut bridge, &mut state).unwrap();
    assert_eq!(bridge.in_flight, vec![0, 1]);
    assert_eq!(state.current_epoch, 2);

    let first = WsMessage::Aggregation(AggregationOutput { proof: artifact(10) });
    let second = WsMessage::Aggregation(AggregationOutput { proof: artifact(11) });
    assert_eq!(
        handle_http_server_request(binary(3), Some(vec![]), Some(first), &mut bridge, &mut state),
        ChannelOutcome::Filed { epoch: 0 }
    );
    assert_eq!(
        handle_http_server_request(binary(3), Some(vec![]), Some(second), &mut bridge, &mut state),
        ChannelOutcome::Filed { epoch: 1 }
    );
    assert_eq!(state.get_aggregated_proof(0), Some(&artifact(10)));
    assert_eq!(state.get_aggregated_proof(1), Some(&artifact(11)));
    assert_eq!(state.get_aggregated_proof(2), None);
}

#[test]
fn unexpected_result_is_dropped() {
    let mut state = State::default();
    let mut bridge = Bridge { channel_id: Some(3), in_flight: vec![] };
    let result = WsMessage::Aggregation(AggregationOutput { proof: artifact(9) });
    let outcome =
        handle_http_server_request(binary(3), Some(vec![]), Some(result), &mut bridge, &mut state);
    assert_eq!(outcome, ChannelOutcome::Unexpected);
    assert!(!outcome.persists());
    assert_eq!(state, State::default());
}

#[test]
fn malformed_frame_is_dropped() {
    let mut state = State::default();
    state.add_proof("peerA".to_string(), input(1));
    let mut bridge = Bridge { channel_id: Some(3), in_flight: vec![0] };
    let outcome =
        handle_http_server_request(binary(3), Some(vec![0xff]), None, &mut bridge, &mut state);
    assert_eq!(outcome, ChannelOutcome::Malformed);
    assert_eq!(state.current_batch(), vec![input(1)]);
    assert_eq!(bridge.in_flight, vec![0]);
}

#[test]
fn push_without_blob() {
    let mut state = State::default();
    let mut bridge = Bridge { channel_id: Some(3), in_flight: vec![0] };
    let result = WsMessage::Aggregation(AggregationOutput { proof: artifact(9) });
    assert_eq!(
        handle_http_server_request(binary(3), None, Some(result), &mut bridge, &mut state),
        ChannelOutcome::NoBlob
    );
    assert_eq!(state, State::default());
    assert_eq!(bridge.in_flight, vec![0]);
}

#[test]
fn text_frames_are_tokens() {
    let mut state = State::default();
    let mut bridge = Bridge { channel_id: Some(3), in_flight: vec![0] };
    let text = HttpServerRequest::WebSocketPush { channel_id: 3, message_type: WsMessageType::Text };
    let result = WsMessage::Aggregation(AggregationOutput { proof: artifact(9) });
    assert_eq!(
        handle_http_server_request(text, Some(b"pong".to_vec()), Some(result), &mut bridge, &mut state),
        ChannelOutcome::KeepAlive
    );
    assert_eq!(
        handle_http_server_request(text, Some(b"Pong".to_vec()), None, &mut bridge, &mut state),
        ChannelOutcome::UnknownToken
    );
    assert_eq!(state, State::default());
    assert_eq!(bridge.in_flight, vec![0]);
}

#[test]
fn close_forgets_the_channel_and_what_is_out() {
    let mut state = State::default();
    let mut bridge = Bridge { channel_id: Some(3), in_flight: vec![0, 1] };
    assert_eq!(
        handle_http_server_request(
            HttpServerRequest::WebSocketClose { channel_id: 3 },
            None,
            None,
            &mut bridge,
            &mut state
        ),
        ChannelOutcome::Closed
    );
    assert_eq!(bridge, Bridge::new());
    assert_eq!(
        handle_http_server_request(HttpServerRequest::Http, None, None, &mut bridge, &mut state),
        ChannelOutcome::Ignored
    );
}

#[test]
fn seed_batch_is_counted_under_one_name() {
    let mut state = State::default();
    let mut bridge = Bridge { channel_id: Some(3), in_flight: vec![] };
    let seeds = WsMessage::DummyProof(DummyProofInsert { proofs: vec![input(1), input(2), input(3)] });
    let outcome =
        handle_http_server_request(binary(3), Some(vec![]), Some(seeds), &mut bridge, &mut state);
    assert_eq!(outcome, ChannelOutcome::Seeded);
    assert!(outcome.persists());
    assert_eq!(state.get_all_kinode_ids(), vec!["fake.dev".to_string()]);
    assert_eq!(state.current_batch(), vec![input(1)]);
}

#[test]
fn seed_batch_opens_a_missing_epoch() {
    let mut state = State::default();
    state.current_epoch = 2;
    let mut bridge = Bridge::new();
    let seeds = WsMessage::DummyProof(DummyProofInsert { proofs: vec![input(4)] });
    handle_http_server_request(binary(3), Some(vec![]), Some(seeds), &mut bridge, &mut state);
    assert_eq!(state.current_batch(), vec![input(4)]);
}

#[test]
fn explicit_push_keeps_the_epoch_open() {
    let mut state = State::default();
    let mut bridge = Bridge::new();
    state.add_proof("peerA".to_string(), input(1));
    assert_eq!(request_aggregate_proofs(&mut bridge, &state), None);
    bridge.channel_id = Some(5);
    assert_eq!(
        request_aggregate_proofs(&mut bridge, &state),
        Some(BatchPush { channel_id: 5, proofs: vec![input(1)] })
    );
    assert_eq!(state.current_epoch, 0);
    assert_eq!(bridge.in_flight, vec![0]);
    let result = WsMessage::Aggregation(AggregationOutput { proof: artifact(9) });
    handle_http_server_request(binary(5), Some(vec![]), Some(result), &mut bridge, &mut state);
    assert_eq!(state.get_aggregated_proof(0), Some(&artifact(9)));
}

#[test]
fn seed_request_needs_a_channel() {
    let mut bridge = Bridge::new();
    assert_eq!(handle_insert_dummy_proofs(&bridge), None);
    bridge.channel_id = Some(5);
    assert_eq!(
        handle_insert_dummy_proofs(&bridge),
        Some(TextPush { channel_id: 5, text: "insert_proofs_pls".to_string() })
    );
}
