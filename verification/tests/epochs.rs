use zkp_aggregator::shared_types::{AggregationInput, ProofWithPublicValues};
use zkp_aggregator::structs::{EpochState, State};

fn artifact(tag: u8) -> ProofWithPublicValues {
    ProofWithPublicValues { proof: vec![tag, tag, tag], public_values: vec![tag] }
}

fn input(tag: u8) -> AggregationInput {
    AggregationInput { proof: artifact(tag), vk: vec![0xa0, tag] }
}

#[test]
fn starts_at_epoch_zero() {
    let state = State::default();
    assert_eq!(state.current_epoch, 0);
    assert_eq!(state.epochs(), vec![0]);
    assert!(state.current_epoch_state().is_some());
    assert_eq!(state.current_batch(), vec![]);
    assert_eq!(state.get_all_kinode_ids(), Vec::<String>::new());
    assert!(state.get_aggregated_proof(0).is_none());
}

#[test]
fn first_submission_wins() {
    let mut state = State::default();
    assert!(state.add_proof("peerA".to_string(), input(1)));
    assert!(!state.add_proof("peerA".to_string(), input(3)));
    assert_eq!(state.get_proofs_for_kinode("peerA"), Some(&input(1)));
    assert_eq!(state.get_all_kinode_ids(), vec!["peerA".to_string()]);
    assert_eq!(state.current_batch(), vec![input(1)]);
}

#[test]
fn same_artifact_twice_is_counted_once() {
    let mut state = State::default();
    assert!(state.add_proof("peerA".to_string(), input(1)));
    assert!(!state.add_proof("peerA".to_string(), input(1)));
    assert_eq!(state.current_batch().len(), 1);
}

#[test]
fn sources_are_case_sensitive() {
    let mut state = State::default();
    assert!(state.add_proof("peerA".to_string(), input(1)));
    assert!(state.add_proof("peera".to_string(), input(2)));
    assert!(state.add_proof(String::new(), input(3)));
    assert_eq!(state.get_proofs_for_kinode("peera"), Some(&input(2)));
    assert_eq!(state.get_proofs_for_kinode(""), Some(&input(3)));
    assert_eq!(state.get_proofs_for_kinode("peerB"), None);
}

#[test]
fn batch_keeps_submission_order() {
    let mut state = State::default();
    state.add_proof("peerB".to_string(), input(2));
    state.add_proof("peerA".to_string(), input(1));
    state.add_proof("peerC".to_string(), input(3));
    assert_eq!(
        state.get_all_kinode_ids(),
        vec!["peerB".to_string(), "peerA".to_string(), "peerC".to_string()]
    );
    assert_eq!(state.current_batch(), vec![input(2), input(1), input(3)]);
}

#[test]
fn epochs_advance_one_by_one() {
    let mut state = State::default();
    for count in 1..=5u64 {
        state.epoch_next();
        assert_eq!(state.current_epoch, count);
        assert_eq!(state.epoch_history.len() as u64, count + 1);
        assert_eq!(state.epochs(), (0..=count).collect::<Vec<u64>>());
    }
}

#[test]
fn new_epoch_is_empty() {
    let mut state = State::default();
    state.add_proof("peerA".to_string(), input(1));
    state.set_aggregated_proof(0, artifact(9));
    state.epoch_next();
    assert_eq!(state.current_batch(), vec![]);
    assert!(state.get_aggregated_proof(1).is_none());
    assert_eq!(state.get_proofs_for_kinode("peerA"), None);
}

#[test]
fn closed_epochs_are_immutable() {
    let mut state = State::default();
    state.add_proof("peerA".to_string(), input(1));
    state.epoch_next();
    assert!(state.add_proof("peerA".to_string(), input(4)));
    assert!(state.add_proof("peerB".to_string(), input(5)));
    let closed = state.get_epoch_state(0).unwrap();
    assert_eq!(closed.len(), 1);
    assert_eq!(closed.get("peerA"), Some(&input(1)));
    assert_eq!(closed.get("peerB"), None);
    assert_eq!(state.current_batch(), vec![input(4), input(5)]);
}

#[test]
fn late_result_is_filed_for_its_epoch() {
    let mut state = State::default();
    state.add_proof("peerA".to_string(), input(1));
    state.epoch_next();
    state.epoch_next();
    assert!(state.set_aggregated_proof(0, artifact(7)));
    assert_eq!(state.get_aggregated_proof(0), Some(&artifact(7)));
    assert_eq!(state.get_aggregated_proof(1), None);
    assert_eq!(state.get_aggregated_proof(2), None);
    assert_eq!(state.current_epoch, 2);
    assert_eq!(state.get_epoch_state(0).unwrap().get("peerA"), Some(&input(1)));
}

#[test]
fn unknown_epoch_is_absent() {
    let mut state = State::default();
    assert!(state.get_epoch_state(3).is_none());
    assert!(state.get_aggregated_proof(3).is_none());
    assert!(!state.set_aggregated_proof(3, artifact(7)));
    assert_eq!(state, State::default());
}

#[test]
fn aggregated_proof_can_be_replaced() {
    let mut state = State::default();
    assert!(state.set_aggregated_proof(0, artifact(7)));
    assert!(state.set_aggregated_proof(0, artifact(8)));
    assert_eq!(state.get_aggregated_proof(0), Some(&artifact(8)));
}

#[test]
fn missing_current_epoch_accepts_nothing() {
    let mut state = State::default();
    state.current_epoch = 4;
    assert!(!state.add_proof("peerA".to_string(), input(1)));
    assert!(state.current_epoch_state().is_none());
    assert_eq!(state.current_batch(), vec![]);
    state.ensure_current_epoch();
    assert!(state.add_proof("peerA".to_string(), input(1)));
    assert_eq!(state.epochs(), vec![0, 4]);
}

#[test]
fn epoch_state_by_itself() {
    let mut epoch = EpochState::default();
    assert_eq!(epoch.len(), 0);
    assert!(!epoch.contains("peerA"));
    assert!(epoch.insert("peerA".to_string(), input(1)));
    assert!(!epoch.insert("peerA".to_string(), input(2)));
    assert!(epoch.contains("peerA"));
    assert_eq!(epoch.entry(0), (&"peerA".to_string(), &input(1)));
    assert_eq!(epoch.sources(), vec!["peerA".to_string()]);
    assert_eq!(epoch.batch(), vec![input(1)]);
    assert!(epoch.aggregated().is_none());
    epoch.set_aggregated(artifact(5));
    assert_eq!(epoch.aggregated(), Some(&artifact(5)));
}
