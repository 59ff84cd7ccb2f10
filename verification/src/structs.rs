//! The epoch store: which proofs each epoch has collected, and what became
//! of them.

use crate::shared_types::{AggregationInput, InputModel, ProofModel, ProofWithPublicValues};
use std::collections::BTreeMap;
use vstd::prelude::*;
use vstd::std_specs::iter::IteratorSpec;

verus! {

/// The name under which a peer submits.
pub type KinodeId = String;

/// The kinds of timer that the aggregator arms.
#[derive(Clone, Copy, Debug, PartialEq, Eq)]
pub enum TimerType {
    AggregateProofs,
}

/// Why a state could not be written as bytes or read back from them.
#[derive(Debug, PartialEq, Eq)]
pub struct StateError(pub String);

impl StateError {
    /// The reason in words.
    pub fn message(&self) -> (text: String)
        ensures
            text@ == self.0@,
    {
        self.0.clone()
    }
}

/// What a peer sends to have its proof counted in the current epoch.
#[derive(Debug, PartialEq, Eq)]
pub struct ProofSubmissionRequest {
    pub source: KinodeId,
    pub aggregation_input: AggregationInput,
}

/// What one epoch holds, as mathematics: the submissions in the order in
/// which they were accepted, and the aggregated proof once it has arrived.
pub struct EpochModel {
    pub entries: Seq<(Seq<char>, InputModel)>,
    pub aggregated: Option<ProofModel>,
}

impl EpochModel {
    /// An epoch that has collected nothing.
    pub open spec fn empty() -> EpochModel {
        EpochModel { entries: Seq::empty(), aggregated: None }
    }

    /// Whether `source` has a submission in this epoch.
    pub open spec fn contains(self, source: Seq<char>) -> bool {
        exists|i: int| 0 <= i < self.entries.len() && #[trigger] self.entries[i].0 == source
    }

    /// Where the earliest submission of `source` stands.
    pub open spec fn position(self, source: Seq<char>) -> int {
        choose|i: int|
            0 <= i < self.entries.len() && #[trigger] self.entries[i].0 == source && forall|j: int|
                0 <= j < i ==> #[trigger] self.entries[j].0 != source
    }

    /// The submission that `source` is counted with, if it has one.
    pub open spec fn proof_of(self, source: Seq<char>) -> Option<InputModel> {
        if self.contains(source) {
            Some(self.entries[self.position(source)].1)
        } else {
            None
        }
    }

    /// No peer is counted twice.
    pub open spec fn wf(self) -> bool {
        forall|i: int, j: int|
            0 <= i < j < self.entries.len() ==> #[trigger] self.entries[i].0
                != #[trigger] self.entries[j].0
    }

    /// The peers that have submitted, in the order of their submissions.
    pub open spec fn sources(self) -> Seq<Seq<char>> {
        self.entries.map_values(|e: (Seq<char>, InputModel)| e.0)
    }

    /// The batch that goes to aggregation: every submission, in the order of
    /// `sources`.
    pub open spec fn batch(self) -> Seq<InputModel> {
        self.entries.map_values(|e: (Seq<char>, InputModel)| e.1)
    }

    /// This epoch after `source` has submitted `input`: the first submission
    /// of a peer stands, a later one changes nothing.
    pub open spec fn with_proof(self, source: Seq<char>, input: InputModel) -> EpochModel {
        if self.contains(source) {
            self
        } else {
            EpochModel { entries: self.entries.push((source, input)), ..self }
        }
    }

    /// This epoch after `proof` has been filed as its aggregated proof.
    pub open spec fn with_aggregated(self, proof: ProofModel) -> EpochModel {
        EpochModel { aggregated: Some(proof), ..self }
    }
}

/// A submission as the store keeps it.
#[derive(Debug, PartialEq, Eq)]
struct ProofEntry {
    source: KinodeId,
    input: AggregationInput,
}

/// The proofs of one epoch, at most one for each peer, and the aggregated
/// proof once the worker has returned it.
#[derive(Debug, PartialEq, Eq)]
pub struct EpochState {
    proofs_by_kinode_id: Vec<ProofEntry>,
    current_aggregated_proof: Option<ProofWithPublicValues>,
}

impl View for EpochState {
    type V = EpochModel;

    closed spec fn view(&self) -> EpochModel {
        EpochModel {
            entries: self.proofs_by_kinode_id@.map_values(|e: ProofEntry| (e.source@, e.input@)),
            aggregated: match self.current_aggregated_proof {
                Some(proof) => Some(proof@),
                None => None,
            },
        }
    }
}

impl Default for EpochState {
    fn default() -> (state: Self)
        ensures
            state@ == EpochModel::empty(),
    {
        let state = EpochState { proofs_by_kinode_id: Vec::new(), current_aggregated_proof: None };
        assert(state@.entries =~= Seq::empty());
        state
    }
}

impl EpochState {
    /// The index of the submission of `source`, if there is one.
    fn find(&self, source: &str) -> (found: Option<usize>)
        ensures
            match found {
                Some(i) => i < self@.entries.len() && self@.entries[i as int].0 == source@
                    && forall|j: int| 0 <= j < i ==> #[trigger] self@.entries[j].0 != source@,
                None => !self@.contains(source@),
            },
    {
        let wanted = source.to_owned();
        let mut i: usize = 0;
        while i < self.proofs_by_kinode_id.len()
            invariant
                i <= self.proofs_by_kinode_id.len(),
                wanted@ == source@,
                forall|j: int| 0 <= j < i ==> #[trigger] self@.entries[j].0 != source@,
            decreases self.proofs_by_kinode_id.len() - i,
        {
            if self.proofs_by_kinode_id[i].source == wanted {
                return Some(i);
            }
            i += 1;
        }
        None
    }

    /// Whether `source` has submitted in this epoch.
    pub fn contains(&self, source: &str) -> (found: bool)
        ensures
            found == self@.contains(source@),
    {
        self.find(source).is_some()
    }

    /// The submission that `source` is counted with.
    pub fn get(&self, source: &str) -> (found: Option<&AggregationInput>)
        ensures
            match found {
                Some(input) => self@.proof_of(source@) == Some(input@),
                None => self@.proof_of(source@).is_none(),
            },
    {
        match self.find(source) {
            Some(i) => {
                Some(&self.proofs_by_kinode_id[i].input)
            },
            None => None,
        }
    }

    /// Counts `input` for `source` unless the peer has submitted before, and
    /// says whether it was counted.
    pub fn insert(&mut self, source: KinodeId, input: AggregationInput) -> (inserted: bool)
        ensures
            inserted == !old(self)@.contains(source@),
            final(self)@ == old(self)@.with_proof(source@, input@),
            old(self)@.wf() ==> final(self)@.wf(),
    {
        match self.find(source.as_str()) {
            Some(_) => false,
            None => {
                self.proofs_by_kinode_id.push(ProofEntry { source, input });
                assert(self@.entries =~= old(self)@.entries.push((source@, input@)));
                true
            },
        }
    }

    /// Files `proof` as the aggregated proof of this epoch.
    pub fn set_aggregated(&mut self, proof: ProofWithPublicValues)
        ensures
            final(self)@ == old(self)@.with_aggregated(proof@),
    {
        self.current_aggregated_proof = Some(proof);
    }

    /// The aggregated proof of this epoch, once it has been filed.
    pub fn aggregated(&self) -> (found: Option<&ProofWithPublicValues>)
        ensures
            match found {
                Some(proof) => self@.aggregated == Some(proof@),
                None => self@.aggregated.is_none(),
            },
    {
        self.current_aggregated_proof.as_ref()
    }

    /// The submission that was accepted as number `i` of this epoch: who
    /// sent it, and what.
    pub fn entry(&self, i: usize) -> (found: (&String, &AggregationInput))
        requires
            i < self@.entries.len(),
        ensures
            (found.0@, found.1@) == self@.entries[i as int],
    {
        (&self.proofs_by_kinode_id[i].source, &self.proofs_by_kinode_id[i].input)
    }

    /// How many peers have submitted.
    pub fn len(&self) -> (n: usize)
        ensures
            n == self@.entries.len(),
    {
        self.proofs_by_kinode_id.len()
    }

    /// The peers that have submitted, in the order of their submissions.
    pub fn sources(&self) -> (ids: Vec<String>)
        ensures
            ids@.map_values(|s: String| s@) == self@.sources(),
    {
        let mut ids: Vec<String> = Vec::new();
        let mut i: usize = 0;
        while i < self.proofs_by_kinode_id.len()
            invariant
                i <= self.proofs_by_kinode_id.len(),
                ids@.len() == i,
                forall|j: int| 0 <= j < i ==> (#[trigger] ids@[j])@ == self@.entries[j].0,
            decreases self.proofs_by_kinode_id.len() - i,
        {
            ids.push(self.proofs_by_kinode_id[i].source.clone());
            i += 1;
        }
        assert(ids@.map_values(|s: String| s@) =~= self@.sources());
        ids
    }

    /// A copy of every submission, in the order of `sources`.
    pub fn batch(&self) -> (inputs: Vec<AggregationInput>)
        ensures
            crate::shared_types::input_models(inputs@) == self@.batch(),
    {
        let mut inputs: Vec<AggregationInput> = Vec::new();
        let mut i: usize = 0;
        while i < self.proofs_by_kinode_id.len()
            invariant
                i <= self.proofs_by_kinode_id.len(),
                inputs@.len() == i,
                forall|j: int| 0 <= j < i ==> (#[trigger] inputs@[j])@ == self@.entries[j].1,
            decreases self.proofs_by_kinode_id.len() - i,
        {
            inputs.push(self.proofs_by_kinode_id[i].input.clone());
            i += 1;
        }
        assert(crate::shared_types::input_models(inputs@) =~= self@.batch());
        inputs
    }
}

/// What the store holds, as mathematics: the number of the current epoch and
/// every epoch that was ever opened.
pub struct StateModel {
    pub current_epoch: u64,
    pub epochs: Map<u64, EpochModel>,
}

impl StateModel {
    /// The store at process start: epoch 0, with nothing collected.
    pub open spec fn initial() -> StateModel {
        StateModel { current_epoch: 0, epochs: Map::empty().insert(0u64, EpochModel::empty()) }
    }

    /// The epochs are exactly those from 0 to the current one, and none of
    /// them counts a peer twice.
    pub open spec fn wf(self) -> bool {
        &&& forall|e: u64| #[trigger] self.epochs.contains_key(e) <==> e <= self.current_epoch
        &&& forall|e: u64| #[trigger] self.epochs.contains_key(e) ==> self.epochs[e].wf()
    }

    /// The store after the current epoch was closed and the next one opened.
    pub open spec fn next(self) -> StateModel
        recommends
            self.current_epoch < u64::MAX,
    {
        let opened = (self.current_epoch + 1) as u64;
        StateModel { current_epoch: opened, epochs: self.epochs.insert(opened, EpochModel::empty()) }
    }

    /// The store after `n` epochs were closed one after another.
    pub open spec fn advanced(self, n: nat) -> StateModel
        decreases n,
    {
        if n == 0 {
            self
        } else {
            self.advanced((n - 1) as nat).next()
        }
    }

    /// The store with the current epoch opened, empty, where it was missing.
    pub open spec fn with_current(self) -> StateModel {
        if self.epochs.contains_key(self.current_epoch) {
            self
        } else {
            StateModel {
                epochs: self.epochs.insert(self.current_epoch, EpochModel::empty()),
                ..self
            }
        }
    }

    /// Whether `source` has submitted in the current epoch.
    pub open spec fn has_submitted(self, source: Seq<char>) -> bool {
        self.epochs.contains_key(self.current_epoch) && self.epochs[self.current_epoch].contains(
            source,
        )
    }

    /// Whether a submission of `source` would be counted now.
    pub open spec fn accepts(self, source: Seq<char>) -> bool {
        self.epochs.contains_key(self.current_epoch) && !self.epochs[self.current_epoch].contains(
            source,
        )
    }

    /// The store after `source` has submitted `input`: it is counted in the
    /// current epoch if the peer has not submitted there yet.
    pub open spec fn with_proof(self, source: Seq<char>, input: InputModel) -> StateModel {
        if self.accepts(source) {
            StateModel {
                epochs: self.epochs.insert(
                    self.current_epoch,
                    self.epochs[self.current_epoch].with_proof(source, input),
                ),
                ..self
            }
        } else {
            self
        }
    }

    /// The store after `proof` was filed as the aggregated proof of `epoch`.
    /// An epoch that was never opened takes none.
    pub open spec fn with_aggregated(self, epoch: u64, proof: ProofModel) -> StateModel {
        if self.epochs.contains_key(epoch) {
            StateModel {
                epochs: self.epochs.insert(epoch, self.epochs[epoch].with_aggregated(proof)),
                ..self
            }
        } else {
            self
        }
    }

    /// The aggregated proof of `epoch`, if the epoch is known and has one.
    pub open spec fn aggregated(self, epoch: u64) -> Option<ProofModel> {
        if self.epochs.contains_key(epoch) {
            self.epochs[epoch].aggregated
        } else {
            None
        }
    }

    /// What `source` is counted with in the current epoch.
    pub open spec fn proof_of(self, source: Seq<char>) -> Option<InputModel> {
        if self.epochs.contains_key(self.current_epoch) {
            self.epochs[self.current_epoch].proof_of(source)
        } else {
            None
        }
    }

    /// The peers of the current epoch, in the order of their submissions.
    pub open spec fn sources(self) -> Seq<Seq<char>> {
        if self.epochs.contains_key(self.current_epoch) {
            self.epochs[self.current_epoch].sources()
        } else {
            Seq::empty()
        }
    }

    /// The batch of the current epoch, in the order of `sources`.
    pub open spec fn batch(self) -> Seq<InputModel> {
        if self.epochs.contains_key(self.current_epoch) {
            self.epochs[self.current_epoch].batch()
        } else {
            Seq::empty()
        }
    }
}

/// The epoch store.
#[derive(Debug, PartialEq, Eq)]
pub struct State {
    pub current_epoch: u64,
    pub epoch_history: BTreeMap<u64, EpochState>,
}

impl View for State {
    type V = StateModel;

    open spec fn view(&self) -> StateModel {
        StateModel {
            current_epoch: self.current_epoch,
            epochs: self.epoch_history@.map_values(|epoch: EpochState| epoch@),
        }
    }
}

impl Default for State {
    fn default() -> (state: Self)
        ensures
            state@ == StateModel::initial(),
            state@.wf(),
    {
        broadcast use {vstd::std_specs::btree::group_btree_axioms, vstd::laws_cmp::group_laws_cmp};

        let mut epoch_history: BTreeMap<u64, EpochState> = BTreeMap::new();
        epoch_history.insert(0, EpochState::default());
        let state = State { current_epoch: 0, epoch_history };
        assert(state@.epochs =~= StateModel::initial().epochs);
        state
    }
}

/// Whether each number of the run is less than the next.
pub open spec fn increasing(numbers: Seq<u64>) -> bool {
    forall|i: int, j: int| 0 <= i < j < numbers.len() ==> numbers[i] < numbers[j]
}

/// Puts `x` at its place in an increasing run of numbers that lacks it.
fn insert_in_order(sorted: &mut Vec<u64>, x: u64)
    requires
        increasing(old(sorted)@),
        !old(sorted)@.contains(x),
    ensures
        increasing(final(sorted)@),
        final(sorted)@.len() == old(sorted)@.len() + 1,
        forall|v: u64| final(sorted)@.contains(v) <==> old(sorted)@.contains(v) || v == x,
{
    let mut at: usize = sorted.len();
    while at > 0 && sorted[at - 1] > x
        invariant
            at <= sorted.len(),
            sorted@ == old(sorted)@,
            forall|j: int| at <= j < sorted.len() ==> sorted@[j] > x,
        decreases at,
    {
        at -= 1;
    }
    sorted.insert(at, x);
    proof {
        let before = old(sorted)@;
        let after = sorted@;
        assert forall|j: int| 0 <= j < at implies before[j] < x by {
            assert(before.contains(before[j]));
            assert(before[j] <= before[at - 1]);
        }
        assert forall|v: u64| after.contains(v) <==> before.contains(v) || v == x by {
            if before.contains(v) {
                let k = before.index_of(v);
                if k < at {
                    assert(after[k] == v);
                } else {
                    assert(after[k + 1] == v);
                }
            }
            if v == x {
                assert(after[at as int] == v);
            }
            if after.contains(v) {
                let k = after.index_of(v);
                if k < at {
                    assert(before[k] == v);
                } else if k > at {
                    assert(before[k - 1] == v);
                }
            }
        }
    }
}

/// Calls `BTreeMap::get_mut` of std: a mutable reference to the value
/// under the key, where the map has the key.  What the caller writes through
/// the reference is what the map then holds under that key, and nothing
/// else in the map changes.
#[verifier::external_body]
fn epoch_mut(history: &mut BTreeMap<u64, EpochState>, epoch: u64) -> (found: Option<
    &mut EpochState,
>)
    ensures
        match found {
            Some(state) => old(history)@.contains_key(epoch) && *state == old(history)@[epoch]
                && final(history)@ == old(history)@.insert(epoch, *final(state)),
            None => !old(history)@.contains_key(epoch) && final(history)@ == old(history)@,
        },
{
    history.get_mut(&epoch)
}

impl State {
    /// Closes the current epoch and opens the next one, empty.  Every epoch
    /// opened before stays as it is.
    pub fn epoch_next(&mut self)
        requires
            old(self).current_epoch < u64::MAX,
        ensures
            final(self)@ == old(self)@.next(),
            old(self)@.wf() ==> final(self)@.wf(),
    {
        broadcast use {vstd::std_specs::btree::group_btree_axioms, vstd::laws_cmp::group_laws_cmp};

        let new_epoch_state = EpochState::default();
        self.current_epoch += 1;
        self.epoch_history.insert(self.current_epoch, new_epoch_state);
        assert(self@.epochs =~= old(self)@.next().epochs);
    }

    /// Opens the current epoch, empty, where the history lacks it.
    pub fn ensure_current_epoch(&mut self)
        ensures
            final(self)@ == old(self)@.with_current(),
            final(self)@.epochs.contains_key(final(self).current_epoch),
            old(self)@.wf() ==> final(self)@.wf(),
    {
        broadcast use {vstd::std_specs::btree::group_btree_axioms, vstd::laws_cmp::group_laws_cmp};

        if !self.epoch_history.contains_key(&self.current_epoch) {
            self.epoch_history.insert(self.current_epoch, EpochState::default());
            assert(self@.epochs =~= old(self)@.with_current().epochs);
        }
    }

    /// Counts `proof` for `kinode_id` in the current epoch unless that peer
    /// has submitted there before, and says whether it was counted.
    pub fn add_proof(&mut self, kinode_id: KinodeId, proof: AggregationInput) -> (is_new: bool)
        ensures
            is_new == old(self)@.accepts(kinode_id@),
            final(self)@ == old(self)@.with_proof(kinode_id@, proof@),
            old(self)@.wf() ==> final(self)@.wf(),
    {
        let is_new = match self.current_epoch_state_mut() {
            Some(state) => state.insert(kinode_id, proof),
            None => false,
        };
        assert(self@.epochs =~= old(self)@.with_proof(kinode_id@, proof@).epochs);
        is_new
    }

    /// What `kinode_id` is counted with in the current epoch.
    pub fn get_proofs_for_kinode(&self, kinode_id: &str) -> (found: Option<&AggregationInput>)
        ensures
            match found {
                Some(input) => self@.proof_of(kinode_id@) == Some(input@),
                None => self@.proof_of(kinode_id@).is_none(),
            },
    {
        match self.current_epoch_state() {
            Some(state) => state.get(kinode_id),
            None => None,
        }
    }

    /// The peers of the current epoch, in the order of their submissions.
    pub fn get_all_kinode_ids(&self) -> (ids: Vec<String>)
        ensures
            ids@.map_values(|s: String| s@) == self@.sources(),
    {
        match self.current_epoch_state() {
            Some(state) => state.sources(),
            None => {
                let ids: Vec<String> = Vec::new();
                assert(ids@.map_values(|s: String| s@) =~= Seq::<Seq<char>>::empty());
                ids
            },
        }
    }

    /// A copy of the current epoch's submissions, in the order of
    /// `get_all_kinode_ids`: what goes to aggregation.
    pub fn current_batch(&self) -> (inputs: Vec<AggregationInput>)
        ensures
            crate::shared_types::input_models(inputs@) == self@.batch(),
    {
        match self.current_epoch_state() {
            Some(state) => state.batch(),
            None => {
                let inputs: Vec<AggregationInput> = Vec::new();
                assert(crate::shared_types::input_models(inputs@) =~= Seq::<InputModel>::empty());
                inputs
            },
        }
    }

    /// Files `proof` as the aggregated proof of `epoch`, whichever epoch is
    /// current by now, and says whether that epoch is known.  No other epoch
    /// changes.
    pub fn set_aggregated_proof(&mut self, epoch: u64, proof: ProofWithPublicValues) -> (filed:
        bool)
        ensures
            filed == old(self)@.epochs.contains_key(epoch),
            final(self)@ == old(self)@.with_aggregated(epoch, proof@),
            old(self)@.wf() ==> final(self)@.wf(),
    {
        let filed = match epoch_mut(&mut self.epoch_history, epoch) {
            Some(state) => {
                state.set_aggregated(proof);
                true
            },
            None => false,
        };
        assert(self@.epochs =~= old(self)@.with_aggregated(epoch, proof@).epochs);
        filed
    }

    /// The aggregated proof of `epoch`; none where the epoch is unknown or
    /// its proof has not arrived.
    pub fn get_aggregated_proof(&self, epoch: u64) -> (found: Option<&ProofWithPublicValues>)
        ensures
            match found {
                Some(proof) => self@.aggregated(epoch) == Some(proof@),
                None => self@.aggregated(epoch).is_none(),
            },
    {
        match self.get_epoch_state(epoch) {
            Some(state) => state.aggregated(),
            None => None,
        }
    }

    /// The current epoch, to be written to.  Whatever is written, the
    /// number of the current epoch and all other epochs stay as they are.
    pub fn current_epoch_state_mut(&mut self) -> (found: Option<&mut EpochState>)
        ensures
            final(self).current_epoch == old(self).current_epoch,
            match found {
                Some(state) => old(self).epoch_history@.contains_key(old(self).current_epoch)
                    && *state == old(self).epoch_history@[old(self).current_epoch]
                    && final(self).epoch_history@ == old(self).epoch_history@.insert(
                    old(self).current_epoch,
                    *final(state),
                ),
                None => !old(self).epoch_history@.contains_key(old(self).current_epoch)
                    && final(self).epoch_history@ == old(self).epoch_history@,
            },
    {
        epoch_mut(&mut self.epoch_history, self.current_epoch)
    }

    /// The numbers of all epochs that were ever opened, in increasing
    /// order.
    pub fn epochs(&self) -> (numbers: Vec<u64>)
        ensures
            numbers@.to_set() == self@.epochs.dom(),
            increasing(numbers@),
    {
        broadcast use {vstd::std_specs::btree::group_btree_axioms, vstd::laws_cmp::group_laws_cmp};

        let mut numbers: Vec<u64> = Vec::new();
        let ghost all = vstd::std_specs::btree::spec_keys_iter(&self.epoch_history).remaining();
        for key in it: self.epoch_history.keys()
            invariant
                it.seq() == all,
                all.no_duplicates(),
                increasing(numbers@),
                numbers@.len() == it.index(),
                forall|v: u64|
                    numbers@.contains(v) <==> exists|i: int|
                        0 <= i < it.index() && *#[trigger] all[i] == v,
        {
            proof {
                if numbers@.contains(*key) {
                    let i = choose|i: int| 0 <= i < it.index() && *#[trigger] all[i] == *key;
                    assert(all[i] == all[it.index()]);
                }
            }
            insert_in_order(&mut numbers, *key);
            proof {
                assert forall|v: u64| numbers@.contains(v) implies exists|i: int|
                    0 <= i < it.index() + 1 && *#[trigger] all[i] == v by {
                    if v == *key {
                        assert(*all[it.index()] == v);
                    } else {
                        let i = choose|i: int| 0 <= i < it.index() && *#[trigger] all[i] == v;
                        assert(*all[i] == v);
                    }
                }
            }
        }
        proof {
            assert forall|v: u64| numbers@.to_set().contains(v) <==> self@.epochs.dom().contains(
                v,
            ) by {
                if numbers@.contains(v) {
                    let i = choose|i: int| 0 <= i < all.len() && *#[trigger] all[i] == v;
                    assert(all.unref()[i] == v);
                    assert(all.unref().to_set().contains(v));
                }
                if self@.epochs.dom().contains(v) {
                    assert(all.unref().to_set().contains(v));
                    let i = all.unref().index_of(v);
                    assert(*all[i] == v);
                }
            }
            assert(numbers@.to_set() =~= self@.epochs.dom());
        }
        numbers
    }

    /// What `epoch` holds, if it was ever opened.
    pub fn get_epoch_state(&self, epoch: u64) -> (found: Option<&EpochState>)
        ensures
            match found {
                Some(state) => self@.epochs.contains_key(epoch) && self@.epochs[epoch] == state@,
                None => !self@.epochs.contains_key(epoch),
            },
    {
        broadcast use {vstd::std_specs::btree::group_btree_axioms, vstd::laws_cmp::group_laws_cmp};

        self.epoch_history.get(&epoch)
    }

    /// What the current epoch holds.
    pub fn current_epoch_state(&self) -> (found: Option<&EpochState>)
        ensures
            match found {
                Some(state) => self@.epochs.contains_key(self.current_epoch)
                    && self@.epochs[self.current_epoch] == state@,
                None => !self@.epochs.contains_key(self.current_epoch),
            },
    {
        self.get_epoch_state(self.current_epoch)
    }
}

/// The store after each submission of `submissions` was handed to it in turn.
pub open spec fn with_proofs(state: StateModel, submissions: Seq<(Seq<char>, InputModel)>) -> StateModel
    decreases submissions.len(),
{
    if submissions.len() == 0 {
        state
    } else {
        let last = submissions.last();
        with_proofs(state, submissions.drop_last()).with_proof(last.0, last.1)
    }
}

/// An epoch to which a peer is added counts that peer with what it sent,
/// and still counts no peer twice.
pub proof fn lemma_epoch_first_submission(
    epoch: EpochModel,
    source: Seq<char>,
    input: InputModel,
)
    requires
        !epoch.contains(source),
    ensures
        epoch.with_proof(source, input).contains(source),
        epoch.with_proof(source, input).proof_of(source) == Some(input),
        epoch.wf() ==> epoch.with_proof(source, input).wf(),
{
    let after = epoch.with_proof(source, input);
    let at = epoch.entries.len() as int;
    assert(after.entries[at].0 == source);
    assert forall|j: int| 0 <= j < at implies #[trigger] after.entries[j].0 != source by {
        assert(after.entries[j] == epoch.entries[j]);
    }
    let p = after.position(source);
    assert(p == at) by {
        if p < at {
            assert(after.entries[p] == epoch.entries[p]);
        }
    }
}

/// First submission wins: when one peer submits twice in an epoch, the
/// second submission is refused and changes nothing; and where the peer
/// had not submitted before, what the store keeps for it is the first.
pub proof fn lemma_first_submission_wins(
    state: StateModel,
    source: Seq<char>,
    first: InputModel,
    second: InputModel,
)
    requires
        state.wf(),
    ensures
        !state.with_proof(source, first).accepts(source),
        state.with_proof(source, first).with_proof(source, second) == state.with_proof(
            source,
            first,
        ),
        state.accepts(source) ==> state.with_proof(source, first).with_proof(
            source,
            second,
        ).proof_of(source) == Some(first),
{
    let current = state.current_epoch;
    assert(state.epochs.contains_key(current));
    let epoch = state.epochs[current];
    let once = state.with_proof(source, first);
    assert(once.epochs[current] == epoch.with_proof(source, first));
    if !epoch.contains(source) {
        lemma_epoch_first_submission(epoch, source, first);
    }
    assert(once.epochs[current].contains(source));
    assert(once.with_proof(source, second).epochs =~= once.epochs);
}

/// Epochs advance one by one: `n` transitions after the start the current
/// epoch is `n`, and the history holds the epochs 0 to `n`, each once and
/// none besides.
pub proof fn lemma_epoch_monotonic(n: nat)
    requires
        n <= u64::MAX,
    ensures
        StateModel::initial().advanced(n).current_epoch == n,
        StateModel::initial().advanced(n).wf(),
        forall|e: u64| #[trigger]
            StateModel::initial().advanced(n).epochs.contains_key(e) <==> e <= n,
        StateModel::initial().advanced(n).epochs.dom().finite(),
        StateModel::initial().advanced(n).epochs.dom().len() == n + 1,
    decreases n,
{
    let start = StateModel::initial();
    if n == 0 {
        assert(start.advanced(0) == start);
        assert(start.epochs.dom() =~= set![0u64]);
    } else {
        lemma_epoch_monotonic((n - 1) as nat);
        let before = start.advanced((n - 1) as nat);
        let after = start.advanced(n);
        assert(after == before.next());
        assert(!before.epochs.contains_key(n as u64));
        assert(after.epochs.dom() =~= before.epochs.dom().insert(n as u64));
    }
}

/// A transition opens an empty epoch and leaves all earlier epochs as they
/// were.
pub proof fn lemma_next_keeps_history(state: StateModel, epoch: u64)
    requires
        state.wf(),
        state.current_epoch < u64::MAX,
        epoch <= state.current_epoch,
    ensures
        state.next().wf(),
        state.next().current_epoch == state.current_epoch + 1,
        state.next().epochs[state.next().current_epoch] == EpochModel::empty(),
        state.next().epochs.contains_key(epoch),
        state.next().epochs[epoch] == state.epochs[epoch],
{
}

/// Submissions reach the current epoch only: whatever is submitted, every
/// other epoch keeps what it held, and no epoch appears or disappears.
pub proof fn lemma_submissions_touch_current_only(
    state: StateModel,
    submissions: Seq<(Seq<char>, InputModel)>,
    epoch: u64,
)
    ensures
        with_proofs(state, submissions).current_epoch == state.current_epoch,
        with_proofs(state, submissions).epochs.dom() == state.epochs.dom(),
        epoch != state.current_epoch ==> with_proofs(state, submissions).epochs[epoch]
            == state.epochs[epoch],
        with_proofs(state, submissions).aggregated(epoch) == state.aggregated(epoch),
    decreases submissions.len(),
{
    if submissions.len() > 0 {
        lemma_submissions_touch_current_only(state, submissions.drop_last(), epoch);
        let before = with_proofs(state, submissions.drop_last());
        let last = submissions.last();
        assert(before.with_proof(last.0, last.1).epochs.dom() =~= before.epochs.dom());
    }
}

/// Closed epochs are immutable: once an epoch has been closed, no
/// submission changes what it, or any epoch before it, has collected.
pub proof fn lemma_closed_epochs_immutable(
    state: StateModel,
    submissions: Seq<(Seq<char>, InputModel)>,
    epoch: u64,
)
    requires
        state.wf(),
        state.current_epoch < u64::MAX,
        epoch <= state.current_epoch,
    ensures
        with_proofs(state.next(), submissions).epochs.contains_key(epoch),
        with_proofs(state.next(), submissions).epochs[epoch] == state.epochs[epoch],
{
    lemma_submissions_touch_current_only(state.next(), submissions, epoch);
    assert(state.next().epochs.dom().contains(epoch));
}

/// A late result is filed where it belongs: the aggregated proof of a
/// closed epoch, filed after the epoch was closed, is what a lookup of that
/// epoch returns, and the current epoch's aggregated proof stays as it was.
pub proof fn lemma_late_result_attribution(state: StateModel, epoch: u64, proof: ProofModel)
    requires
        state.wf(),
        epoch < state.current_epoch,
    ensures
        state.with_aggregated(epoch, proof).aggregated(epoch) == Some(proof),
        state.with_aggregated(epoch, proof).aggregated(state.current_epoch) == state.aggregated(
            state.current_epoch,
        ),
        state.with_aggregated(epoch, proof).current_epoch == state.current_epoch,
        forall|other: u64|
            other != epoch ==> state.with_aggregated(epoch, proof).epochs[other]
                == state.epochs[other],
        state.with_aggregated(epoch, proof).epochs[epoch].entries == state.epochs[epoch].entries,
        state.with_aggregated(epoch, proof).wf(),
{
    assert(state.epochs.contains_key(epoch));
}

} // verus!
