//! The store as bytes: what is written after every change and read back at
//! the next start.
//!
//! A number is eight bytes, least significant first.  A byte string is its
//! length as a number, then its bytes; a text is the byte string of its
//! UTF-8 encoding.  An epoch is the number of its submissions, then each
//! submission (source, proof, public values, verifying key), then one byte
//! that says whether an aggregated proof follows.  The store is the number
//! of the current epoch, then the epochs from 0 to that one.
//!
//! `dec_*` says how bytes are read; `enc_*` how values are written.  What
//! was written reads back as what it was, and a reader accepts no store
//! that counts a peer twice in an epoch.

use crate::shared_types::{AggregationInput, InputModel, ProofModel, ProofWithPublicValues};
use crate::structs::{EpochModel, EpochState, State, StateError, StateModel};
use std::collections::BTreeMap;
use vstd::bytes::{spec_u64_from_le_bytes, spec_u64_to_le_bytes};
use vstd::bytes::{u64_from_le_bytes, u64_to_le_bytes};
use vstd::prelude::*;
use vstd::slice::slice_subrange;
use vstd::string::StringSliceAdditionalSpecFns;
use vstd::utf8::{decode_utf8, encode_utf8, valid_utf8};

verus! {

/// A number as bytes.
pub open spec fn enc_u64(x: u64) -> Seq<u8> {
    spec_u64_to_le_bytes(x)
}

/// The number at the start of `bytes`, and what follows it.
pub open spec fn dec_u64(bytes: Seq<u8>) -> Option<(u64, Seq<u8>)> {
    if bytes.len() >= 8 {
        Some((spec_u64_from_le_bytes(bytes.subrange(0, 8)), bytes.skip(8)))
    } else {
        None
    }
}

/// A byte string as bytes.
pub open spec fn enc_bytes(x: Seq<u8>) -> Seq<u8> {
    enc_u64(x.len() as u64) + x
}

/// The byte string at the start of `bytes`, and what follows it.
pub open spec fn dec_bytes(bytes: Seq<u8>) -> Option<(Seq<u8>, Seq<u8>)> {
    match dec_u64(bytes) {
        Some((n, rest)) => if n <= rest.len() {
            Some((rest.subrange(0, n as int), rest.skip(n as int)))
        } else {
            None
        },
        None => None,
    }
}

/// A text as bytes.
pub open spec fn enc_text(x: Seq<char>) -> Seq<u8> {
    enc_bytes(encode_utf8(x))
}

/// The text at the start of `bytes`, and what follows it.
pub open spec fn dec_text(bytes: Seq<u8>) -> Option<(Seq<char>, Seq<u8>)> {
    match dec_bytes(bytes) {
        Some((raw, rest)) => if valid_utf8(raw) {
            Some((decode_utf8(raw), rest))
        } else {
            None
        },
        None => None,
    }
}

/// A proof as bytes.
pub open spec fn enc_proof(x: ProofModel) -> Seq<u8> {
    enc_bytes(x.proof) + enc_bytes(x.public_values)
}

/// The proof at the start of `bytes`, and what follows it.
pub open spec fn dec_proof(bytes: Seq<u8>) -> Option<(ProofModel, Seq<u8>)> {
    match dec_bytes(bytes) {
        Some((proof, rest)) => match dec_bytes(rest) {
            Some((public_values, rest)) => Some((ProofModel { proof, public_values }, rest)),
            None => None,
        },
        None => None,
    }
}

/// A submission as bytes.
pub open spec fn enc_entry(x: (Seq<char>, InputModel)) -> Seq<u8> {
    enc_text(x.0) + enc_proof(x.1.proof) + enc_bytes(x.1.vk)
}

/// The submission at the start of `bytes`, and what follows it.
pub open spec fn dec_entry(bytes: Seq<u8>) -> Option<((Seq<char>, InputModel), Seq<u8>)> {
    match dec_text(bytes) {
        Some((source, rest)) => match dec_proof(rest) {
            Some((proof, rest)) => match dec_bytes(rest) {
                Some((vk, rest)) => Some(((source, InputModel { proof, vk }), rest)),
                None => None,
            },
            None => None,
        },
        None => None,
    }
}

/// Submissions as bytes, one after another.
pub open spec fn enc_entries(x: Seq<(Seq<char>, InputModel)>) -> Seq<u8>
    decreases x.len(),
{
    if x.len() == 0 {
        Seq::empty()
    } else {
        enc_entries(x.drop_last()) + enc_entry(x.last())
    }
}

/// The `n` submissions at the start of `bytes`, and what follows them.
pub open spec fn dec_entries(bytes: Seq<u8>, n: nat) -> Option<
    (Seq<(Seq<char>, InputModel)>, Seq<u8>),
>
    decreases n,
{
    if n == 0 {
        Some((Seq::empty(), bytes))
    } else {
        match dec_entries(bytes, (n - 1) as nat) {
            Some((entries, rest)) => match dec_entry(rest) {
                Some((entry, rest)) => Some((entries.push(entry), rest)),
                None => None,
            },
            None => None,
        }
    }
}

/// An aggregated proof, or its absence, as bytes.
pub open spec fn enc_aggregated(x: Option<ProofModel>) -> Seq<u8> {
    match x {
        None => seq![0u8],
        Some(proof) => seq![1u8] + enc_proof(proof),
    }
}

/// The aggregated proof, or its absence, at the start of `bytes`, and what
/// follows.
pub open spec fn dec_aggregated(bytes: Seq<u8>) -> Option<(Option<ProofModel>, Seq<u8>)> {
    if bytes.len() == 0 {
        None
    } else if bytes[0] == 0 {
        Some((None, bytes.skip(1)))
    } else if bytes[0] == 1 {
        match dec_proof(bytes.skip(1)) {
            Some((proof, rest)) => Some((Some(proof), rest)),
            None => None,
        }
    } else {
        None
    }
}

/// An epoch as bytes.
pub open spec fn enc_epoch(x: EpochModel) -> Seq<u8> {
    enc_u64(x.entries.len() as u64) + enc_entries(x.entries) + enc_aggregated(x.aggregated)
}

/// The epoch at the start of `bytes`, and what follows it.  An epoch that
/// counts a peer twice is none.
pub open spec fn dec_epoch(bytes: Seq<u8>) -> Option<(EpochModel, Seq<u8>)> {
    match dec_u64(bytes) {
        Some((n, rest)) => match dec_entries(rest, n as nat) {
            Some((entries, rest)) => match dec_aggregated(rest) {
                Some((aggregated, rest)) => {
                    let epoch = EpochModel { entries, aggregated };
                    if epoch.wf() {
                        Some((epoch, rest))
                    } else {
                        None
                    }
                },
                None => None,
            },
            None => None,
        },
        None => None,
    }
}

/// Epochs as bytes, one after another.
pub open spec fn enc_epochs(x: Seq<EpochModel>) -> Seq<u8>
    decreases x.len(),
{
    if x.len() == 0 {
        Seq::empty()
    } else {
        enc_epochs(x.drop_last()) + enc_epoch(x.last())
    }
}

/// The `n` epochs at the start of `bytes`, and what follows them.
pub open spec fn dec_epochs(bytes: Seq<u8>, n: nat) -> Option<(Seq<EpochModel>, Seq<u8>)>
    decreases n,
{
    if n == 0 {
        Some((Seq::empty(), bytes))
    } else {
        match dec_epochs(bytes, (n - 1) as nat) {
            Some((epochs, rest)) => match dec_epoch(rest) {
                Some((epoch, rest)) => Some((epochs.push(epoch), rest)),
                None => None,
            },
            None => None,
        }
    }
}

/// Whether the store has every epoch from 0 to the current one.
pub open spec fn complete(state: StateModel) -> bool {
    forall|e: u64| e <= state.current_epoch ==> #[trigger] state.epochs.contains_key(e)
}

/// The epochs from 0 to the current one, in order.
pub open spec fn history(state: StateModel) -> Seq<EpochModel> {
    Seq::new((state.current_epoch + 1) as nat, |e: int| state.epochs[e as u64])
}

/// The store as bytes.
pub open spec fn enc_state(state: StateModel) -> Seq<u8> {
    enc_u64(state.current_epoch) + enc_epochs(history(state))
}

/// The store that `bytes` are, where they are one: a number, then one
/// epoch more than it says, and nothing after them.
pub open spec fn dec_state(bytes: Seq<u8>) -> Option<StateModel> {
    match dec_u64(bytes) {
        Some((current_epoch, rest)) => match dec_epochs(rest, (current_epoch + 1) as nat) {
            Some((epochs, rest)) => if rest.len() == 0 {
                Some(
                    StateModel {
                        current_epoch,
                        epochs: Map::new(
                            |e: u64| e <= current_epoch,
                            |e: u64| epochs[e as int],
                        ),
                    },
                )
            } else {
                None
            },
            None => None,
        },
        None => None,
    }
}

/// A number that was written reads back.
pub proof fn lemma_u64_round_trip(x: u64, rest: Seq<u8>)
    ensures
        dec_u64(enc_u64(x) + rest) == Some((x, rest)),
{
    vstd::bytes::lemma_auto_spec_u64_to_from_le_bytes();
    let bytes = enc_u64(x) + rest;
    assert(bytes.subrange(0, 8) =~= enc_u64(x));
    assert(bytes.skip(8) =~= rest);
}

/// A byte string that was written reads back.
pub proof fn lemma_bytes_round_trip(x: Seq<u8>, rest: Seq<u8>)
    requires
        x.len() <= u64::MAX,
    ensures
        dec_bytes(enc_bytes(x) + rest) == Some((x, rest)),
{
    let n = x.len() as u64;
    assert(enc_bytes(x) + rest =~= enc_u64(n) + (x + rest));
    lemma_u64_round_trip(n, x + rest);
    assert((x + rest).subrange(0, n as int) =~= x);
    assert((x + rest).skip(n as int) =~= rest);
}

/// A text that was written reads back.
pub proof fn lemma_text_round_trip(x: Seq<char>, rest: Seq<u8>)
    requires
        encode_utf8(x).len() <= u64::MAX,
    ensures
        dec_text(enc_text(x) + rest) == Some((x, rest)),
{
    lemma_bytes_round_trip(encode_utf8(x), rest);
    vstd::utf8::encode_utf8_valid_utf8(x);
    vstd::utf8::encode_utf8_decode_utf8(x);
}

/// Whether each byte string of a proof is short enough for its length to
/// be written as a number.
pub open spec fn proof_fits(x: ProofModel) -> bool {
    x.proof.len() <= u64::MAX && x.public_values.len() <= u64::MAX
}

/// Whether each byte string of a submission is short enough for its length
/// to be written as a number.
pub open spec fn entry_fits(x: (Seq<char>, InputModel)) -> bool {
    encode_utf8(x.0).len() <= u64::MAX && proof_fits(x.1.proof) && x.1.vk.len() <= u64::MAX
}

/// Whether an epoch can be written: each of its lengths is short enough
/// to be written as a number.
pub open spec fn epoch_fits(x: EpochModel) -> bool {
    &&& x.entries.len() <= u64::MAX
    &&& forall|i: int| 0 <= i < x.entries.len() ==> entry_fits(#[trigger] x.entries[i])
    &&& x.aggregated matches Some(proof) ==> proof_fits(proof)
}

/// A proof that was written reads back.
pub proof fn lemma_proof_round_trip(x: ProofModel, rest: Seq<u8>)
    requires
        proof_fits(x),
    ensures
        dec_proof(enc_proof(x) + rest) == Some((x, rest)),
{
    assert(enc_proof(x) + rest =~= enc_bytes(x.proof) + (enc_bytes(x.public_values) + rest));
    lemma_bytes_round_trip(x.proof, enc_bytes(x.public_values) + rest);
    lemma_bytes_round_trip(x.public_values, rest);
}

/// A submission that was written reads back.
pub proof fn lemma_entry_round_trip(x: (Seq<char>, InputModel), rest: Seq<u8>)
    requires
        entry_fits(x),
    ensures
        dec_entry(enc_entry(x) + rest) == Some((x, rest)),
{
    let tail = enc_bytes(x.1.vk) + rest;
    assert(enc_entry(x) + rest =~= enc_text(x.0) + (enc_proof(x.1.proof) + tail));
    lemma_text_round_trip(x.0, enc_proof(x.1.proof) + tail);
    lemma_proof_round_trip(x.1.proof, tail);
    lemma_bytes_round_trip(x.1.vk, rest);
}

/// Submissions that were written read back.
pub proof fn lemma_entries_round_trip(x: Seq<(Seq<char>, InputModel)>, rest: Seq<u8>)
    requires
        forall|i: int| 0 <= i < x.len() ==> entry_fits(#[trigger] x[i]),
    ensures
        dec_entries(enc_entries(x) + rest, x.len()) == Some((x, rest)),
    decreases x.len(),
{
    if x.len() > 0 {
        let tail = enc_entry(x.last()) + rest;
        assert(enc_entries(x) + rest =~= enc_entries(x.drop_last()) + tail);
        lemma_entries_round_trip(x.drop_last(), tail);
        lemma_entry_round_trip(x.last(), rest);
        assert(x.drop_last().push(x.last()) =~= x);
    }
}

/// An aggregated proof that was written, or its absence, reads back.
pub proof fn lemma_aggregated_round_trip(x: Option<ProofModel>, rest: Seq<u8>)
    requires
        x matches Some(proof) ==> proof_fits(proof),
    ensures
        dec_aggregated(enc_aggregated(x) + rest) == Some((x, rest)),
{
    let bytes = enc_aggregated(x) + rest;
    match x {
        None => {
            assert(bytes.skip(1) =~= rest);
        },
        Some(proof) => {
            assert(bytes.skip(1) =~= enc_proof(proof) + rest);
            lemma_proof_round_trip(proof, rest);
        },
    }
}

/// An epoch that was written reads back.
pub proof fn lemma_epoch_round_trip(x: EpochModel, rest: Seq<u8>)
    requires
        x.wf(),
        epoch_fits(x),
    ensures
        dec_epoch(enc_epoch(x) + rest) == Some((x, rest)),
{
    let n = x.entries.len() as u64;
    let tail = enc_aggregated(x.aggregated) + rest;
    assert(enc_epoch(x) + rest =~= enc_u64(n) + (enc_entries(x.entries) + tail));
    lemma_u64_round_trip(n, enc_entries(x.entries) + tail);
    lemma_entries_round_trip(x.entries, tail);
    lemma_aggregated_round_trip(x.aggregated, rest);
}

/// Epochs that were written read back.
pub proof fn lemma_epochs_round_trip(x: Seq<EpochModel>, rest: Seq<u8>)
    requires
        forall|i: int| 0 <= i < x.len() ==> (#[trigger] x[i]).wf() && epoch_fits(x[i]),
    ensures
        dec_epochs(enc_epochs(x) + rest, x.len()) == Some((x, rest)),
    decreases x.len(),
{
    if x.len() > 0 {
        let tail = enc_epoch(x.last()) + rest;
        assert(enc_epochs(x) + rest =~= enc_epochs(x.drop_last()) + tail);
        lemma_epochs_round_trip(x.drop_last(), tail);
        lemma_epoch_round_trip(x.last(), rest);
        assert(x.drop_last().push(x.last()) =~= x);
    }
}

/// Whether the store can be written: each of its lengths is short enough
/// to be written as a number.
pub open spec fn state_fits(state: StateModel) -> bool {
    forall|e: u64| #[trigger] state.epochs.contains_key(e) ==> epoch_fits(state.epochs[e])
}

/// Persistence is lossless: a store that was written reads back as the
/// store it was, epoch by epoch.
pub proof fn lemma_state_round_trip(state: StateModel)
    requires
        state.wf(),
        state_fits(state),
    ensures
        dec_state(enc_state(state)) == Some(state),
{
    let epochs = history(state);
    assert forall|i: int| 0 <= i < epochs.len() implies (#[trigger] epochs[i]).wf() && epoch_fits(
        epochs[i],
    ) by {
        assert(state.epochs.contains_key(i as u64));
    }
    let none = Seq::<u8>::empty();
    assert(enc_state(state) =~= enc_u64(state.current_epoch) + (enc_epochs(epochs) + none));
    lemma_u64_round_trip(state.current_epoch, enc_epochs(epochs) + none);
    lemma_epochs_round_trip(epochs, none);
    let read = dec_state(enc_state(state)).unwrap();
    assert(read.epochs =~= state.epochs);
}

/// Calls `String::from_utf8` of std, which takes the bytes as a text where
/// they are valid UTF-8 and refuses them where they are not.
#[verifier::external_body]
fn text_from_utf8(bytes: Vec<u8>) -> (text: Option<String>)
    ensures
        match text {
            Some(text) => valid_utf8(bytes@) && text@ == decode_utf8(bytes@),
            None => !valid_utf8(bytes@),
        },
{
    String::from_utf8(bytes).ok()
}

/// Appends a number.
fn write_u64(out: &mut Vec<u8>, x: u64)
    ensures
        final(out)@ == old(out)@ + enc_u64(x),
{
    let mut bytes = u64_to_le_bytes(x);
    out.append(&mut bytes);
}

/// Appends a byte string.
fn write_bytes(out: &mut Vec<u8>, x: &[u8])
    ensures
        final(out)@ == old(out)@ + enc_bytes(x@),
        x@.len() <= u64::MAX,
{
    write_u64(out, x.len() as u64);
    let mut i: usize = 0;
    while i < x.len()
        invariant
            i <= x.len(),
            out@ == old(out)@ + enc_u64(x@.len() as u64) + x@.subrange(0, i as int),
        decreases x.len() - i,
    {
        out.push(x[i]);
        i += 1;
    }
    assert(x@.subrange(0, x.len() as int) == x@);
    assert(out@ =~= old(out)@ + enc_bytes(x@));
}

/// Appends a proof.
fn write_proof(out: &mut Vec<u8>, x: &ProofWithPublicValues)
    ensures
        final(out)@ == old(out)@ + enc_proof(x@),
        proof_fits(x@),
{
    write_bytes(out, x.proof.as_slice());
    write_bytes(out, x.public_values.as_slice());
    assert(out@ =~= old(out)@ + enc_proof(x@));
}

/// Appends a submission.
fn write_entry(out: &mut Vec<u8>, source: &String, input: &AggregationInput)
    ensures
        final(out)@ == old(out)@ + enc_entry((source@, input@)),
        entry_fits((source@, input@)),
{
    write_bytes(out, source.as_str().as_bytes());
    write_proof(out, &input.proof);
    write_bytes(out, input.vk.as_slice());
    assert(out@ =~= old(out)@ + enc_entry((source@, input@)));
}

/// Appends an epoch.
fn write_epoch(out: &mut Vec<u8>, x: &EpochState)
    ensures
        final(out)@ == old(out)@ + enc_epoch(x@),
        epoch_fits(x@),
{
    let n: usize = x.len();
    write_u64(out, n as u64);
    let ghost entries = x@.entries;
    let ghost start = out@;
    let mut i: usize = 0;
    assert(entries.subrange(0, 0) =~= Seq::empty());
    while i < n
        invariant
            i <= n,
            n == entries.len(),
            entries == x@.entries,
            out@ == start + enc_entries(entries.subrange(0, i as int)),
            forall|j: int| 0 <= j < i ==> entry_fits(#[trigger] entries[j]),
        decreases n - i,
    {
        let (source, input) = x.entry(i);
        write_entry(out, source, input);
        proof {
            let longer = entries.subrange(0, i + 1);
            assert(longer.drop_last() =~= entries.subrange(0, i as int));
            assert(longer.last() == entries[i as int]);
            assert(out@ =~= start + enc_entries(longer));
        }
        i += 1;
    }
    assert(entries.subrange(0, n as int) =~= entries);
    match x.aggregated() {
        None => {
            out.push(0u8);
            assert(out@ =~= old(out)@ + enc_epoch(x@));
        },
        Some(proof) => {
            out.push(1u8);
            write_proof(out, proof);
            assert(out@ =~= old(out)@ + enc_epoch(x@));
        },
    }
}

/// Reads a number at `at`.
fn read_u64(bytes: &[u8], at: usize) -> (read: Option<(u64, usize)>)
    requires
        at <= bytes@.len(),
    ensures
        match read {
            Some((x, next)) => at <= next <= bytes@.len() && dec_u64(bytes@.skip(at as int))
                == Some((x, bytes@.skip(next as int))),
            None => dec_u64(bytes@.skip(at as int)).is_none(),
        },
{
    if bytes.len() - at < 8 {
        return None;
    }
    let x: u64 = u64_from_le_bytes(slice_subrange(bytes, at, at + 8));
    assert(bytes@.skip(at as int).subrange(0, 8) =~= bytes@.subrange(at as int, at + 8));
    assert(bytes@.skip(at as int).skip(8) =~= bytes@.skip(at + 8));
    Some((x, at + 8))
}

/// Reads a byte string at `at`.
fn read_bytes(bytes: &[u8], at: usize) -> (read: Option<(Vec<u8>, usize)>)
    requires
        at <= bytes@.len(),
    ensures
        match read {
            Some((x, next)) => at <= next <= bytes@.len() && dec_bytes(bytes@.skip(at as int))
                == Some((x@, bytes@.skip(next as int))),
            None => dec_bytes(bytes@.skip(at as int)).is_none(),
        },
{
    let (n, start) = match read_u64(bytes, at) {
        Some(read) => read,
        None => {
            return None;
        },
    };
    if n > (bytes.len() - start) as u64 {
        return None;
    }
    let end: usize = start + n as usize;
    let x = vstd::slice::slice_to_vec(slice_subrange(bytes, start, end));
    assert(bytes@.skip(start as int).subrange(0, n as int) =~= bytes@.subrange(
        start as int,
        end as int,
    ));
    assert(bytes@.skip(start as int).skip(n as int) =~= bytes@.skip(end as int));
    Some((x, end))
}

/// Reads a text at `at`.
fn read_text(bytes: &[u8], at: usize) -> (read: Option<(String, usize)>)
    requires
        at <= bytes@.len(),
    ensures
        match read {
            Some((x, next)) => at <= next <= bytes@.len() && dec_text(bytes@.skip(at as int))
                == Some((x@, bytes@.skip(next as int))),
            None => dec_text(bytes@.skip(at as int)).is_none(),
        },
{
    match read_bytes(bytes, at) {
        Some((raw, next)) => match text_from_utf8(raw) {
            Some(text) => Some((text, next)),
            None => None,
        },
        None => None,
    }
}

/// Reads a proof at `at`.
fn read_proof(bytes: &[u8], at: usize) -> (read: Option<(ProofWithPublicValues, usize)>)
    requires
        at <= bytes@.len(),
    ensures
        match read {
            Some((x, next)) => at <= next <= bytes@.len() && dec_proof(bytes@.skip(at as int))
                == Some((x@, bytes@.skip(next as int))),
            None => dec_proof(bytes@.skip(at as int)).is_none(),
        },
{
    let (proof, next) = match read_bytes(bytes, at) {
        Some(read) => read,
        None => {
            return None;
        },
    };
    match read_bytes(bytes, next) {
        Some((public_values, next)) => Some((ProofWithPublicValues { proof, public_values }, next)),
        None => None,
    }
}

/// Reads a submission at `at`.
fn read_entry(bytes: &[u8], at: usize) -> (read: Option<(String, AggregationInput, usize)>)
    requires
        at <= bytes@.len(),
    ensures
        match read {
            Some((source, input, next)) => at <= next <= bytes@.len() && dec_entry(
                bytes@.skip(at as int),
            ) == Some(((source@, input@), bytes@.skip(next as int))),
            None => dec_entry(bytes@.skip(at as int)).is_none(),
        },
{
    let (source, next) = match read_text(bytes, at) {
        Some(read) => read,
        None => {
            return None;
        },
    };
    let (proof, next) = match read_proof(bytes, next) {
        Some(read) => read,
        None => {
            return None;
        },
    };
    match read_bytes(bytes, next) {
        Some((vk, next)) => Some((source, AggregationInput { proof, vk }, next)),
        None => None,
    }
}

/// What a reader has after `k` submissions is the beginning of what it
/// has after `n`: where it fails early it fails, and what it has read it
/// keeps.
pub proof fn lemma_entries_prefix(bytes: Seq<u8>, k: nat, n: nat)
    requires
        k <= n,
        dec_entries(bytes, n).is_some(),
    ensures
        dec_entries(bytes, k).is_some(),
        dec_entries(bytes, k).unwrap().0 == dec_entries(bytes, n).unwrap().0.subrange(0, k as int),
        dec_entries(bytes, n).unwrap().0.len() == n,
    decreases n,
{
    if n == 0 {
        assert(dec_entries(bytes, n).unwrap().0.subrange(0, 0) =~= Seq::empty());
    } else {
        let shorter = dec_entries(bytes, (n - 1) as nat).unwrap().0;
        let all = dec_entries(bytes, n).unwrap().0;
        if k == n {
            lemma_entries_prefix(bytes, (n - 1) as nat, (n - 1) as nat);
            assert(all.subrange(0, n as int) =~= all);
        } else {
            lemma_entries_prefix(bytes, k, (n - 1) as nat);
            assert(all.subrange(0, k as int) =~= shorter.subrange(0, k as int));
        }
    }
}

/// The same of epochs.
pub proof fn lemma_epochs_prefix(bytes: Seq<u8>, k: nat, n: nat)
    requires
        k <= n,
        dec_epochs(bytes, n).is_some(),
    ensures
        dec_epochs(bytes, k).is_some(),
        dec_epochs(bytes, k).unwrap().0 == dec_epochs(bytes, n).unwrap().0.subrange(0, k as int),
        dec_epochs(bytes, n).unwrap().0.len() == n,
    decreases n,
{
    if n == 0 {
        assert(dec_epochs(bytes, n).unwrap().0.subrange(0, 0) =~= Seq::empty());
    } else {
        let shorter = dec_epochs(bytes, (n - 1) as nat).unwrap().0;
        let all = dec_epochs(bytes, n).unwrap().0;
        if k == n {
            lemma_epochs_prefix(bytes, (n - 1) as nat, (n - 1) as nat);
            assert(all.subrange(0, n as int) =~= all);
        } else {
            lemma_epochs_prefix(bytes, k, (n - 1) as nat);
            assert(all.subrange(0, k as int) =~= shorter.subrange(0, k as int));
        }
    }
}

/// Reads an epoch at `at`.
fn read_epoch(bytes: &[u8], at: usize) -> (read: Option<(EpochState, usize)>)
    requires
        at <= bytes@.len(),
    ensures
        match read {
            Some((x, next)) => at <= next <= bytes@.len() && x@.wf() && dec_epoch(
                bytes@.skip(at as int),
            ) == Some((x@, bytes@.skip(next as int))),
            None => dec_epoch(bytes@.skip(at as int)).is_none(),
        },
{
    let (n, start) = match read_u64(bytes, at) {
        Some(read) => read,
        None => {
            return None;
        },
    };
    let ghost body = bytes@.skip(start as int);
    let mut epoch = EpochState::default();
    let mut next: usize = start;
    let mut i: u64 = 0;
    while i < n
        invariant
            i <= n,
            start <= next <= bytes@.len(),
            body == bytes@.skip(start as int),
            dec_entries(body, i as nat) == Some((epoch@.entries, bytes@.skip(next as int))),
            epoch@.entries.len() == i,
            dec_u64(bytes@.skip(at as int)) == Some((n, body)),
            epoch@.aggregated.is_none(),
            epoch@.wf(),
        decreases n - i,
    {
        let ghost read_so_far = epoch@.entries;
        match read_entry(bytes, next) {
            None => {
                proof {
                    assert(dec_entries(body, (i + 1) as nat).is_none());
                    if dec_entries(body, n as nat).is_some() {
                        lemma_entries_prefix(body, (i + 1) as nat, n as nat);
                    }
                }
                return None;
            },
            Some((source, input, after)) => {
                let ghost entry = (source@, input@);
                assert(dec_entries(body, (i + 1) as nat) == Some(
                    (read_so_far.push(entry), bytes@.skip(after as int)),
                ));
                let fresh = epoch.insert(source, input);
                if !fresh {
                    proof {
                        if dec_entries(body, n as nat).is_some() {
                            lemma_entries_prefix(body, (i + 1) as nat, n as nat);
                            let all = dec_entries(body, n as nat).unwrap().0;
                            let k = choose|k: int|
                                0 <= k < read_so_far.len() && #[trigger] read_so_far[k].0
                                    == entry.0;
                            assert(all.subrange(0, i + 1)[k] == all[k]);
                            assert(all.subrange(0, i + 1)[i as int] == all[i as int]);
                            assert(all[k].0 == all[i as int].0);
                            let rest = dec_entries(body, n as nat).unwrap().1;
                            if let Some((aggregated, _)) = dec_aggregated(rest) {
                                let read = EpochModel { entries: all, aggregated };
                                assert(read.entries[k].0 == read.entries[i as int].0);
                                assert(!read.wf());
                            }
                        }
                    }
                    return None;
                }
                next = after;
            },
        }
        i += 1;
    }
    if next >= bytes.len() {
        return None;
    }
    let tag: u8 = bytes[next];
    assert(bytes@.skip(next as int)[0] == tag);
    assert(bytes@.skip(next as int).skip(1) =~= bytes@.skip(next + 1));
    if tag == 0 {
        Some((epoch, next + 1))
    } else if tag == 1 {
        match read_proof(bytes, next + 1) {
            Some((proof, after)) => {
                epoch.set_aggregated(proof);
                Some((epoch, after))
            },
            None => None,
        }
    } else {
        None
    }
}

/// Enters `epoch` into a history under the number `e`.
fn put_epoch(epoch_history: &mut BTreeMap<u64, EpochState>, e: u64, epoch: EpochState)
    ensures
        final(epoch_history)@ == old(epoch_history)@.insert(e, epoch),
{
    broadcast use {vstd::std_specs::btree::group_btree_axioms, vstd::laws_cmp::group_laws_cmp};

    epoch_history.insert(e, epoch);
}

impl State {
    /// Writes the store as bytes.  A store that lacks one of the epochs up
    /// to the current one cannot be written.  What was written of a
    /// well-formed store reads back as that store.
    pub fn save(&self) -> (written: Result<Vec<u8>, StateError>)
        ensures
            match written {
                Ok(bytes) => complete(self@) && bytes@ == enc_state(self@) && (self@.wf()
                    ==> dec_state(bytes@) == Some(self@)),
                Err(_) => !complete(self@),
            },
    {
        let mut out: Vec<u8> = Vec::new();
        write_u64(&mut out, self.current_epoch);
        let ghost start = out@;
        let ghost epochs = history(self@);
        let mut e: u64 = 0;
        assert(epochs.subrange(0, 0) =~= Seq::empty());
        loop
            invariant_except_break
                out@ == start + enc_epochs(epochs.subrange(0, e as int)),
                forall|k: u64| k < e ==> #[trigger] self@.epochs.contains_key(k) && epoch_fits(
                    self@.epochs[k],
                ),
            invariant
                e <= self.current_epoch,
                epochs == history(self@),
                start == enc_u64(self.current_epoch),
            ensures
                e == self.current_epoch,
                out@ == start + enc_epochs(epochs.subrange(0, e + 1)),
                forall|k: u64| k <= e ==> #[trigger] self@.epochs.contains_key(k) && epoch_fits(
                    self@.epochs[k],
                ),
            decreases self.current_epoch - e,
        {
            match self.get_epoch_state(e) {
                None => {
                    return Err(StateError("an epoch is missing from the history".to_owned()));
                },
                Some(epoch) => {
                    write_epoch(&mut out, epoch);
                    proof {
                        let longer = epochs.subrange(0, e + 1);
                        assert(longer.drop_last() =~= epochs.subrange(0, e as int));
                        assert(longer.last() == epoch@);
                        assert(out@ =~= start + enc_epochs(longer));
                    }
                },
            }
            if e == self.current_epoch {
                break ;
            }
            e += 1;
        }
        proof {
            assert(epochs.subrange(0, e + 1) =~= epochs);
            assert(out@ =~= enc_state(self@));
            if self@.wf() {
                lemma_state_round_trip(self@);
            }
        }
        Ok(out)
    }

    /// Reads the store back from bytes.  Bytes that are no store are
    /// refused, and so is a store that counts a peer twice in an epoch;
    /// what is accepted is well-formed.
    pub fn load(bytes: &[u8]) -> (loaded: Result<State, StateError>)
        ensures
            match loaded {
                Ok(state) => dec_state(bytes@) == Some(state@) && state@.wf(),
                Err(_) => dec_state(bytes@).is_none(),
            },
    {
        let (current_epoch, start) = match read_u64(bytes, 0) {
            Some(read) => read,
            None => {
                assert(bytes@.skip(0) =~= bytes@);
                return Err(StateError("the epoch number is cut short".to_owned()));
            },
        };
        assert(bytes@.skip(0) =~= bytes@);
        let ghost body = bytes@.skip(start as int);
        let ghost mut epochs: Seq<EpochModel> = Seq::empty();
        let mut epoch_history: BTreeMap<u64, EpochState> = BTreeMap::new();
        let mut next: usize = start;
        let mut e: u64 = 0;
        loop
            invariant_except_break
                epochs.len() == e,
                dec_epochs(body, e as nat) == Some((epochs, bytes@.skip(next as int))),
                forall|k: u64| #[trigger] epoch_history@.contains_key(k) <==> k < e,
            invariant
                e <= current_epoch,
                dec_u64(bytes@) == Some((current_epoch, body)),
                start <= next <= bytes@.len(),
                body == bytes@.skip(start as int),
                forall|k: u64|
                    #[trigger] epoch_history@.contains_key(k) ==> k < epochs.len()
                        && epoch_history@[k]@ == epochs[k as int],
                forall|k: int| 0 <= k < epochs.len() ==> (#[trigger] epochs[k]).wf(),
            ensures
                e == current_epoch,
                epochs.len() == e + 1,
                dec_epochs(body, (e + 1) as nat) == Some((epochs, bytes@.skip(next as int))),
                forall|k: u64| #[trigger] epoch_history@.contains_key(k) <==> k <= e,
            decreases current_epoch - e,
        {
            match read_epoch(bytes, next) {
                None => {
                    proof {
                        assert(dec_epochs(body, (e + 1) as nat).is_none());
                        if dec_epochs(body, (current_epoch + 1) as nat).is_some() {
                            lemma_epochs_prefix(
                                body,
                                (e + 1) as nat,
                                (current_epoch + 1) as nat,
                            );
                        }
                    }
                    return Err(StateError("an epoch is cut short or malformed".to_owned()));
                },
                Some((epoch, after)) => {
                    proof {
                        epochs = epochs.push(epoch@);
                    }
                    put_epoch(&mut epoch_history, e, epoch);
                    next = after;
                },
            }
            if e == current_epoch {
                break ;
            }
            e += 1;
        }
        if next != bytes.len() {
            return Err(StateError("bytes follow the last epoch".to_owned()));
        }
        let state = State { current_epoch, epoch_history };
        proof {
            let read = dec_state(bytes@).unwrap();
            assert(read.epochs =~= state@.epochs);
        }
        Ok(state)
    }
}

} // verus!
