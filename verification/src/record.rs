use vstd::prelude::*;

verus! {

use crate::classifier::{
    classify, lemma_change_index_last, lemma_recipient_index_first, spec_change_addr,
    spec_change_index, spec_change_sats, spec_recipient_addr, spec_recipient_index,
    spec_recipient_sats,
};
use crate::fee::{compute_fee, lemma_value_conservation, spec_fee};
use crate::model::{
    spec_address_text, ConfirmationInfo, DecodedOutput, DecodedTransaction, ProvenanceError,
    ProvenanceRecord,
};
use crate::resolver::{first_input_reference, resolve_funding};

/// Total value of a sequence of outputs, in atomic units.
pub open spec fn sum_values(outs: Seq<DecodedOutput>) -> int
    decreases outs.len(),
{
    if outs.len() == 0 {
        0
    } else {
        sum_values(outs.drop_last()) + outs.last().value.sats
    }
}

/// An output total is never negative.
pub proof fn lemma_sum_nonneg(outs: Seq<DecodedOutput>)
    ensures
        sum_values(outs) >= 0,
    decreases outs.len(),
{
    if outs.len() > 0 {
        lemma_sum_nonneg(outs.drop_last());
    }
}

/// One output's value never exceeds the total of its sequence.
pub proof fn lemma_elem_le_sum(outs: Seq<DecodedOutput>, i: int)
    requires
        0 <= i < outs.len(),
    ensures
        outs[i].value.sats <= sum_values(outs),
    decreases outs.len(),
{
    if i == outs.len() - 1 {
        lemma_sum_nonneg(outs.drop_last());
    } else {
        lemma_elem_le_sum(outs.drop_last(), i);
        assert(outs.drop_last()[i] == outs[i]);
    }
}

/// Two distinct outputs' values together never exceed the total of their
/// sequence.
pub proof fn lemma_pair_le_sum(outs: Seq<DecodedOutput>, i: int, j: int)
    requires
        0 <= i < outs.len(),
        0 <= j < outs.len(),
        i != j,
    ensures
        outs[i].value.sats + outs[j].value.sats <= sum_values(outs),
    decreases outs.len(),
{
    if j == outs.len() - 1 {
        lemma_elem_le_sum(outs.drop_last(), i);
        assert(outs.drop_last()[i] == outs[i]);
    } else if i == outs.len() - 1 {
        lemma_elem_le_sum(outs.drop_last(), j);
        assert(outs.drop_last()[j] == outs[j]);
    } else {
        lemma_pair_le_sum(outs.drop_last(), i, j);
        assert(outs.drop_last()[i] == outs[i]);
        assert(outs.drop_last()[j] == outs[j]);
    }
}

/// A prefix total never exceeds the whole total.
proof fn lemma_sum_prefix_le(outs: Seq<DecodedOutput>, k: int)
    requires
        0 <= k <= outs.len(),
    ensures
        sum_values(outs.take(k)) <= sum_values(outs),
    decreases outs.len() - k,
{
    if k == outs.len() {
        assert(outs.take(k) =~= outs);
    } else {
        lemma_sum_prefix_le(outs, k + 1);
        assert(outs.take(k + 1).drop_last() =~= outs.take(k));
        assert(outs.take(k + 1).last() == outs[k]);
    }
}

/// Totals a transaction's outputs in atomic units, or reports that the
/// total does not fit the 64 bits the fee arithmetic works in. A caller
/// holding `Some` has established the resolver's overflow precondition.
pub fn total_output_value(outputs: &Vec<DecodedOutput>) -> (r: Option<u64>)
    ensures
        r matches Some(t) ==> t == sum_values(outputs@),
        r is None ==> sum_values(outputs@) > u64::MAX,
{
    let mut acc: u64 = 0;
    let mut i: usize = 0;
    while i < outputs.len()
        invariant
            i <= outputs@.len(),
            acc == sum_values(outputs@.take(i as int)),
        decreases outputs@.len() - i,
    {
        proof {
            assert(outputs@.take(i + 1).drop_last() =~= outputs@.take(i as int));
            assert(outputs@.take(i + 1).last() == outputs@[i as int]);
        }
        let v = outputs[i].value.sats;
        if acc > u64::MAX - v {
            proof {
                lemma_sum_prefix_le(outputs@, i + 1);
            }
            return None;
        }
        acc = acc + v;
        i = i + 1;
    }
    proof {
        assert(outputs@.take(outputs@.len() as int) =~= outputs@);
    }
    Some(acc)
}

/// The classified recipient and change amounts are drawn from distinct
/// outputs (or default to zero), so together they never exceed the total
/// of the outputs.
pub proof fn lemma_classified_le_sum(outs: Seq<DecodedOutput>, owned: Seq<bool>, rcpt: Seq<char>)
    requires
        owned.len() == outs.len(),
    ensures
        0 <= spec_recipient_sats(outs, rcpt),
        0 <= spec_change_sats(outs, owned, rcpt),
        spec_recipient_sats(outs, rcpt) + spec_change_sats(outs, owned, rcpt) <= sum_values(outs),
{
    lemma_recipient_index_first(outs, rcpt);
    lemma_change_index_last(outs, owned, rcpt);
    lemma_sum_nonneg(outs);
    match (spec_recipient_index(outs, rcpt), spec_change_index(outs, owned, rcpt)) {
        (Some(i), Some(j)) => {
            lemma_pair_le_sum(outs, i, j);
        },
        (Some(i), None) => {
            lemma_elem_le_sum(outs, i);
        },
        (None, Some(j)) => {
            lemma_elem_le_sum(outs, j);
        },
        (None, None) => {},
    }
}

/// For a transaction with one input and exactly two classified outputs —
/// one recipient and one change — whose total does not exceed the funding
/// amount, the value conservation law holds exactly in atomic units:
/// the funding amount equals recipient + change + fee. (When the
/// classified outputs exceed the funding amount, the fee is reported as
/// an unsigned magnitude and the signed identity does not hold.)
pub proof fn lemma_two_output_conservation(
    tx: DecodedTransaction,
    owned: Seq<bool>,
    rcpt: Seq<char>,
    funding: int,
)
    requires
        tx.inputs@.len() == 1,
        tx.outputs@.len() == 2,
        owned.len() == 2,
        spec_recipient_index(tx.outputs@, rcpt) is Some,
        spec_change_index(tx.outputs@, owned, rcpt) is Some,
        spec_recipient_sats(tx.outputs@, rcpt) + spec_change_sats(tx.outputs@, owned, rcpt)
            <= funding,
    ensures
        funding == spec_recipient_sats(tx.outputs@, rcpt) + spec_change_sats(
            tx.outputs@,
            owned,
            rcpt,
        ) + spec_fee(
            funding,
            spec_recipient_sats(tx.outputs@, rcpt),
            spec_change_sats(tx.outputs@, owned, rcpt),
        ),
{
    lemma_classified_le_sum(tx.outputs@, owned, rcpt);
    lemma_value_conservation(
        funding,
        spec_recipient_sats(tx.outputs@, rcpt),
        spec_change_sats(tx.outputs@, owned, rcpt),
    );
}

/// Ties a resolved record to its sources: every field equals what the
/// resolver, the classifier, and the fee calculator compute from the
/// target transaction, its funding transaction, its confirming block, and
/// the ownership answers.
pub open spec fn record_correct(
    rec: ProvenanceRecord,
    tx: DecodedTransaction,
    prev_tx: DecodedTransaction,
    conf: ConfirmationInfo,
    owned: Seq<bool>,
    rcpt: Seq<char>,
) -> bool {
    let vout = tx.inputs@[0].spends.vout as int;
    let funding = prev_tx.outputs@[vout];
    &&& rec.transaction_id@ == tx.id@
    &&& rec.funding_address@ == spec_address_text(funding)
    &&& rec.funding_amount == funding.value
    &&& rec.recipient_address@ == spec_recipient_addr(tx.outputs@, rcpt)
    &&& rec.recipient_amount.sats == spec_recipient_sats(tx.outputs@, rcpt)
    &&& rec.change_address@ == spec_change_addr(tx.outputs@, owned, rcpt)
    &&& rec.change_amount.sats == spec_change_sats(tx.outputs@, owned, rcpt)
    &&& rec.fee.sats == spec_fee(
        funding.value.sats as int,
        spec_recipient_sats(tx.outputs@, rcpt),
        spec_change_sats(tx.outputs@, owned, rcpt),
    )
    &&& rec.block_height == conf.block_height
    &&& rec.block_hash@ == conf.block_hash@
}

/// Resolves the provenance of one confirmed transaction. `tx` is the
/// target transaction; `prev_tx` is the transaction named by `tx`'s first
/// input, already fetched from the node; `confirmation` is `tx`'s
/// confirming block, if it has one; `owned[i]` is the ownership oracle's
/// answer for `tx.outputs[i]`, with a failed lookup passed in as `false`.
/// An unconfirmed transaction is rejected with `Unconfirmed`; a first
/// input referencing an output index `prev_tx` does not have is rejected
/// with `NotFound`; otherwise the fully resolved record is returned, and
/// these are the only outcomes.
pub fn build_record(
    tx: &DecodedTransaction,
    prev_tx: &DecodedTransaction,
    confirmation: &Option<ConfirmationInfo>,
    recipient_address: &String,
    owned: &Vec<bool>,
) -> (r: Result<ProvenanceRecord, ProvenanceError>)
    requires
        tx.inputs@.len() >= 1,
        prev_tx.id@ == tx.inputs@[0].spends.txid@,
        owned@.len() == tx.outputs@.len(),
        sum_values(tx.outputs@) <= u64::MAX,
    ensures
        confirmation is None ==> (r matches Err(e) && e is Unconfirmed),
        (confirmation is Some && tx.inputs@[0].spends.vout >= prev_tx.outputs@.len()) ==> (
        r matches Err(e) && e is NotFound),
        confirmation is Some && tx.inputs@[0].spends.vout < prev_tx.outputs@.len() ==> (
        r matches Ok(rec) && record_correct(
            rec,
            *tx,
            *prev_tx,
            confirmation->0,
            owned@,
            recipient_address@,
        )),
{
    let conf = match confirmation {
        Some(c) => c,
        None => {
            return Err(ProvenanceError::Unconfirmed);
        },
    };
    let reference = first_input_reference(tx);
    let funding = match resolve_funding(prev_tx, reference) {
        Ok(f) => f,
        Err(e) => {
            return Err(e);
        },
    };
    let c = classify(&tx.outputs, recipient_address, owned);
    proof {
        lemma_classified_le_sum(tx.outputs@, owned@, recipient_address@);
    }
    let fee = compute_fee(funding.amount, c.recipient_amount, c.change_amount);
    Ok(
        ProvenanceRecord {
            transaction_id: tx.id.clone(),
            funding_address: funding.address,
            funding_amount: funding.amount,
            recipient_address: c.recipient_address,
            recipient_amount: c.recipient_amount,
            change_address: c.change_address,
            change_amount: c.change_amount,
            fee,
            block_height: conf.block_height,
            block_hash: conf.block_hash.clone(),
        },
    )
}

} // verus!
