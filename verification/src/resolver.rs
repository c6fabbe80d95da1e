use vstd::prelude::*;

verus! {

use crate::model::{
    spec_address_text, Amount, DecodedTransaction, OutputReference, ProvenanceError,
};

/// The funding source of a transaction: the address and value of the
/// prior output that its first input spends.
#[derive(Clone, Debug, PartialEq, Eq)]
pub struct FundingSource {
    pub address: String,
    pub amount: Amount,
}

/// The reference carried by a transaction's first input. An input holds
/// no value or address of its own on the ledger, only this reference, so
/// the funding identity must be recovered by dereferencing it.
pub fn first_input_reference(tx: &DecodedTransaction) -> (r: &OutputReference)
    requires
        tx.inputs@.len() >= 1,
    ensures
        *r == tx.inputs@[0].spends,
{
    &tx.inputs[0].spends
}

/// Selects the funding output from the transaction that created it.
/// `prev_tx` must be the transaction the reference names; the output at
/// the referenced index yields the funding address (empty when the
/// locking script has no standard address) and the funding amount. A
/// reference to an output index the transaction does not have cannot be
/// located.
pub fn resolve_funding(prev_tx: &DecodedTransaction, reference: &OutputReference) -> (r: Result<
    FundingSource,
    ProvenanceError,
>)
    requires
        prev_tx.id@ == reference.txid@,
    ensures
        reference.vout < prev_tx.outputs@.len() ==> (r matches Ok(f) && f.address@
            == spec_address_text(prev_tx.outputs@[reference.vout as int]) && f.amount
            == prev_tx.outputs@[reference.vout as int].value),
        reference.vout >= prev_tx.outputs@.len() ==> (r matches Err(e) && e is NotFound),
{
    if reference.vout < prev_tx.outputs.len() {
        let out = &prev_tx.outputs[reference.vout];
        let address = match &out.address {
            Some(a) => a.clone(),
            None => String::new(),
        };
        Ok(FundingSource { address, amount: out.value })
    } else {
        Err(ProvenanceError::NotFound)
    }
}

} // verus!
