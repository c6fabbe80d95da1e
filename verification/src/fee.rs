use vstd::prelude::*;

verus! {

use crate::model::Amount;

/// The implied network fee: the unsigned difference between the funding
/// amount and the total of the classified outputs.
pub open spec fn spec_fee(funding: int, recipient: int, change: int) -> int {
    if funding >= recipient + change {
        funding - (recipient + change)
    } else {
        (recipient + change) - funding
    }
}

/// Derives the network fee from the funding amount and the classified
/// recipient and change amounts. The unsigned magnitude is returned: a
/// deliberate normalization, so a classification miss cannot yield a
/// negative figure.
pub fn compute_fee(funding: Amount, recipient: Amount, change: Amount) -> (fee: Amount)
    requires
        recipient.sats + change.sats <= u64::MAX,
    ensures
        fee.sats == spec_fee(funding.sats as int, recipient.sats as int, change.sats as int),
{
    let total: u64 = recipient.sats + change.sats;
    if funding.sats >= total {
        Amount { sats: funding.sats - total }
    } else {
        Amount { sats: total - funding.sats }
    }
}

/// Value conservation: whenever the classified outputs do not exceed the
/// funding amount, the funding amount equals recipient + change + fee,
/// exactly, with no tolerance needed in atomic units.
pub proof fn lemma_value_conservation(funding: int, recipient: int, change: int)
    requires
        0 <= recipient,
        0 <= change,
        recipient + change <= funding,
    ensures
        funding == recipient + change + spec_fee(funding, recipient, change),
{
}

} // verus!
