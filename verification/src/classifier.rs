use vstd::prelude::*;

verus! {

use crate::model::{addr_view, spec_address_text, Amount, DecodedOutput};

/// The outcome of classifying a transaction's outputs: at most one
/// recipient output and at most one change output, each reported as its
/// address and amount. An absent one reports as an empty address and a
/// zero amount. Outputs that are neither stay unclassified and are
/// excluded from both totals.
#[derive(Clone, Debug, PartialEq, Eq)]
pub struct Classification {
    pub recipient_address: String,
    pub recipient_amount: Amount,
    pub change_address: String,
    pub change_amount: Amount,
}

/// Index of the output paid to the recipient: the first output whose
/// address equals the recipient address exactly. Later outputs with the
/// same address stay unclassified.
pub open spec fn spec_recipient_index(outs: Seq<DecodedOutput>, rcpt: Seq<char>) -> Option<int>
    decreases outs.len(),
{
    if outs.len() == 0 {
        None
    } else {
        let prefix = spec_recipient_index(outs.drop_last(), rcpt);
        if prefix is Some {
            prefix
        } else if addr_view(outs.last()) == Some(rcpt) {
            Some(outs.len() - 1)
        } else {
            None
        }
    }
}

/// Whether an output is a candidate change output: it carries an address,
/// the address differs from the recipient's, and the wallet owns it.
pub open spec fn is_change_candidate(o: DecodedOutput, owned: bool, rcpt: Seq<char>) -> bool {
    &&& owned
    &&& addr_view(o) is Some
    &&& addr_view(o) != Some(rcpt)
}

/// Index of the change output: the last change candidate, mirroring a
/// scan in which each later candidate supersedes the earlier one.
pub open spec fn spec_change_index(
    outs: Seq<DecodedOutput>,
    owned: Seq<bool>,
    rcpt: Seq<char>,
) -> Option<int>
    decreases outs.len(),
{
    if outs.len() == 0 {
        None
    } else if is_change_candidate(outs.last(), owned.last(), rcpt) {
        Some(outs.len() - 1)
    } else {
        spec_change_index(outs.drop_last(), owned.drop_last(), rcpt)
    }
}

/// The reported recipient address: the recipient address itself when some
/// output matches it, empty otherwise.
pub open spec fn spec_recipient_addr(outs: Seq<DecodedOutput>, rcpt: Seq<char>) -> Seq<char> {
    if spec_recipient_index(outs, rcpt) is Some {
        rcpt
    } else {
        Seq::empty()
    }
}

/// The reported recipient amount in atomic units: zero when no output
/// matches the recipient address.
pub open spec fn spec_recipient_sats(outs: Seq<DecodedOutput>, rcpt: Seq<char>) -> int {
    match spec_recipient_index(outs, rcpt) {
        Some(i) => outs[i].value.sats as int,
        None => 0,
    }
}

/// The reported change address: empty when no output is a change
/// candidate.
pub open spec fn spec_change_addr(
    outs: Seq<DecodedOutput>,
    owned: Seq<bool>,
    rcpt: Seq<char>,
) -> Seq<char> {
    match spec_change_index(outs, owned, rcpt) {
        Some(i) => spec_address_text(outs[i]),
        None => Seq::empty(),
    }
}

/// The reported change amount in atomic units: zero when no output is a
/// change candidate.
pub open spec fn spec_change_sats(
    outs: Seq<DecodedOutput>,
    owned: Seq<bool>,
    rcpt: Seq<char>,
) -> int {
    match spec_change_index(outs, owned, rcpt) {
        Some(i) => outs[i].value.sats as int,
        None => 0,
    }
}

/// Ties a classification to its inputs: every field equals what the
/// specification-level classifier computes from the outputs, the
/// ownership answers, and the recipient address.
pub open spec fn classification_correct(
    c: Classification,
    outs: Seq<DecodedOutput>,
    owned: Seq<bool>,
    rcpt: Seq<char>,
) -> bool {
    &&& c.recipient_address@ == spec_recipient_addr(outs, rcpt)
    &&& c.recipient_amount.sats == spec_recipient_sats(outs, rcpt)
    &&& c.change_address@ == spec_change_addr(outs, owned, rcpt)
    &&& c.change_amount.sats == spec_change_sats(outs, owned, rcpt)
}

/// Partitions a transaction's outputs, in on-chain order, against a known
/// recipient address and per-output wallet-ownership answers. `owned[i]`
/// is the ownership oracle's answer for `outputs[i]`; a failed lookup is
/// passed in as `false`. The first output matching the recipient address
/// is the recipient output; of the owned, non-recipient outputs with an
/// address, the last is the change output.
pub fn classify(
    outputs: &Vec<DecodedOutput>,
    recipient_address: &String,
    owned: &Vec<bool>,
) -> (c: Classification)
    requires
        owned@.len() == outputs@.len(),
    ensures
        classification_correct(c, outputs@, owned@, recipient_address@),
{
    let mut recipient_found: bool = false;
    let mut recipient_addr: String = String::new();
    let mut recipient_amount: Amount = Amount { sats: 0 };
    let mut change_addr: String = String::new();
    let mut change_amount: Amount = Amount { sats: 0 };

    let mut i: usize = 0;
    while i < outputs.len()
        invariant
            owned@.len() == outputs@.len(),
            i <= outputs@.len(),
            recipient_found == (spec_recipient_index(outputs@.take(i as int), recipient_address@)
                is Some),
            recipient_addr@ == spec_recipient_addr(outputs@.take(i as int), recipient_address@),
            recipient_amount.sats == spec_recipient_sats(
                outputs@.take(i as int),
                recipient_address@,
            ),
            change_addr@ == spec_change_addr(
                outputs@.take(i as int),
                owned@.take(i as int),
                recipient_address@,
            ),
            change_amount.sats == spec_change_sats(
                outputs@.take(i as int),
                owned@.take(i as int),
                recipient_address@,
            ),
        decreases outputs@.len() - i,
    {
        proof {
            lemma_recipient_index_first(outputs@.take(i as int), recipient_address@);
            lemma_change_index_last(
                outputs@.take(i as int),
                owned@.take(i as int),
                recipient_address@,
            );
            assert(outputs@.take(i + 1).drop_last() =~= outputs@.take(i as int));
            assert(owned@.take(i + 1).drop_last() =~= owned@.take(i as int));
            assert(outputs@.take(i + 1).last() == outputs@[i as int]);
            assert(owned@.take(i + 1).last() == owned@[i as int]);
            assert forall|j: int| 0 <= j <= i implies outputs@.take(i + 1)[j] == outputs@[j] by {}
            assert forall|j: int| 0 <= j < i implies outputs@.take(i as int)[j] == outputs@[j] by {}
            assert forall|j: int| 0 <= j <= i implies owned@.take(i + 1)[j] == owned@[j] by {}
            assert forall|j: int| 0 <= j < i implies owned@.take(i as int)[j] == owned@[j] by {}
        }
        let out = &outputs[i];
        match &out.address {
            Some(a) => {
                if *a == *recipient_address {
                    if !recipient_found {
                        recipient_found = true;
                        recipient_addr = a.clone();
                        recipient_amount = out.value;
                    }
                } else if owned[i] {
                    change_addr = a.clone();
                    change_amount = out.value;
                }
            },
            None => {},
        }
        i = i + 1;
    }
    proof {
        assert(outputs@.take(outputs@.len() as int) =~= outputs@);
        assert(owned@.take(owned@.len() as int) =~= owned@);
    }
    Classification {
        recipient_address: recipient_addr,
        recipient_amount,
        change_address: change_addr,
        change_amount,
    }
}

/// The recipient index is the first match: the output at the index
/// carries the recipient address, no earlier output does, and when the
/// index is absent no output does.
pub proof fn lemma_recipient_index_first(outs: Seq<DecodedOutput>, rcpt: Seq<char>)
    ensures
        spec_recipient_index(outs, rcpt) matches Some(i) ==> 0 <= i < outs.len()
            && addr_view(outs[i]) == Some(rcpt) && (forall|j: int|
            0 <= j < i ==> addr_view(outs[j]) != Some(rcpt)),
        spec_recipient_index(outs, rcpt) is None ==> forall|j: int|
            0 <= j < outs.len() ==> addr_view(outs[j]) != Some(rcpt),
    decreases outs.len(),
{
    if outs.len() > 0 {
        lemma_recipient_index_first(outs.drop_last(), rcpt);
        assert forall|j: int| 0 <= j < outs.len() - 1 implies outs.drop_last()[j] == outs[j] by {}
    }
}

/// The change index is the last candidate: the output at the index is a
/// change candidate, no later output is, and when the index is absent no
/// output is a candidate.
pub proof fn lemma_change_index_last(outs: Seq<DecodedOutput>, owned: Seq<bool>, rcpt: Seq<char>)
    requires
        owned.len() == outs.len(),
    ensures
        spec_change_index(outs, owned, rcpt) matches Some(i) ==> 0 <= i < outs.len()
            && is_change_candidate(outs[i], owned[i], rcpt) && (forall|j: int|
            i < j < outs.len() ==> !is_change_candidate(outs[j], owned[j], rcpt)),
        spec_change_index(outs, owned, rcpt) is None ==> forall|j: int|
            0 <= j < outs.len() ==> !is_change_candidate(outs[j], owned[j], rcpt),
    decreases outs.len(),
{
    if outs.len() > 0 {
        lemma_change_index_last(outs.drop_last(), owned.drop_last(), rcpt);
        assert forall|j: int| 0 <= j < outs.len() - 1 implies outs.drop_last()[j] == outs[j] by {}
        assert forall|j: int| 0 <= j < owned.len() - 1 implies owned.drop_last()[j] == owned[j] by {}
    }
}

/// Classification holds no hidden state: two classifications of the same
/// outputs, ownership answers, and recipient address agree field by
/// field, so running the classifier twice yields identical results.
pub proof fn lemma_classify_deterministic(
    c1: Classification,
    c2: Classification,
    outs: Seq<DecodedOutput>,
    owned: Seq<bool>,
    rcpt: Seq<char>,
)
    requires
        classification_correct(c1, outs, owned, rcpt),
        classification_correct(c2, outs, owned, rcpt),
    ensures
        c1.recipient_address@ == c2.recipient_address@,
        c1.recipient_amount == c2.recipient_amount,
        c1.change_address@ == c2.change_address@,
        c1.change_amount == c2.change_amount,
{
}

/// When no output's address matches the recipient address, the recipient
/// fields come back empty and zero; classification still succeeds.
pub proof fn lemma_no_recipient_match(
    c: Classification,
    outs: Seq<DecodedOutput>,
    owned: Seq<bool>,
    rcpt: Seq<char>,
)
    requires
        classification_correct(c, outs, owned, rcpt),
        forall|j: int| 0 <= j < outs.len() ==> addr_view(outs[j]) != Some(rcpt),
    ensures
        c.recipient_address@ == Seq::<char>::empty(),
        c.recipient_amount.sats == 0,
{
    lemma_recipient_index_first(outs, rcpt);
}

/// When the wallet owns none of the outputs, the change fields come back
/// empty and zero.
pub proof fn lemma_no_owned_outputs(
    c: Classification,
    outs: Seq<DecodedOutput>,
    owned: Seq<bool>,
    rcpt: Seq<char>,
)
    requires
        classification_correct(c, outs, owned, rcpt),
        owned.len() == outs.len(),
        forall|j: int| 0 <= j < owned.len() ==> !owned[j],
    ensures
        c.change_address@ == Seq::<char>::empty(),
        c.change_amount.sats == 0,
{
    lemma_change_index_last(outs, owned, rcpt);
}

} // verus!
