use vstd::prelude::*;

verus! {

/// Number of atomic units in one whole coin: amounts carry exactly eight
/// fractional digits of precision.
pub const SATS_PER_COIN: u64 = 100_000_000;

/// A monetary amount, held as a count of the currency's atomic units
/// (10^-8 of one coin) so that arithmetic on amounts is exact.
#[derive(Clone, Copy, Debug, PartialEq, Eq, Structural)]
pub struct Amount {
    pub sats: u64,
}

/// Why provenance resolution failed.
#[derive(Clone, Copy, Debug, PartialEq, Eq, Structural)]
pub enum ProvenanceError {
    /// A referenced transaction, output index, or block could not be
    /// resolved.
    NotFound,
    /// The target transaction has no confirming block.
    Unconfirmed,
    /// The report artifact could not be created or written.
    Io,
}

/// Identifies one output of a prior transaction: the id of the transaction
/// that created it plus the output's position within that transaction.
#[derive(Clone, Debug, PartialEq, Eq)]
pub struct OutputReference {
    pub txid: String,
    pub vout: usize,
}

/// One decoded transaction output: its value and, when the locking script
/// has a standard form, the address that owns it.
#[derive(Clone, Debug, PartialEq, Eq)]
pub struct DecodedOutput {
    pub value: Amount,
    pub address: Option<String>,
}

/// One decoded transaction input: the reference to the prior output it
/// spends.
#[derive(Clone, Debug, PartialEq, Eq)]
pub struct DecodedInput {
    pub spends: OutputReference,
}

/// A fully decoded transaction. The order of `outputs` is significant: it
/// is the on-chain output index and is preserved when reporting.
#[derive(Clone, Debug, PartialEq, Eq)]
pub struct DecodedTransaction {
    pub id: String,
    pub inputs: Vec<DecodedInput>,
    pub outputs: Vec<DecodedOutput>,
}

/// The block in which a transaction was confirmed. Absent for unconfirmed
/// transactions, which the resolver rejects.
#[derive(Clone, Debug, PartialEq, Eq)]
pub struct ConfirmationInfo {
    pub block_hash: String,
    pub block_height: u64,
}

/// The resolved provenance of one confirmed transaction: who funded it,
/// who was paid, what came back as change, and the implied fee.
/// Constructed once per resolved transaction and immutable afterwards.
#[derive(Clone, Debug, PartialEq, Eq)]
pub struct ProvenanceRecord {
    pub transaction_id: String,
    pub funding_address: String,
    pub funding_amount: Amount,
    pub recipient_address: String,
    pub recipient_amount: Amount,
    pub change_address: String,
    pub change_amount: Amount,
    pub fee: Amount,
    pub block_height: u64,
    pub block_hash: String,
}

/// The address of an output, viewed as a sequence of characters, if the
/// output has one.
pub open spec fn addr_view(o: DecodedOutput) -> Option<Seq<char>> {
    match o.address {
        Some(a) => Some(a@),
        None => None,
    }
}

/// The address of an output as text, or empty when the output has no
/// standard address.
pub open spec fn spec_address_text(o: DecodedOutput) -> Seq<char> {
    match o.address {
        Some(a) => a@,
        None => Seq::empty(),
    }
}

} // verus!
