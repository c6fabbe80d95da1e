//! Transaction provenance resolution for a simple ledger of inputs and
//! outputs: given a decoded transaction, the transaction that funded it,
//! and wallet-ownership knowledge of the output addresses, the library
//! determines which address funded the transaction, which output paid the
//! intended recipient, which output returned change to the sender, and the
//! implied network fee, and renders the result as a fixed-layout report.
//!
//! Amounts are carried as integer counts of the currency's atomic unit
//! (10^-8 of one coin), so all arithmetic on them is exact.

pub mod classifier;
pub mod fee;
pub mod model;
pub mod record;
pub mod report;
pub mod resolver;
