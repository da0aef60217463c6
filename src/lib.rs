//! A ledger of client accounts driven by a sequence of deposits, withdrawals,
//! disputes, resolutions and chargebacks, with every transition proved
//! against its contract.

pub mod amount;
pub mod types;
pub mod ledger;
pub mod theorems;
